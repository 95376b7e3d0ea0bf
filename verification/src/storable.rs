use vstd::prelude::*;

verus! {

/// A value that can be laid out for persistence and read back: a fixed
/// header beside the packed bytes. The proxy itself persists no captured
/// traffic; this trait is the contract the store offers whoever does.
pub trait Storable: Sized {
    type Header;

    /// The header and the packed bytes of this value.
    fn pack(&self) -> (Self::Header, Vec<u8>);

    /// How many packed bytes a value with this header occupies.
    fn pack_size(header: &Self::Header) -> usize;

    /// The value packed into these bytes.
    fn unpack(hdr: &Self::Header, pack: &Vec<u8>) -> Self;
}

} // verus!
