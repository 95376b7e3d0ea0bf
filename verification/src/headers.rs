use vstd::prelude::*;

verus! {

/// The HTTP protocol version of a message, carried through untouched.
#[derive(Clone, Copy, PartialEq, Eq, Structural, Debug)]
pub enum HttpVersion {
    Http09,
    Http10,
    Http11,
    Http2,
    Http3,
}

/// One header line: a name and a raw value. A head keeps its headers as a
/// list of these, so duplicate names and their order survive the trip
/// through the proxy.
#[derive(Debug)]
pub struct Header {
    pub name: String,
    pub value: Vec<u8>,
}

/// The mathematical content of one header line.
pub ghost struct HeaderView {
    pub name: Seq<char>,
    pub value: Seq<u8>,
}

impl View for Header {
    type V = HeaderView;

    open spec fn view(&self) -> HeaderView {
        HeaderView { name: self.name@, value: self.value@ }
    }
}

/// The content of a header list, in order.
pub open spec fn headers_view(hs: Seq<Header>) -> Seq<HeaderView> {
    hs.map_values(|h: Header| h@)
}

impl Header {
    /// A fresh header with the same name and value.
    pub fn duplicate(&self) -> (r: Header)
        ensures
            r@ == self@,
    {
        Header { name: self.name.clone(), value: clone_bytes(&self.value) }
    }
}

/// A fresh byte vector with the same contents.
pub fn clone_bytes(v: &Vec<u8>) -> (r: Vec<u8>)
    ensures
        r@ == v@,
{
    let r = v.clone();
    proof {
        assert(r@ =~= v@);
    }
    r
}

/// A fresh header list with the same lines in the same order.
pub fn duplicate_headers(hs: &Vec<Header>) -> (r: Vec<Header>)
    ensures
        headers_view(r@) == headers_view(hs@),
{
    let mut r: Vec<Header> = Vec::new();
    let mut i: usize = 0;
    while i < hs.len()
        invariant
            i <= hs.len(),
            r@.len() == i,
            forall|k: int| 0 <= k < i ==> r@[k]@ == hs@[k]@,
        decreases hs.len() - i,
    {
        r.push(hs[i].duplicate());
        i += 1;
    }
    proof {
        assert(headers_view(r@) =~= headers_view(hs@));
    }
    r
}

} // verus!
