use std::sync::Arc;

use vstd::prelude::*;

verus! {

/// A PEM-parsed X.509 certificate of the openssl crate, carried opaquely.
#[verifier::external_type_specification]
#[verifier::external_body]
pub struct ExX509(openssl::x509::X509);

/// A private key of the openssl crate, carried opaquely.
#[verifier::external_type_specification]
#[verifier::external_body]
#[verifier::reject_recursive_types(T)]
pub struct ExPKey<T>(openssl::pkey::PKey<T>);

/// The marker openssl gives keys that hold their private half.
#[verifier::external_type_specification]
#[verifier::external_body]
pub struct ExPrivate(openssl::pkey::Private);

/// The most bytes openssl's PEM reader takes in one call: its memory BIO
/// asserts that the input length fits a C `int`, and panics beyond that.
pub const MAX_PEM_INPUT: usize = 0x7fff_ffff;

/// Whether openssl's PEM parser accepts these bytes as an X.509 certificate.
/// The answer depends on the bytes alone.
pub uninterp spec fn x509_pem_parses(bytes: Seq<u8>) -> bool;

/// Whether openssl's DER parser accepts these bytes as a private key. The
/// answer depends on the bytes alone.
pub uninterp spec fn pkey_der_parses(bytes: Seq<u8>) -> bool;

/// Relies on openssl's X509::from_pem: parsing is a deterministic function of
/// the bytes; success is named `x509_pem_parses`. The input must fit a C
/// `int`: on longer input the crate's memory BIO panics, so such input is
/// kept out.
#[verifier::external_body]
fn parse_cert_pem(bytes: &Vec<u8>) -> (r: Option<openssl::x509::X509>)
    requires
        bytes@.len() <= MAX_PEM_INPUT,
    ensures
        r is Some <==> x509_pem_parses(bytes@),
{
    openssl::x509::X509::from_pem(bytes.as_slice()).ok()
}

/// Relies on openssl's PKey::private_key_from_der: parsing is a deterministic
/// function of the bytes; success is named `pkey_der_parses`. The crate clamps
/// the length itself, so any input is admitted.
#[verifier::external_body]
fn parse_key_der(bytes: &Vec<u8>) -> (r: Option<
    openssl::pkey::PKey<openssl::pkey::Private>,
>)
    ensures
        r is Some <==> pkey_der_parses(bytes@),
{
    openssl::pkey::PKey::private_key_from_der(bytes.as_slice()).ok()
}

/// The proxy's root identity: the certificate clients are told to trust, and
/// the key that signs every minted leaf. Shared read-only for the proxy's
/// life.
#[derive(Debug)]
pub struct CertStore {
    pub privkey: openssl::pkey::PKey<openssl::pkey::Private>,
    pub pubkey: openssl::x509::X509,
}

/// What the loading step decided: the persisted pair was adopted, or a fresh
/// root must be generated and written to both paths.
pub enum LoadPlan {
    Loaded(CertStore),
    CreateFresh,
}

impl CertStore {
    /// A store around an already-built root identity.
    pub fn new(
        pubkey: openssl::x509::X509,
        privkey: openssl::pkey::PKey<openssl::pkey::Private>,
    ) -> (r: CertStore)
        ensures
            r.pubkey == pubkey,
            r.privkey == privkey,
    {
        CertStore { privkey, pubkey }
    }

    /// Adopt a persisted root: both parts must parse — the certificate as
    /// PEM, the key as DER. If either does not, there is no store.
    pub fn try_load(cert_pem: &Vec<u8>, key_der: &Vec<u8>) -> (r: Option<CertStore>)
        requires
            cert_pem@.len() <= MAX_PEM_INPUT,
        ensures
            r is Some <==> (x509_pem_parses(cert_pem@) && pkey_der_parses(key_der@)),
    {
        match (parse_cert_pem(cert_pem), parse_key_der(key_der)) {
            (Some(pubkey), Some(privkey)) => Some(CertStore { privkey, pubkey }),
            _ => None,
        }
    }

    /// Whether a persisted pair is adopted: only when both files were
    /// readable, the certificate is small enough for the parser, and both
    /// parts parse. Nothing else goes into the decision, so starting twice
    /// over the same files adopts the same root both times.
    pub open spec fn adopts(cert_pem: Option<Seq<u8>>, key_der: Option<Seq<u8>>) -> bool {
        &&& cert_pem matches Some(c) && c.len() <= MAX_PEM_INPUT && x509_pem_parses(c)
        &&& key_der matches Some(k) && pkey_der_parses(k)
    }

    /// The loading decision over what the two configured paths yielded
    /// (`None` for a file that could not be read): adopt the persisted pair
    /// if both parts parse, else generate a fresh root and persist it to both
    /// paths — deleting or corrupting either file regenerates both. A
    /// certificate file too large for the parser counts as corrupt.
    pub fn load_plan(cert_pem: Option<Vec<u8>>, key_der: Option<Vec<u8>>) -> (r: LoadPlan)
        ensures
            r is Loaded <==> Self::adopts(
                match cert_pem {
                    Some(c) => Some(c@),
                    None => None,
                },
                match key_der {
                    Some(k) => Some(k@),
                    None => None,
                },
            ),
    {
        match (cert_pem, key_der) {
            (Some(c), Some(k)) => {
                if c.len() <= MAX_PEM_INPUT {
                    match CertStore::try_load(&c, &k) {
                        Some(store) => LoadPlan::Loaded(store),
                        None => LoadPlan::CreateFresh,
                    }
                } else {
                    LoadPlan::CreateFresh
                }
            },
            _ => LoadPlan::CreateFresh,
        }
    }

    /// The resolver handed to the TLS layer for one tunnel: it mints from
    /// this store, and falls back to the tunnel's CONNECT host when a client
    /// sends no SNI.
    pub fn build_cert(store: Arc<CertStore>, hostname: Option<String>) -> (r: CertResolver)
        ensures
            r.cert_store == store,
            r.fallback_host == hostname,
    {
        CertResolver { cert_store: store, fallback_host: hostname }
    }
}

/// Persistence: the adoption decision is a function of the two files' bytes
/// alone — the same bytes decide the same way on every start, and a missing
/// or corrupt part forces a fresh root.
pub proof fn lemma_load_deterministic(cert_pem: Option<Seq<u8>>, key_der: Option<Seq<u8>>)
    ensures
        CertStore::adopts(cert_pem, key_der) <==> (cert_pem matches Some(c) && c.len()
            <= MAX_PEM_INPUT && x509_pem_parses(c) && (key_der matches Some(k) && pkey_der_parses(
            k,
        ))),
        cert_pem is None ==> !CertStore::adopts(cert_pem, key_der),
        key_der is None ==> !CertStore::adopts(cert_pem, key_der),
{
}

/// The digest a certificate is signed with.
#[derive(Clone, Copy, PartialEq, Eq, Structural, Debug)]
pub enum SignatureDigest {
    Sha512,
}

/// Everything a leaf certificate is minted from, fixed by the negotiated
/// hostname: the subject's common name and both subject-alternative-name
/// entries — the URI and the DNS name — are that hostname; the serial is
/// drawn fresh with this many random bits; the certificate is an X.509 v3
/// (version field 2), valid for this many days from now, with a critical
/// serverAuth extended key usage, signed by the root key with this digest.
#[derive(Debug)]
pub struct LeafParams {
    pub common_name: String,
    pub san_uri: String,
    pub san_dns: String,
    pub validity_days: u32,
    pub serial_bits: i32,
    pub x509_version: i32,
    pub eku_server_auth: bool,
    pub eku_critical: bool,
    pub digest: SignatureDigest,
}

/// The leaf fixed for one hostname: named after it in the subject and in
/// both SAN entries, one year of validity, a fresh 128-bit serial, X.509 v3,
/// critical serverAuth EKU, SHA-512 signature.
pub open spec fn leaf_shape(p: LeafParams, host: Seq<char>) -> bool {
    &&& p.common_name@ == host
    &&& p.san_uri@ == host
    &&& p.san_dns@ == host
    &&& p.validity_days == 365
    &&& p.serial_bits == 128
    &&& p.x509_version == 2
    &&& p.eku_server_auth
    &&& p.eku_critical
    &&& p.digest == SignatureDigest::Sha512
}

/// The certificate resolver of one TLS termination: picks the hostname and
/// fixes the leaf to mint.
#[derive(Debug)]
pub struct CertResolver {
    pub cert_store: Arc<CertStore>,
    pub fallback_host: Option<String>,
}

impl CertResolver {
    /// The hostname choice and the leaf it fixes: the SNI the client sent
    /// when there is one, else the CONNECT target this resolver was built
    /// with; with neither, the handshake fails and nothing is minted. The
    /// minted leaf has the shape `leaf_shape` fixes for the chosen hostname.
    pub fn resolve(&self, sni: Option<String>) -> (r: Option<LeafParams>)
        ensures
            match sni {
                Some(s) => r matches Some(p) && leaf_shape(p, s@),
                None => match self.fallback_host {
                    Some(f) => r matches Some(p) && leaf_shape(p, f@),
                    None => r is None,
                },
            },
    {
        let hostname = match sni {
            Some(s) => Some(s),
            None => match &self.fallback_host {
                Some(f) => Some(f.clone()),
                None => None,
            },
        };
        match hostname {
            Some(h) => {
                let san_uri = h.clone();
                let san_dns = h.clone();
                Some(
                    LeafParams {
                        common_name: h,
                        san_uri,
                        san_dns,
                        validity_days: 365,
                        serial_bits: 128,
                        x509_version: 2,
                        eku_server_auth: true,
                        eku_critical: true,
                        digest: SignatureDigest::Sha512,
                    },
                )
            },
            None => None,
        }
    }
}

/// Everything the root identity is generated from on first start: a 2048-bit
/// RSA key and a self-signed X.509 v3 certificate with this subject, valid
/// for this many days; critical keyCertSign+digitalSignature key usage, a
/// serverAuth extended key usage, critical CA basic constraints; signed with
/// this digest.
#[derive(Debug)]
pub struct RootParams {
    pub common_name: String,
    pub organization: String,
    pub validity_days: u32,
    pub rsa_bits: u32,
    pub x509_version: i32,
    pub key_usage_critical: bool,
    pub key_usage_cert_sign: bool,
    pub key_usage_digital_signature: bool,
    pub eku_server_auth: bool,
    pub basic_constraints_critical: bool,
    pub basic_constraints_ca: bool,
    pub digest: SignatureDigest,
}

/// The fixed shape of a fresh root: CN `localhost`, O `proxy`, one year of
/// validity, 2048-bit RSA, X.509 v3 (version field 2), critical
/// keyCertSign+digitalSignature key usage, serverAuth EKU, critical CA basic
/// constraints, SHA-512 signature.
pub fn root_params() -> (r: RootParams)
    ensures
        r.common_name@ == "localhost"@,
        r.organization@ == "proxy"@,
        r.validity_days == 365,
        r.rsa_bits == 2048,
        r.x509_version == 2,
        r.key_usage_critical,
        r.key_usage_cert_sign,
        r.key_usage_digital_signature,
        r.eku_server_auth,
        r.basic_constraints_critical,
        r.basic_constraints_ca,
        r.digest == SignatureDigest::Sha512,
{
    RootParams {
        common_name: String::from_str("localhost"),
        organization: String::from_str("proxy"),
        validity_days: 365,
        rsa_bits: 2048,
        x509_version: 2,
        key_usage_critical: true,
        key_usage_cert_sign: true,
        key_usage_digital_signature: true,
        eku_server_auth: true,
        basic_constraints_critical: true,
        basic_constraints_ca: true,
        digest: SignatureDigest::Sha512,
    }
}

} // verus!
