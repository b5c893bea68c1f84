//! Leaf certificates for intercepted hosts: a fixed-capacity, most-recent-
//! first cache of TLS server configurations, each holding a leaf certificate
//! minted for one authority and signed by the configured CA. The chain
//! presented to clients is the leaf followed by the configured CA
//! certificate, so the root the user installed is what the client sees. A
//! lookup that misses mints a fresh leaf; one that hits returns the cached
//! entry, so two consecutive lookups of one authority yield bitwise-equal
//! leaf bytes.

use crate::authority::Authority;
use rustls_pki_types::pem::PemObject;
use vstd::prelude::*;
use vstd::string::StrSliceExecFns;
use vstd::string::StringExecFns;

verus! {

/// The number of leaf entries the cache keeps.
pub const MAX_CACHED_CERTIFICATES: usize = 1000;

#[verifier::external_type_specification]
#[verifier::external_body]
pub struct ExRcgenCertificate(rcgen::Certificate);

#[verifier::external_type_specification]
#[verifier::external_body]
pub struct ExRcgenKeyPair(rcgen::KeyPair);

#[verifier::external_type_specification]
#[verifier::external_body]
pub struct ExRcgenCertificateParams(rcgen::CertificateParams);

#[verifier::external_type_specification]
#[verifier::external_body]
pub struct ExRcgenError(rcgen::Error);

#[verifier::external_type_specification]
#[verifier::external_body]
pub struct ExRustlsServerConfig(rustls::ServerConfig);

/// Why minting a leaf certificate failed; any failure aborts the enclosing
/// CONNECT handler.
#[derive(Debug)]
pub enum CertMintError {
    InvalidCaCertificate,
    InvalidCaKey,
    Params,
    KeyGeneration,
    Signing,
    TlsConfig,
}

/// Whether the text holds a certificate in PEM form.
pub uninterp spec fn ca_cert_pem_ok(pem: Seq<char>) -> bool;

/// The DER bytes of the certificate held in the PEM text.
pub uninterp spec fn ca_cert_der_of(pem: Seq<char>) -> Seq<u8>;

/// Whether the text holds a private key in PEM form.
pub uninterp spec fn ca_key_ok(pem: Seq<char>) -> bool;

/// Whether leaf certificate parameters can be built for the host.
pub uninterp spec fn leaf_params_ok(host: Seq<char>) -> bool;

/// Relies on rustls_pki_types' PEM decoder and on
/// rcgen::CertificateParams::from_ca_cert_pem: the certificate's DER bytes
/// and the parameters rcgen reads from it (distinguished name, key usages,
/// key-identifier method); `None` exactly when either reading rejects the
/// text. Both readings are functions of the text alone.
#[verifier::external_body]
fn read_ca_cert_pem(pem: &str) -> (r: Option<(Vec<u8>, rcgen::CertificateParams)>)
    ensures
        (r is Some) == ca_cert_pem_ok(pem@),
        r matches Some(p) ==> p.0@ == ca_cert_der_of(pem@),
{
    let der = rustls_pki_types::CertificateDer::from_pem_slice(pem.as_bytes()).ok()?;
    let params = rcgen::CertificateParams::from_ca_cert_pem(pem).ok()?;
    Some((der.as_ref().to_vec(), params))
}

/// Relies on rcgen::KeyPair::from_pem: parses a private key from PEM;
/// whether the text parses is a function of the text alone.
#[verifier::external_body]
fn keypair_from_pem(pem: &str) -> (r: Result<rcgen::KeyPair, rcgen::Error>)
    ensures
        (r is Ok) == ca_key_ok(pem@),
{
    rcgen::KeyPair::from_pem(pem)
}

/// Relies on rcgen::CertificateParams::self_signed: the issuer object
/// signing reads, built from the configured certificate's parameters and
/// bound to the CA key. The certificate presented to clients is the
/// configured DER, not this object's.
#[verifier::external_body]
fn self_sign_issuer(params: rcgen::CertificateParams, key: &rcgen::KeyPair) -> Result<
    rcgen::Certificate,
    rcgen::Error,
> {
    params.self_signed(key)
}

/// Relies on rcgen::KeyPair::generate: a fresh key pair; nothing can be
/// promised of its value.
#[verifier::external_body]
fn keypair_generate() -> Result<rcgen::KeyPair, rcgen::Error> {
    rcgen::KeyPair::generate()
}

/// Relies on rcgen::KeyPair::serialize_der: the key in DER form.
#[verifier::external_body]
fn keypair_der(key: &rcgen::KeyPair) -> Vec<u8> {
    key.serialize_der()
}

/// Relies on rcgen::Certificate::der: the certificate in DER form.
#[verifier::external_body]
fn cert_der_bytes(cert: &rcgen::Certificate) -> Vec<u8> {
    cert.der().to_vec()
}

/// Relies on rcgen::CertificateParams: parameters for a leaf certificate with
/// the host as subject alternative name (as an IP address when it parses as
/// one, via the standard IP parser, else as a DNS name — and as an extra IP
/// entry beside it, as the crate's own parsing already classified the first),
/// the given common name, no CA bit, and the DigitalSignature and
/// KeyEncipherment key usages. Whether the parameters can be built depends on
/// the host text alone.
#[verifier::external_body]
fn leaf_params(host: &String, cn: &String) -> (r: Result<
    rcgen::CertificateParams,
    rcgen::Error,
>)
    ensures
        (r is Ok) == leaf_params_ok(host@),
{
    let mut params = rcgen::CertificateParams::new(vec![host.clone()])?;
    params.distinguished_name.push(rcgen::DnType::CommonName, cn.as_str());
    if let Ok(ip) = host.parse() {
        params.subject_alt_names.push(rcgen::SanType::IpAddress(ip));
    }
    params.key_usages = vec![
        rcgen::KeyUsagePurpose::DigitalSignature,
        rcgen::KeyUsagePurpose::KeyEncipherment,
    ];
    params.is_ca = rcgen::IsCa::NoCa;
    Ok(params)
}

/// Relies on rcgen::CertificateParams::signed_by: the leaf certificate for
/// these parameters and key, signed by the issuer certificate and key.
#[verifier::external_body]
fn sign_leaf(
    params: rcgen::CertificateParams,
    key: &rcgen::KeyPair,
    ca_cert: &std::sync::Arc<rcgen::Certificate>,
    ca_key: &std::sync::Arc<rcgen::KeyPair>,
) -> Result<rcgen::Certificate, rcgen::Error> {
    params.signed_by(key, ca_cert, ca_key)
}

/// Relies on rustls::ServerConfig's builder (ring provider, default protocol
/// versions, no client auth) with the chain leaf-then-CA and the leaf key.
#[verifier::external_body]
fn build_server_config(leaf_der: &Vec<u8>, ca_der: &Vec<u8>, key_der: Vec<u8>) -> Option<
    std::sync::Arc<rustls::ServerConfig>,
> {
    let certs = vec![
        rustls_pki_types::CertificateDer::from(leaf_der.clone()),
        rustls_pki_types::CertificateDer::from(ca_der.clone()),
    ];
    let key = rustls_pki_types::PrivateKeyDer::try_from(key_der).ok()?;
    let provider = std::sync::Arc::new(rustls::crypto::ring::default_provider());
    let builder = rustls::ServerConfig::builder_with_provider(provider)
        .with_safe_default_protocol_versions().ok()?;
    let config = builder.with_no_client_auth().with_single_cert(certs, key).ok()?;
    Some(std::sync::Arc::new(config))
}

/// Relies on std's Arc::clone: both handles refer to the same server
/// configuration.
#[verifier::external_body]
fn share_config(c: &std::sync::Arc<rustls::ServerConfig>) -> (r: std::sync::Arc<
    rustls::ServerConfig,
>)
    ensures
        r == *c,
{
    c.clone()
}

/// Relies on std's Arc::clone: both handles refer to the same certificate.
#[verifier::external_body]
fn share_rcgen_cert(c: &std::sync::Arc<rcgen::Certificate>) -> (r: std::sync::Arc<
    rcgen::Certificate,
>)
    ensures
        r == *c,
{
    c.clone()
}

/// Relies on std's Arc::clone: both handles refer to the same key pair.
#[verifier::external_body]
fn share_rcgen_key(k: &std::sync::Arc<rcgen::KeyPair>) -> (r: std::sync::Arc<rcgen::KeyPair>)
    ensures
        r == *k,
{
    k.clone()
}

fn clone_bytes(v: &Vec<u8>) -> (r: Vec<u8>)
    ensures
        r@ == v@,
{
    let r = v.clone();
    proof {
        assert(r@ =~= v@);
    }
    r
}

/// The common name of a leaf: the host itself, or a fixed stand-in when the
/// host is too long for the field.
pub fn common_name_for_host(host: &String) -> (r: String)
    ensures
        host@.len() > 64 ==> r@ == "privaxy_cn_too_long.local"@,
        host@.len() <= 64 ==> r@ == host@,
{
    if host.as_str().unicode_len() > 64 {
        String::from_str("privaxy_cn_too_long.local")
    } else {
        host.clone()
    }
}

/// The CA material minting needs: the issuer object that signing reads, the
/// CA key, and the configured CA certificate's DER bytes presented in every
/// chain. Duplicates refer to the same material, so a handle can leave the
/// cache's lock for the blocking pool.
pub struct CaHandle {
    ca_cert: std::sync::Arc<rcgen::Certificate>,
    ca_key: std::sync::Arc<rcgen::KeyPair>,
    ca_der: Vec<u8>,
}

impl CaHandle {
    /// The configured CA certificate's DER bytes.
    pub closed spec fn spec_ca_der(&self) -> Seq<u8> {
        self.ca_der@
    }

    pub fn duplicate(&self) -> (r: Self)
        ensures
            r.spec_ca_der() == self.spec_ca_der(),
    {
        CaHandle {
            ca_cert: share_rcgen_cert(&self.ca_cert),
            ca_key: share_rcgen_key(&self.ca_key),
            ca_der: clone_bytes(&self.ca_der),
        }
    }
}

/// One cached entry: the authority it was minted for, the leaf certificate's
/// DER bytes, and the assembled TLS server configuration (shared: concurrent
/// TLS acceptors may hold it).
pub struct SignedWithCaCert {
    pub authority: Authority,
    pub leaf_der: Vec<u8>,
    pub server_configuration: std::sync::Arc<rustls::ServerConfig>,
}

/// Two authorities naming the same host and port.
pub open spec fn authority_eq(a: Authority, b: Authority) -> bool {
    a.host@ == b.host@ && a.port == b.port
}

/// Two entries carrying the same authority, leaf bytes and configuration.
pub open spec fn entry_like(a: SignedWithCaCert, b: SignedWithCaCert) -> bool {
    &&& authority_eq(a.authority, b.authority)
    &&& a.leaf_der@ == b.leaf_der@
    &&& a.server_configuration == b.server_configuration
}

impl SignedWithCaCert {
    pub fn duplicate(&self) -> (r: Self)
        ensures
            entry_like(r, *self),
    {
        SignedWithCaCert {
            authority: self.authority.duplicate(),
            leaf_der: clone_bytes(&self.leaf_der),
            server_configuration: share_config(&self.server_configuration),
        }
    }

    /// Mints a leaf for the authority: fresh key, common name as
    /// `common_name_for_host` says, signed by the CA; the chain handed to
    /// clients is the leaf followed by the configured CA certificate.
    /// Building the parameters fails exactly when the host admits none; key
    /// generation and signing are CPU-bound, so callers run this off the
    /// async runtime and outside the cache's lock.
    pub fn new(authority: Authority, ca: &CaHandle) -> (r: Result<SignedWithCaCert, CertMintError>)
        ensures
            r matches Ok(c) ==> authority_eq(c.authority, authority),
            !leaf_params_ok(authority.host@) ==> r matches Err(CertMintError::Params),
            r matches Err(CertMintError::Params) ==> !leaf_params_ok(authority.host@),
    {
        let cn = common_name_for_host(&authority.host);
        let params = match leaf_params(&authority.host, &cn) {
            Ok(p) => p,
            Err(_) => {
                return Err(CertMintError::Params);
            },
        };
        let key = match keypair_generate() {
            Ok(k) => k,
            Err(_) => {
                return Err(CertMintError::KeyGeneration);
            },
        };
        let cert = match sign_leaf(params, &key, &ca.ca_cert, &ca.ca_key) {
            Ok(c) => c,
            Err(_) => {
                return Err(CertMintError::Signing);
            },
        };
        let leaf_der = cert_der_bytes(&cert);
        let key_der = keypair_der(&key);
        let config = match build_server_config(&leaf_der, &ca.ca_der, key_der) {
            Some(c) => c,
            None => {
                return Err(CertMintError::TlsConfig);
            },
        };
        Ok(SignedWithCaCert { authority, leaf_der, server_configuration: config })
    }
}

/// The position of the first cached entry for the authority, if any.
pub open spec fn spec_find_entry(entries: Seq<SignedWithCaCert>, a: Authority) -> Option<int>
    decreases entries.len(),
{
    if entries.len() == 0 {
        Option::None
    } else if authority_eq(entries[0].authority, a) {
        Option::Some(0int)
    } else {
        match spec_find_entry(entries.skip(1), a) {
            Option::Some(i) => Option::Some(i + 1),
            Option::None => Option::None,
        }
    }
}

proof fn lemma_find_entry_found(entries: Seq<SignedWithCaCert>, a: Authority, i: int)
    requires
        0 <= i < entries.len(),
        authority_eq(entries[i].authority, a),
        forall|j: int| 0 <= j < i ==> !authority_eq(entries[j].authority, a),
    ensures
        spec_find_entry(entries, a) == Option::Some(i),
    decreases i,
{
    if i > 0 {
        lemma_find_entry_found(entries.skip(1), a, i - 1);
    }
}

proof fn lemma_find_entry_missing(entries: Seq<SignedWithCaCert>, a: Authority)
    requires
        forall|j: int| 0 <= j < entries.len() ==> !authority_eq(entries[j].authority, a),
    ensures
        spec_find_entry(entries, a) is None,
    decreases entries.len(),
{
    if entries.len() > 0 {
        lemma_find_entry_missing(entries.skip(1), a);
    }
}

/// The leaf cache: entries most recently used first, beside the CA material
/// minting needs.
pub struct CertCache {
    cache: Vec<SignedWithCaCert>,
    ca: CaHandle,
}

impl CertCache {
    /// The cached entries, most recently used first.
    pub closed spec fn entries(&self) -> Seq<SignedWithCaCert> {
        self.cache@
    }

    /// The configured CA certificate's DER bytes, as presented in chains.
    pub closed spec fn spec_ca_der(&self) -> Seq<u8> {
        self.ca.spec_ca_der()
    }

    pub open spec fn wf(&self) -> bool {
        self.entries().len() <= MAX_CACHED_CERTIFICATES
    }

    /// Builds the cache from the configured CA's PEM material: the
    /// certificate is decoded (its DER goes into every served chain, so
    /// clients see the root the user installed) and the key is parsed; a
    /// text that holds no certificate or no key is rejected.
    pub fn new(ca_certificate_pem: &str, ca_private_key_pem: &str) -> (r: Result<
        CertCache,
        CertMintError,
    >)
        ensures
            !ca_cert_pem_ok(ca_certificate_pem@) ==> r matches Err(
                CertMintError::InvalidCaCertificate,
            ),
            ca_cert_pem_ok(ca_certificate_pem@) && !ca_key_ok(ca_private_key_pem@)
                ==> r matches Err(CertMintError::InvalidCaKey),
            r matches Err(CertMintError::InvalidCaCertificate) ==> !ca_cert_pem_ok(
                ca_certificate_pem@,
            ),
            r matches Err(CertMintError::InvalidCaKey) ==> !ca_key_ok(ca_private_key_pem@),
            r matches Ok(c) ==> {
                &&& c.entries().len() == 0
                &&& c.wf()
                &&& c.spec_ca_der() == ca_cert_der_of(ca_certificate_pem@)
            },
    {
        let (ca_der, ca_params) = match read_ca_cert_pem(ca_certificate_pem) {
            Some(p) => p,
            None => {
                return Err(CertMintError::InvalidCaCertificate);
            },
        };
        let ca_key = match keypair_from_pem(ca_private_key_pem) {
            Ok(k) => k,
            Err(_) => {
                return Err(CertMintError::InvalidCaKey);
            },
        };
        let ca_cert = match self_sign_issuer(ca_params, &ca_key) {
            Ok(c) => c,
            Err(_) => {
                return Err(CertMintError::Signing);
            },
        };
        Ok(
            CertCache {
                cache: Vec::new(),
                ca: CaHandle {
                    ca_cert: std::sync::Arc::new(ca_cert),
                    ca_key: std::sync::Arc::new(ca_key),
                    ca_der,
                },
            },
        )
    }

    /// A shared handle to the CA material, for minting outside the cache's
    /// lock.
    pub fn ca(&self) -> (r: CaHandle)
        ensures
            r.spec_ca_der() == self.spec_ca_der(),
    {
        self.ca.duplicate()
    }

    /// The cached entry for the authority, refreshed to most recent, if one
    /// is present; a miss leaves the cache unchanged.
    pub fn lookup(&mut self, authority: &Authority) -> (r: Option<SignedWithCaCert>)
        requires
            old(self).wf(),
        ensures
            final(self).wf(),
            final(self).spec_ca_der() == old(self).spec_ca_der(),
            (r is Some) == (spec_find_entry(old(self).entries(), *authority) is Some),
            r matches Some(c) ==> {
                &&& authority_eq(c.authority, *authority)
                &&& final(self).entries().len() > 0
                &&& entry_like(final(self).entries()[0], c)
                &&& spec_find_entry(final(self).entries(), *authority) == Option::Some(0int)
                &&& (spec_find_entry(old(self).entries(), *authority) matches Option::Some(i)
                    ==> entry_like(c, old(self).entries()[i]) && final(self).entries() =~= seq![
                    old(self).entries()[i],
                ] + old(self).entries().take(i) + old(self).entries().skip(i + 1))
            },
            r is None ==> final(self).entries() == old(self).entries(),
    {
        let ghost entries0 = self.cache@;
        let mut i: usize = 0;
        while i < self.cache.len()
            invariant
                0 <= i <= self.cache.len(),
                self.cache@ == entries0,
                self.ca == old(self).ca,
                forall|j: int| 0 <= j < i ==> !authority_eq(entries0[j].authority, *authority),
            decreases self.cache.len() - i,
        {
            if authorities_match(&self.cache[i].authority, authority) {
                proof {
                    lemma_find_entry_found(entries0, *authority, i as int);
                }
                let found = self.cache.remove(i);
                let result = found.duplicate();
                self.cache.insert(0, found);
                proof {
                    assert(self.cache@ =~= seq![entries0[i as int]] + entries0.take(i as int)
                        + entries0.skip(i + 1));
                    lemma_find_entry_found(self.cache@, *authority, 0);
                }
                return Some(result);
            }
            i = i + 1;
        }
        proof {
            lemma_find_entry_missing(entries0, *authority);
        }
        None
    }

    /// Puts a freshly minted entry at the front; beyond the capacity the
    /// least recently used entry falls out.
    pub fn insert(&mut self, entry: SignedWithCaCert)
        requires
            old(self).wf(),
        ensures
            final(self).wf(),
            final(self).spec_ca_der() == old(self).spec_ca_der(),
            final(self).entries().len() > 0,
            final(self).entries()[0] == entry,
            final(self).entries().skip(1) =~= old(self).entries().take(
                vstd::math::min(old(self).entries().len() as int, MAX_CACHED_CERTIFICATES - 1),
            ),
    {
        if self.cache.len() == MAX_CACHED_CERTIFICATES {
            self.cache.truncate(MAX_CACHED_CERTIFICATES - 1);
        }
        self.cache.insert(0, entry);
    }

    /// Returns the entry for the authority: the cached one when present — a
    /// hit always succeeds, so the second of two consecutive lookups hands
    /// back the same leaf bytes — else a freshly minted one. The returned
    /// entry stands at the front of the cache afterwards; on a miss at
    /// capacity the least recently used entry falls out; a mint failure
    /// leaves the cache unchanged.
    pub fn get(&mut self, authority: &Authority) -> (r: Result<SignedWithCaCert, CertMintError>)
        requires
            old(self).wf(),
        ensures
            final(self).wf(),
            final(self).spec_ca_der() == old(self).spec_ca_der(),
            spec_find_entry(old(self).entries(), *authority) is Some ==> r is Ok,
            r matches Ok(c) ==> {
                &&& authority_eq(c.authority, *authority)
                &&& final(self).entries().len() > 0
                &&& entry_like(final(self).entries()[0], c)
                &&& spec_find_entry(final(self).entries(), *authority) == Option::Some(0int)
                &&& (match spec_find_entry(old(self).entries(), *authority) {
                    Option::Some(i) => {
                        &&& entry_like(c, old(self).entries()[i])
                        &&& final(self).entries() =~= seq![old(self).entries()[i]] + old(
                            self,
                        ).entries().take(i) + old(self).entries().skip(i + 1)
                    },
                    Option::None => final(self).entries().skip(1) =~= old(self).entries().take(
                        vstd::math::min(
                            old(self).entries().len() as int,
                            MAX_CACHED_CERTIFICATES - 1,
                        ),
                    ),
                })
            },
            r is Err ==> final(self).entries() == old(self).entries(),
    {
        match self.lookup(authority) {
            Some(entry) => Ok(entry),
            None => {
                let minted = match SignedWithCaCert::new(authority.duplicate(), &self.ca) {
                    Ok(c) => c,
                    Err(e) => {
                        return Err(e);
                    },
                };
                let result = minted.duplicate();
                proof {
                    assert(authority_eq(result.authority, *authority));
                }
                self.insert(minted);
                proof {
                    lemma_find_entry_found(self.cache@, *authority, 0);
                }
                Ok(result)
            },
        }
    }
}

fn authorities_match(a: &Authority, b: &Authority) -> (r: bool)
    ensures
        r == authority_eq(*a, *b),
{
    let ports_match = match (a.port, b.port) {
        (Option::Some(x), Option::Some(y)) => x == y,
        (Option::None, Option::None) => true,
        _ => false,
    };
    ports_match && crate::text::str_eq(a.host.as_str(), b.host.as_str())
}

} // verus!
