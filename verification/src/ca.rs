//! One-shot creation of the self-signed root certificate authority whose key
//! signs every minted leaf. Called once per fresh install by the
//! configuration layer; a failure is fatal to startup.

use crate::cert::ca_cert_pem_ok;
use crate::cert::ca_key_ok;
use crate::cert::CertMintError;
use vstd::prelude::*;

verus! {

/// How long the root certificate is valid, in seconds: 3650 days.
pub const CA_VALIDITY_SECS: u64 = 3650 * 24 * 60 * 60;

/// Relies on rcgen::CertificateParams: a certificate description with the
/// given distinguished name (country, state, organization, common name), a
/// validity window starting now and ending `validity_secs` later, CA basic
/// constraints, and the CertSign, CrlSign and DigitalSignature key usages.
/// The bound on `validity_secs` keeps the window's end far inside what the
/// standard library's time type represents; adding beyond it panics.
#[verifier::external_body]
fn ca_params(
    country: &str,
    state: &str,
    org: &str,
    cn: &str,
    validity_secs: u64,
) -> rcgen::CertificateParams
    requires
        validity_secs <= CA_VALIDITY_SECS,
{
    let mut params = rcgen::CertificateParams::default();
    let now = std::time::SystemTime::now();
    params.not_before = now.into();
    params.not_after = (now + std::time::Duration::from_secs(validity_secs)).into();
    params.distinguished_name.push(rcgen::DnType::CountryName, country);
    params.distinguished_name.push(rcgen::DnType::StateOrProvinceName, state);
    params.distinguished_name.push(rcgen::DnType::OrganizationName, org);
    params.distinguished_name.push(rcgen::DnType::CommonName, cn);
    params.is_ca = rcgen::IsCa::Ca(rcgen::BasicConstraints::Unconstrained);
    params.key_usages = vec![
        rcgen::KeyUsagePurpose::KeyCertSign,
        rcgen::KeyUsagePurpose::CrlSign,
        rcgen::KeyUsagePurpose::DigitalSignature,
    ];
    params
}

/// Relies on rcgen: generates a fresh key pair and self-signs the
/// parameters; returns the certificate and the key, both PEM. Nothing can be
/// promised of the fresh key's bytes, but rcgen writes a standard
/// certificate PEM block and a PKCS#8 key PEM block, and both read back
/// through the same crates' parsers (the round-trip rcgen's own tests rely
/// on), so the pair satisfies the cache's decoding.
#[verifier::external_body]
fn self_sign_pem(params: rcgen::CertificateParams) -> (r: Result<(String, String), rcgen::Error>)
    ensures
        r matches Ok(p) ==> {
            &&& ca_cert_pem_ok(p.0@)
            &&& p.0@.len() > 0
            &&& ca_key_ok(p.1@)
            &&& p.1@.len() > 0
        },
{
    let key_pair = rcgen::KeyPair::generate()?;
    let cert = params.self_signed(&key_pair)?;
    Ok((cert.pem(), key_pair.serialize_pem()))
}

/// Generates the root CA: a self-signed certificate named Privaxy (C=US,
/// ST=CA), valid for 3650 days from now, returned with its private key as a
/// PEM pair. The pair decodes back: the certificate text holds a certificate
/// and the key text holds a key, so a cache built from it cannot be rejected
/// for its material.
pub fn make_ca_certificate() -> (r: Result<(String, String), CertMintError>)
    ensures
        r matches Ok(p) ==> {
            &&& ca_cert_pem_ok(p.0@)
            &&& p.0@.len() > 0
            &&& ca_key_ok(p.1@)
            &&& p.1@.len() > 0
        },
{
    let params = ca_params("US", "CA", "Privaxy", "Privaxy", CA_VALIDITY_SECS);
    match self_sign_pem(params) {
        Ok(pair) => Ok(pair),
        Err(_) => Err(CertMintError::Signing),
    }
}

} // verus!
