//! The forged TLS identity: a self-signed root the user installs once, and
//! a per-launch server leaf for `127.0.0.1`/`localhost` signed by it.
//! Certificate and key material is random by nature, so the rcgen calls are
//! trusted as producing some PEM pair or an error; everything decided around
//! them — names, subject alternatives, error reporting, persistence paths
//! and status — is verified. Reading and writing the PEM files is the
//! caller's part.

use vstd::prelude::*;

use crate::text::match_at;

verus! {

#[verifier::external_type_specification]
#[verifier::external_body]
pub struct ExRcgenError(rcgen::Error);

/// The subject alternative names carried by the certificate a PEM encodes,
/// each in the textual form it was requested under.
pub uninterp spec fn cert_san_names(cert_pem: Seq<char>) -> Set<Seq<char>>;

/// Whether the certificate a PEM encodes carries the server-auth extended
/// key usage.
pub uninterp spec fn cert_is_server_auth(cert_pem: Seq<char>) -> bool;

/// Whether the certificate a PEM encodes is a signing authority: the CA
/// basic constraint without a path-length limit, with certificate-sign and
/// CRL-sign key usages.
pub uninterp spec fn cert_is_signing_ca(cert_pem: Seq<char>) -> bool;

/// The common name of the certificate a PEM encodes.
pub uninterp spec fn cert_common_name(cert_pem: Seq<char>) -> Seq<char>;

/// The set of names a list of subject-alternative-name strings asks for.
pub open spec fn san_set(sans: Seq<String>) -> Set<Seq<char>> {
    Set::new(|n: Seq<char>| exists|i: int| 0 <= i < sans.len() && sans[i]@ == n)
}

/// The two names the forged leaf must cover.
pub open spec fn proxy_san_set() -> Set<Seq<char>> {
    Set::new(|n: Seq<char>| n == "127.0.0.1"@ || n == "localhost"@)
}

/// A certificate-authority certificate and its private key, as PEM text.
#[derive(Debug)]
pub struct CaCert {
    pub cert_pem: String,
    pub key_pem: String,
}

/// A server certificate and its private key, as PEM text.
#[derive(Debug)]
pub struct ServerCert {
    pub cert_pem: String,
    pub key_pem: String,
}

/// What the certificate setup looks like to the user.
#[derive(Debug, Clone)]
pub struct CertStatus {
    pub ca_generated: bool,
    pub server_generated: bool,
    pub ca_trusted: bool,
}

/// Relies on rcgen's CertificateParams, KeyPair::generate and self_signed:
/// the produced certificate self-signs with exactly the pushed common name,
/// the CA basic constraint without path-length limit, and the
/// certificate-sign and CRL-sign key usages; the key material is random, so
/// nothing further holds of the PEM text.
#[verifier::external_body]
fn rcgen_self_signed_ca(cn: &str, org: &str) -> (r: Result<(String, String), rcgen::Error>)
    ensures
        match r {
            Ok(p) => cert_is_signing_ca(p.0@) && cert_common_name(p.0@) == cn@,
            Err(_) => true,
        },
{
    let mut params = rcgen::CertificateParams::default();
    params.is_ca = rcgen::IsCa::Ca(rcgen::BasicConstraints::Unconstrained);
    params.distinguished_name.push(rcgen::DnType::CommonName, cn);
    params.distinguished_name.push(rcgen::DnType::OrganizationName, org);
    params.key_usages.push(rcgen::KeyUsagePurpose::KeyCertSign);
    params.key_usages.push(rcgen::KeyUsagePurpose::CrlSign);
    let key = rcgen::KeyPair::generate()?;
    let cert = params.self_signed(&key)?;
    Ok((cert.pem(), key.serialize_pem()))
}

/// Relies on rcgen's CertificateParams::new (which carries over exactly the
/// given names, sorting each into an IP or DNS subject alternative by its
/// textual form), KeyPair, Issuer::from_ca_cert_pem and signed_by: the
/// produced leaf holds exactly the requested subject alternative names, the
/// pushed common name, and the server-auth extended key usage; the key
/// material is random, so nothing further holds of the PEM text.
#[verifier::external_body]
fn rcgen_signed_leaf(sans: Vec<String>, cn: &str, ca_cert_pem: &str, ca_key_pem: &str) -> (r:
    Result<(String, String), rcgen::Error>)
    ensures
        match r {
            Ok(p) => cert_san_names(p.0@) == san_set(sans@) && cert_is_server_auth(p.0@)
                && cert_common_name(p.0@) == cn@,
            Err(_) => true,
        },
{
    let mut params = rcgen::CertificateParams::new(sans)?;
    params.distinguished_name.push(rcgen::DnType::CommonName, cn);
    params.extended_key_usages.push(rcgen::ExtendedKeyUsagePurpose::ServerAuth);
    let key = rcgen::KeyPair::generate()?;
    let ca_key = rcgen::KeyPair::from_pem(ca_key_pem)?;
    let issuer = rcgen::Issuer::from_ca_cert_pem(ca_cert_pem, ca_key)?;
    let cert = params.signed_by(&key, &issuer)?;
    Ok((cert.pem(), key.serialize_pem()))
}

/// Relies on the Display implementation of rcgen::Error.
#[verifier::external_body]
fn rcgen_error_text(e: &rcgen::Error) -> (r: String)
{
    e.to_string()
}

/// Generate a fresh certificate authority: on success a signing CA under
/// the application's name; on failure a readable message naming the step.
/// The key material is random, so the PEM text itself is pinned by nothing.
pub fn generate_ca() -> (r: Result<CaCert, String>)
    ensures
        match r {
            Ok(ca) => cert_is_signing_ca(ca.cert_pem@) && cert_common_name(ca.cert_pem@)
                == "Where Is Teemo CA"@,
            Err(e) => match_at(e@, "Failed to generate CA: "@, 0),
        },
{
    match rcgen_self_signed_ca("Where Is Teemo CA", "Where Is Teemo") {
        Ok(pair) => Ok(CaCert { cert_pem: pair.0, key_pem: pair.1 }),
        Err(e) => {
            let mut msg = String::from_str("Failed to generate CA: ");
            msg.append(rcgen_error_text(&e).as_str());
            proof {
                crate::text::lemma_match_at_intro(msg@, "Failed to generate CA: "@, 0);
            }
            Err(msg)
        },
    }
}

/// Generate a fresh server leaf signed by the CA: on success its subject
/// alternative names are exactly `127.0.0.1` and `localhost` and it carries
/// the server-auth key usage; on failure a readable message naming the
/// step. Regenerated on every launch so the signing material's exposure
/// stays short; the key material is random.
pub fn generate_server_cert(ca: &CaCert) -> (r: Result<ServerCert, String>)
    ensures
        match r {
            Ok(sc) => cert_san_names(sc.cert_pem@) == proxy_san_set() && cert_is_server_auth(
                sc.cert_pem@,
            ) && cert_common_name(sc.cert_pem@) == "Where Is Teemo Proxy"@,
            Err(e) => match_at(e@, "Failed to sign server cert: "@, 0),
        },
{
    let mut sans: Vec<String> = Vec::new();
    sans.push(String::from_str("127.0.0.1"));
    sans.push(String::from_str("localhost"));
    proof {
        assert(sans@[0]@ == "127.0.0.1"@);
        assert(sans@[1]@ == "localhost"@);
        assert forall|n: Seq<char>| proxy_san_set().contains(n) implies san_set(
            sans@,
        ).contains(n) by {
            if n == "127.0.0.1"@ {
                assert(sans@[0]@ == n);
            } else {
                assert(sans@[1]@ == n);
            }
        }
        assert forall|n: Seq<char>| san_set(sans@).contains(n) implies proxy_san_set().contains(
            n,
        ) by {}
        assert(san_set(sans@) =~= proxy_san_set());
    }
    match rcgen_signed_leaf(
        sans,
        "Where Is Teemo Proxy",
        ca.cert_pem.as_str(),
        ca.key_pem.as_str(),
    ) {
        Ok(pair) => Ok(ServerCert { cert_pem: pair.0, key_pem: pair.1 }),
        Err(e) => {
            let mut msg = String::from_str("Failed to sign server cert: ");
            msg.append(rcgen_error_text(&e).as_str());
            proof {
                crate::text::lemma_match_at_intro(msg@, "Failed to sign server cert: "@, 0);
            }
            Err(msg)
        },
    }
}

/// The certificate status shown to the user, from what the caller probed.
pub fn cert_status(ca_generated: bool, server_generated: bool, ca_trusted: bool) -> (r: CertStatus)
    ensures
        r.ca_generated == ca_generated,
        r.server_generated == server_generated,
        r.ca_trusted == ca_trusted,
{
    CertStatus { ca_generated, server_generated, ca_trusted }
}

/// The certificate directory under the application data directory.
pub fn certs_dir(app_data_dir: &str) -> (r: String)
    ensures
        r@ == app_data_dir@ + "/certs"@,
{
    let mut r = String::from_str(app_data_dir);
    r.append("/certs");
    r
}

/// The persistent CA certificate path under the data directory.
pub fn ca_cert_path(app_data_dir: &str) -> (r: String)
    ensures
        r@ == app_data_dir@ + "/certs/ca.pem"@,
{
    let mut r = String::from_str(app_data_dir);
    r.append("/certs/ca.pem");
    r
}

/// The persistent CA key path under the data directory.
pub fn ca_key_path(app_data_dir: &str) -> (r: String)
    ensures
        r@ == app_data_dir@ + "/certs/ca-key.pem"@,
{
    let mut r = String::from_str(app_data_dir);
    r.append("/certs/ca-key.pem");
    r
}

/// The per-launch server certificate path under the data directory.
pub fn server_cert_path(app_data_dir: &str) -> (r: String)
    ensures
        r@ == app_data_dir@ + "/certs/server.pem"@,
{
    let mut r = String::from_str(app_data_dir);
    r.append("/certs/server.pem");
    r
}

/// The per-launch server key path under the data directory.
pub fn server_key_path(app_data_dir: &str) -> (r: String)
    ensures
        r@ == app_data_dir@ + "/certs/server-key.pem"@,
{
    let mut r = String::from_str(app_data_dir);
    r.append("/certs/server-key.pem");
    r
}

} // verus!
