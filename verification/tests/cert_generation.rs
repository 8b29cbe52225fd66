use where_is_teemo::certs::generate_ca;
use where_is_teemo::certs::generate_server_cert;

use x509_parser::certificate::X509Certificate;
use x509_parser::extensions::GeneralName;
use x509_parser::pem::parse_x509_pem;
use x509_parser::pem::Pem;

fn decode(pem_text: &str) -> Pem {
    let (_, pem) = parse_x509_pem(pem_text.as_bytes()).expect("PEM must decode");
    pem
}

fn common_name(cert: &X509Certificate) -> String {
    cert.subject()
        .iter_common_name()
        .next()
        .expect("a common name must be present")
        .as_str()
        .expect("the common name must be text")
        .to_string()
}

// A fresh CA comes back as PEM text for both certificate and key.
#[test]
fn ca_material_is_pem() {
    let ca = generate_ca().expect("CA generation must succeed");
    assert!(ca.cert_pem.contains("BEGIN CERTIFICATE"));
    assert!(ca.key_pem.contains("PRIVATE KEY"));
}

// A server leaf signed by a fresh CA comes back as PEM, with its own key.
#[test]
fn server_leaf_signed_by_ca() {
    let ca = generate_ca().expect("CA generation must succeed");
    let leaf = generate_server_cert(&ca).expect("leaf signing must succeed");
    assert!(leaf.cert_pem.contains("BEGIN CERTIFICATE"));
    assert!(leaf.key_pem.contains("PRIVATE KEY"));
    assert_ne!(leaf.cert_pem, ca.cert_pem);
    assert_ne!(leaf.key_pem, ca.key_pem);
}

// Key material is random: two CAs never agree.
#[test]
fn two_cas_differ() {
    let a = generate_ca().expect("CA generation must succeed");
    let b = generate_ca().expect("CA generation must succeed");
    assert_ne!(a.key_pem, b.key_pem);
}

// The CA really is a signing authority under the application's name: CA
// basic constraint, certificate-sign and CRL-sign key usages.
#[test]
fn ca_is_signing_authority() {
    let ca = generate_ca().expect("CA generation must succeed");
    let pem = decode(&ca.cert_pem);
    let cert = pem.parse_x509().expect("CA cert must parse");
    let bc = cert
        .basic_constraints()
        .expect("basic constraints must parse")
        .expect("basic constraints must be present");
    assert!(bc.value.ca);
    assert_eq!(bc.value.path_len_constraint, None);
    let ku = cert
        .key_usage()
        .expect("key usage must parse")
        .expect("key usage must be present");
    assert!(ku.value.key_cert_sign());
    assert!(ku.value.crl_sign());
    assert_eq!(common_name(&cert), "Where Is Teemo CA");
}

// The leaf's subject alternative names are exactly 127.0.0.1 (as an IP) and
// localhost (as a DNS name), it is a server-auth certificate, and it names
// the proxy.
#[test]
fn leaf_covers_exactly_the_proxy_names() {
    let ca = generate_ca().expect("CA generation must succeed");
    let leaf = generate_server_cert(&ca).expect("leaf signing must succeed");
    let pem = decode(&leaf.cert_pem);
    let cert = pem.parse_x509().expect("leaf cert must parse");
    let san = cert
        .subject_alternative_name()
        .expect("SAN must parse")
        .expect("SAN must be present");
    let mut names: Vec<String> = Vec::new();
    for gn in &san.value.general_names {
        match gn {
            GeneralName::DNSName(d) => names.push(format!("dns:{d}")),
            GeneralName::IPAddress(b) => names.push(format!("ip:{b:?}")),
            other => panic!("unexpected SAN entry {other:?}"),
        }
    }
    names.sort();
    assert_eq!(names, vec!["dns:localhost".to_string(), "ip:[127, 0, 0, 1]".to_string()]);
    let eku = cert
        .extended_key_usage()
        .expect("EKU must parse")
        .expect("EKU must be present");
    assert!(eku.value.server_auth);
    assert_eq!(common_name(&cert), "Where Is Teemo Proxy");
}

// A leaf cannot be signed by garbage CA material, and the error names the
// failing step.
#[test]
fn leaf_rejects_bad_ca() {
    let ca = where_is_teemo::certs::CaCert {
        cert_pem: "not a certificate".to_string(),
        key_pem: "not a key".to_string(),
    };
    let err = generate_server_cert(&ca).unwrap_err();
    assert!(err.starts_with("Failed to sign server cert: "), "got: {err}");
}
