use std::path::PathBuf;
use std::sync::Arc;

use opensovd_zenoh::cli::TlsArgs;
use opensovd_zenoh::tls::{
    add_client_roots, chain_of, key_of, set_up_server, with_interruption, PemFile, TlsError,
};
use rustls::crypto::aws_lc_rs::default_provider;
use rustls::pki_types::pem::{Error, PemObject};
use rustls::pki_types::{CertificateDer, PrivateKeyDer};
use rustls::server::VerifierBuilderError;
use rustls::RootCertStore;

const SERVER_CERT: [&str; 7] = [
    "MIIBMDCB16ADAgECAgEBMAoGCCqGSM49BAMCMBQxEjAQBgNVBAMMCWxvY2FsaG9z",
    "dDAgFw0yNTAxMDEwMDAwMDBaGA8yMTI1MDEwMTAwMDAwMFowFDESMBAGA1UEAwwJ",
    "bG9jYWxob3N0MFkwEwYHKoZIzj0CAQYIKoZIzj0DAQcDQgAE8jufimepLjcJaONY",
    "j/xDorcmbmzqUEk9YeeGpHSFr+HNLWxzASyjA593hzTpZ6VRSGpQ6/ARN0V9LXWN",
    "SoE1XaMYMBYwFAYDVR0RBA0wC4IJbG9jYWxob3N0MAoGCCqGSM49BAMCA0gAMEUC",
    "IG3MSJAcgTlaqtEIyQ7f387HoDesOcaZthUvumGWbcblAiEA4t4l+vDoZEXLHkW0",
    "VzxyRog5VQms55boL3wIalCELi8=",
];

const SERVER_KEY: [&str; 3] = [
    "MIGHAgEAMBMGByqGSM49AgEGCCqGSM49AwEHBG0wawIBAQQgp0+RaRSGkKfXjyy5",
    "y7Vs0W2pjah/z13AtvWqnSNR+q2hRANCAATyO5+KZ6kuNwlo41iP/EOityZubOpQ",
    "ST1h54akdIWv4c0tbHMBLKMDn3eHNOlnpVFIalDr8BE3RX0tdY1KgTVd",
];

const CA_CERT: [&str; 7] = [
    "MIIBPDCB4qADAgECAgEBMAoGCCqGSM49BAMCMBIxEDAOBgNVBAMMB2NhLnRlc3Qw",
    "IBcNMjUwMTAxMDAwMDAwWhgPMjEyNTAxMDEwMDAwMDBaMBIxEDAOBgNVBAMMB2Nh",
    "LnRlc3QwWTATBgcqhkjOPQIBBggqhkjOPQMBBwNCAARIK2hbrP+mp52ng6skDog+",
    "aAbrWSkNB7AOPDrotP2ITGlW2e/i3Z/Pc5U+hFo/7ONW5vecTaXWFakwe3ytcmKG",
    "oycwJTASBgNVHREECzAJggdjYS50ZXN0MA8GA1UdEwEB/wQFMAMBAf8wCgYIKoZI",
    "zj0EAwIDSQAwRgIhANdqI0eQvEicH/a22e5U2d/4TgZcDWMTiknNcZ+Yc7WfAiEA",
    "3s0MHAE+4Grynzsn6yAiKt6V9lIOjRO0nxgCRBzLTFM=",
];

fn pem(label: &str, body: &[&str]) -> String {
    format!("-----BEGIN {label}-----\n{}\n-----END {label}-----\n", body.join("\n"))
}

fn server_cert() -> String {
    pem("CERTIFICATE", &SERVER_CERT)
}

fn ca_cert() -> String {
    pem("CERTIFICATE", &CA_CERT)
}

fn server_key() -> String {
    pem(&format!("{} KEY", "PRIVATE"), &SERVER_KEY)
}

fn file(text: &str) -> PemFile {
    PemFile::Opened { bytes: text.as_bytes().to_vec(), broken: None }
}

fn broken_file(text: &str) -> PemFile {
    PemFile::Opened { bytes: text.as_bytes().to_vec(), broken: Some(Error::SectionTooLarge) }
}

fn args(client_ca: &[&str]) -> TlsArgs {
    TlsArgs {
        cert: Some(PathBuf::from("server.crt")),
        key: Some(PathBuf::from("server.key")),
        client_ca: client_ca.iter().map(PathBuf::from).collect(),
    }
}

fn message(args: TlsArgs, files: Vec<PemFile>) -> String {
    args.build(files).unwrap_err().message()
}

#[test]
fn no_tls_without_certificate_and_key() {
    let args = TlsArgs { cert: None, key: None, client_ca: vec![PathBuf::from("ca.crt")] };
    assert!(args.files().is_empty());
    assert!(args.build(vec![]).unwrap().is_none());
}

#[test]
fn certificate_and_key_go_together() {
    let expected = "--tls-cert and --tls-key must both be provided";
    let only_cert = TlsArgs { cert: Some(PathBuf::from("c")), key: None, client_ca: vec![] };
    assert!(only_cert.files().is_empty());
    assert_eq!(message(only_cert, vec![]), expected);
    let only_key = TlsArgs { cert: None, key: Some(PathBuf::from("k")), client_ca: vec![] };
    assert_eq!(message(only_key, vec![]), expected);
}

#[test]
fn files_are_named_in_the_order_of_the_build() {
    let args = args(&["a.crt", "b.crt"]);
    let names: Vec<String> = args.files().iter().map(|p| p.display().to_string()).collect();
    assert_eq!(names, vec!["server.crt", "server.key", "a.crt", "b.crt"]);
}

#[test]
fn server_without_client_certificates() {
    let files = vec![file(&server_cert()), file(&server_key())];
    assert!(args(&[]).build(files).unwrap().is_some());
}

#[test]
fn server_with_client_certificates() {
    let both = format!("{}{}", ca_cert(), server_cert());
    let files = vec![file(&server_cert()), file(&server_key()), file(&ca_cert()), file(&both)];
    assert!(args(&["a.crt", "b.crt"]).build(files).unwrap().is_some());
}

#[test]
fn unreadable_files_are_reported() {
    let unopened = || PemFile::Unopened(Error::NoItemsFound);
    let text = message(args(&[]), vec![unopened(), file(&server_key())]);
    assert_eq!(text, "failed to read server.crt");
    let text = message(args(&[]), vec![file(&server_cert()), unopened()]);
    assert_eq!(text, "failed to read private key from server.key");
    let files = vec![file(&server_cert()), file(&server_key()), unopened()];
    assert_eq!(message(args(&["ca.crt"]), files), "failed to read ca.crt");
}

#[test]
fn broken_pem_is_reported() {
    let broken = "-----BEGIN CERTIFICATE-----\n!!!\n-----END CERTIFICATE-----\n";
    let text = message(args(&[]), vec![file(broken), file(&server_key())]);
    assert_eq!(text, "failed to parse server.crt");
    let files = vec![file(&server_cert()), file(&server_key()), file(broken)];
    assert_eq!(message(args(&["ca.crt"]), files), "failed to parse ca.crt");
    let text = message(args(&[]), vec![file(&server_cert()), file(&server_cert())]);
    assert_eq!(text, "failed to read private key from server.key");
}

#[test]
fn interrupted_reading_is_reported_after_what_was_read() {
    let files = vec![broken_file(&server_cert()), file(&server_key())];
    match args(&[]).build(files) {
        Err(TlsError::ParseFile { source: Error::SectionTooLarge, .. }) => {}
        _ => panic!("expected ParseFile"),
    }
    match args(&[]).build(vec![file(&server_cert()), broken_file("")]) {
        Err(TlsError::ReadPrivateKey { source: Error::SectionTooLarge, .. }) => {}
        _ => panic!("expected ReadPrivateKey"),
    }
    let files = vec![file(&server_cert()), broken_file(&server_key())];
    assert!(args(&[]).build(files).unwrap().is_some());
}

/// The source of the error that a build ends with.
fn source(args: TlsArgs, files: Vec<PemFile>) -> Error {
    match args.build(files) {
        Err(TlsError::ParseFile { source, .. }) => source,
        Err(TlsError::ReadPrivateKey { source, .. }) => source,
        _ => panic!("expected an error with a source"),
    }
}

#[test]
fn section_that_was_cut_is_explained_by_the_interruption() {
    let cut = &server_cert()[..120];
    let files = vec![file(cut), file(&server_key())];
    assert!(matches!(source(args(&[]), files), Error::MissingSectionEnd { .. }));
    let files = vec![broken_file(cut), file(&server_key())];
    assert!(matches!(source(args(&[]), files), Error::SectionTooLarge));
    let files = vec![file(&server_cert()), file(&server_key()), broken_file(cut)];
    assert!(matches!(source(args(&["ca.crt"]), files), Error::SectionTooLarge));
    let cut = &server_key()[..120];
    let files = vec![file(&server_cert()), broken_file(cut)];
    assert!(matches!(source(args(&[]), files), Error::SectionTooLarge));
}

#[test]
fn error_before_the_interruption_stays() {
    let broken = "-----BEGIN CERTIFICATE-----\n!!!\n-----END CERTIFICATE-----\n";
    let files = vec![broken_file(broken), file(&server_key())];
    assert!(matches!(source(args(&[]), files), Error::Base64Decode(_)));
    let files = vec![file(&server_cert()), broken_file(broken)];
    assert!(matches!(source(args(&[]), files), Error::Base64Decode(_)));
}

#[test]
fn line_that_was_cut_is_not_parsed() {
    let key = server_key();
    let whole = || file(key.trim_end());
    let files = vec![file(server_cert().trim_end()), whole()];
    assert!(args(&[]).build(files).unwrap().is_some());
    let files = vec![file(&server_cert()), broken_file(key.trim_end())];
    assert!(matches!(source(args(&[]), files), Error::SectionTooLarge));
    let start = "-----BEGIN CERT";
    let files = vec![file(start), file(&key)];
    assert!(matches!(source(args(&[]), files), Error::IllegalSectionStart { .. }));
    let files = vec![broken_file(start), file(&key)];
    assert!(matches!(source(args(&[]), files), Error::SectionTooLarge));
    let returns = key.replace('\n', "\r");
    let files = vec![file(&server_cert()), broken_file(&returns)];
    assert!(args(&[]).build(files).unwrap().is_some());
}

#[test]
fn interruption_stands_in_for_the_end_of_the_input() {
    let certificate = || Ok(CertificateDer::from(vec![1]));
    let unclosed = || Err(Error::MissingSectionEnd { end_marker: vec![2] });
    let sections = with_interruption(vec![certificate(), unclosed()], None);
    assert!(matches!(sections[1], Err(Error::MissingSectionEnd { .. })));
    assert_eq!(sections.len(), 2);
    let sections =
        with_interruption(vec![certificate(), unclosed()], Some(Error::SectionTooLarge));
    assert!(matches!(sections[0], Ok(_)));
    assert!(matches!(sections[1], Err(Error::SectionTooLarge)));
    assert_eq!(sections.len(), 2);
    let sections = with_interruption(vec![certificate()], Some(Error::SectionTooLarge));
    assert!(matches!(sections[1], Err(Error::SectionTooLarge)));
    assert_eq!(sections.len(), 2);
    let illegal = Err(Error::IllegalSectionStart { line: vec![3] });
    let sections = with_interruption(vec![illegal], Some(Error::SectionTooLarge));
    assert!(matches!(sections[0], Err(Error::IllegalSectionStart { .. })));
    assert_eq!(sections.len(), 2);
    assert_eq!(with_interruption(vec![], Some(Error::SectionTooLarge)).len(), 1);
}

#[test]
fn certificate_file_needs_a_certificate() {
    let text = message(args(&[]), vec![file(&server_key()), file(&server_key())]);
    assert_eq!(text, "no certificates found in server.crt");
}

#[test]
fn certificate_problems_come_before_key_problems() {
    let text = message(args(&[]), vec![file(""), file("")]);
    assert_eq!(text, "no certificates found in server.crt");
}

#[test]
fn client_ca_must_be_a_certificate() {
    let junk = pem("CERTIFICATE", &["AAAA"]);
    let files = vec![file(&server_cert()), file(&server_key()), file(&junk)];
    assert_eq!(message(args(&["ca.crt"]), files), "invalid CA cert in ca.crt");
}

#[test]
fn client_ca_files_need_a_root() {
    let files = vec![file(&server_cert()), file(&server_key()), file("")];
    let error = args(&["ca.crt"]).build(files).unwrap_err();
    assert_eq!(error.message(), "client cert verifier");
    match error {
        TlsError::ClientVerifier { source: VerifierBuilderError::NoRootAnchors } => {}
        _ => panic!("expected NoRootAnchors"),
    }
}

#[test]
fn key_must_match_the_certificate() {
    let text = message(args(&[]), vec![file(&ca_cert()), file(&server_key())]);
    assert_eq!(text, "rustls server config");
    let files = vec![file(&ca_cert()), file(&server_key()), file(&ca_cert())];
    assert_eq!(message(args(&["ca.crt"]), files), "rustls server config");
}

#[test]
fn protocol_error_has_its_text() {
    let error = TlsError::ProtocolVersions { source: rustls::Error::HandshakeNotComplete };
    assert_eq!(error.message(), "rustls protocol version setup");
}

#[test]
fn chain_takes_all_sections_or_the_first_error() {
    let certificate = |byte: u8| CertificateDer::from(vec![byte]);
    let path = || PathBuf::from("c");
    let chain = chain_of(path(), vec![Ok(certificate(1)), Ok(certificate(2))]).unwrap();
    assert_eq!(chain, vec![certificate(1), certificate(2)]);
    let sections = vec![Ok(certificate(1)), Err(Error::NoItemsFound), Err(Error::SectionTooLarge)];
    match chain_of(path(), sections) {
        Err(TlsError::ParseFile { source: Error::NoItemsFound, .. }) => {}
        _ => panic!("expected ParseFile"),
    }
    assert!(matches!(chain_of(path(), vec![]), Err(TlsError::NoCertificates { .. })));
}

#[test]
fn missing_key_is_explained_by_the_interruption() {
    let path = || PathBuf::from("k");
    match key_of(path(), Err(Error::NoItemsFound), Some(Error::SectionTooLarge)) {
        Err(TlsError::ReadPrivateKey { source: Error::SectionTooLarge, .. }) => {}
        _ => panic!("expected ReadPrivateKey"),
    }
    match key_of(path(), Err(Error::Base64Decode("x".into())), Some(Error::SectionTooLarge)) {
        Err(TlsError::ReadPrivateKey { source: Error::Base64Decode(_), .. }) => {}
        _ => panic!("expected ReadPrivateKey"),
    }
    match key_of(path(), Err(Error::NoItemsFound), None) {
        Err(TlsError::ReadPrivateKey { source: Error::NoItemsFound, .. }) => {}
        _ => panic!("expected ReadPrivateKey"),
    }
    let key = PrivateKeyDer::from_pem_slice(server_key().as_bytes()).unwrap();
    let found = key_of(path(), Ok(key.clone_key()), Some(Error::NoItemsFound)).unwrap();
    assert_eq!(found, key);
}

#[test]
fn client_roots_gather_up_to_the_first_error() {
    let mut store = RootCertStore::empty();
    let ca = CertificateDer::from_pem_slice(ca_cert().as_bytes()).unwrap();
    let path = || PathBuf::from("ca");
    add_client_roots(&mut store, path(), vec![Ok(ca.clone())]).unwrap();
    assert_eq!(store.len(), 1);
    let sections = vec![Ok(ca.clone()), Err(Error::NoItemsFound), Ok(ca)];
    assert!(add_client_roots(&mut store, path(), sections).is_err());
    assert_eq!(store.len(), 2);
}

/// Connects a client without a certificate, and gives the chain that the server presented.
fn connect(server: rustls::ServerConfig) -> Result<Vec<CertificateDer<'static>>, rustls::Error> {
    let mut roots = RootCertStore::empty();
    roots.add(CertificateDer::from_pem_slice(server_cert().as_bytes()).unwrap()).unwrap();
    let config = rustls::ClientConfig::builder_with_provider(Arc::new(default_provider()))
        .with_safe_default_protocol_versions()
        .unwrap()
        .with_root_certificates(roots)
        .with_no_client_auth();
    let name = "localhost".try_into().unwrap();
    let mut client = rustls::ClientConnection::new(Arc::new(config), name).unwrap();
    let mut server = rustls::ServerConnection::new(Arc::new(server)).unwrap();
    for _ in 0..4 {
        let mut wire = Vec::new();
        client.write_tls(&mut wire).unwrap();
        server.read_tls(&mut wire.as_slice()).unwrap();
        server.process_new_packets()?;
        let mut wire = Vec::new();
        server.write_tls(&mut wire).unwrap();
        client.read_tls(&mut wire.as_slice()).unwrap();
        client.process_new_packets()?;
    }
    assert!(!client.is_handshaking() && !server.is_handshaking());
    Ok(client.peer_certificates().unwrap().iter().map(|c| c.clone().into_owned()).collect())
}

#[test]
fn open_server_presents_the_chain_to_any_client() {
    let files = vec![file(&server_cert()), file(&server_key())];
    let server = args(&[]).build(files).unwrap().unwrap();
    let expected = CertificateDer::from_pem_slice(server_cert().as_bytes()).unwrap();
    assert_eq!(connect(server).unwrap(), vec![expected]);
}

#[test]
fn closed_server_turns_clients_without_certificate_away() {
    let files = vec![file(&server_cert()), file(&server_key()), file(&ca_cert())];
    let server = args(&["ca.crt"]).build(files).unwrap().unwrap();
    assert!(matches!(connect(server), Err(rustls::Error::NoCertificatesPresented)));
}

#[test]
fn server_is_set_up_from_chain_and_key() {
    let chain: Vec<CertificateDer> =
        CertificateDer::pem_slice_iter(server_cert().as_bytes()).map(|c| c.unwrap()).collect();
    let key = PrivateKeyDer::from_pem_slice(server_key().as_bytes()).unwrap();
    assert!(set_up_server(chain, key, vec![], vec![]).is_ok());
}
