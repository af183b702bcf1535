//! The TLS configuration of the server, made out of the certificate and key files.

use std::path::PathBuf;
use std::sync::Arc;

use rustls::pki_types::{pem, CertificateDer, PrivateKeyDer, TrustAnchor};
use rustls::server::VerifierBuilderError;
use rustls::{RootCertStore, ServerConfig};
use vstd::prelude::*;

use crate::cli::TlsArgs;

verus! {

/// `rustls::ServerConfig`. What it was set up to do is `serving`.
#[verifier::external_type_specification]
#[verifier::external_body]
pub struct ExServerConfig(rustls::ServerConfig);

/// `rustls::Error`, carried as it is.
#[verifier::external_type_specification]
#[verifier::external_body]
pub struct ExError(rustls::Error);

/// The PEM error of `rustls::pki_types`, carried as it is.
#[verifier::external_type_specification]
#[verifier::external_body]
pub struct ExPemError(rustls::pki_types::pem::Error);

/// `rustls::server::VerifierBuilderError`, carried as it is.
#[verifier::external_type_specification]
#[verifier::external_body]
pub struct ExVerifierBuilderError(rustls::server::VerifierBuilderError);

/// `rustls::pki_types::CertificateDer`, a certificate in DER, carried as it is.
#[verifier::external_type_specification]
#[verifier::external_body]
pub struct ExCertificateDer<'a>(rustls::pki_types::CertificateDer<'a>);

/// `rustls::pki_types::PrivateKeyDer`, a private key in DER, carried as it is.
#[verifier::external_type_specification]
#[verifier::external_body]
pub struct ExPrivateKeyDer<'a>(rustls::pki_types::PrivateKeyDer<'a>);

/// `rustls::pki_types::TrustAnchor`, a root to check certificates against, carried as it is.
#[verifier::external_type_specification]
#[verifier::external_body]
pub struct ExTrustAnchor<'a>(rustls::pki_types::TrustAnchor<'a>);

/// `rustls::RootCertStore`, a list of trust anchors. Its contents are `anchors`.
#[verifier::external_type_specification]
#[verifier::external_body]
pub struct ExRootCertStore(rustls::RootCertStore);

/// A certificate section of a PEM file, or the error that stands in its place.
pub type PemCertificate = Result<CertificateDer<'static>, pem::Error>;

/// What a PEM error complains about.
#[derive(Debug, Clone, Copy, PartialEq, Eq, Structural)]
pub enum PemFault {
    /// A section is not closed.
    MissingSectionEnd,
    /// There is nothing of the kind that was looked for.
    NoItemsFound,
    /// Anything else.
    Other,
}

/// What came of reading a PEM file.
#[derive(Debug)]
pub enum PemFile {
    /// The file could not be opened.
    Unopened(pem::Error),
    /// The bytes that were read, and the error that cut the reading short, where one did.
    Opened { bytes: Vec<u8>, broken: Option<pem::Error> },
}

/// Why there is no TLS configuration.
#[allow(inconsistent_fields)]
#[derive(Debug)]
pub enum TlsError {
    /// Only one of certificate and key was given.
    CertAndKeyRequired,
    /// A certificate file could not be opened.
    ReadFile { path: PathBuf, source: pem::Error },
    /// A certificate file is no proper PEM.
    ParseFile { path: PathBuf, source: pem::Error },
    /// The certificate file holds no certificate.
    NoCertificates { path: PathBuf },
    /// There is no private key to be had from the key file.
    ReadPrivateKey { path: PathBuf, source: pem::Error },
    /// The cryptography does not cover the protocol versions.
    ProtocolVersions { source: rustls::Error },
    /// A client CA file holds something that cannot be trusted as a CA.
    InvalidClientCa { path: PathBuf, source: rustls::Error },
    /// The client CA files do not make a verifier.
    ClientVerifier { source: VerifierBuilderError },
    /// Certificate and key do not make a server.
    ServerSetup { source: rustls::Error },
}

/// What a server configuration does: the roots that client certificates must lead to (`None` where
/// clients need no certificate), the chain it presents, and the key for it.
pub ghost struct Serving {
    pub client_roots: Option<Seq<TrustAnchor<'static>>>,
    pub chain: Seq<CertificateDer<'static>>,
    pub key: PrivateKeyDer<'static>,
}

/// Why a verifier for client certificates cannot be built.
pub ghost enum VerifierFault {
    /// There is no root to check certificates against.
    NoRootAnchors,
    /// Anything else.
    Other,
}

/// What a `rustls::ServerConfig` was set up to do.
pub uninterp spec fn serving(config: ServerConfig) -> Serving;

/// The trust anchors in a `rustls::RootCertStore`.
pub uninterp spec fn anchors(store: RootCertStore) -> Seq<TrustAnchor<'static>>;

/// The trust anchor that `RootCertStore::add` makes of a certificate, or its error.
pub uninterp spec fn trust_anchor(certificate: CertificateDer<'static>) -> Result<
    TrustAnchor<'static>,
    rustls::Error,
>;

/// The certificate sections that `CertificateDer::pem_reader_iter` finds in PEM bytes.
pub uninterp spec fn pem_certificates(bytes: Seq<u8>) -> Seq<PemCertificate>;

/// The variant of a PEM error.
pub uninterp spec fn pem_fault(error: pem::Error) -> PemFault;

/// The first private key that `PrivateKeyDer::from_pem_reader` finds in PEM bytes, or its error.
pub uninterp spec fn pem_private_key(bytes: Seq<u8>) -> Result<PrivateKeyDer<'static>, pem::Error>;

/// The error of `with_single_cert` for a chain and a key, where it gives one.
pub uninterp spec fn single_cert_error(
    chain: Seq<CertificateDer<'static>>,
    key: PrivateKeyDer<'static>,
) -> Option<rustls::Error>;

/// The error of `ClientCertVerifierBuilder::build` for roots that it refuses.
pub uninterp spec fn roots_refusal(roots: Seq<TrustAnchor<'static>>) -> VerifierBuilderError;

/// The variant of a `VerifierBuilderError`.
pub uninterp spec fn verifier_fault(error: VerifierBuilderError) -> VerifierFault;

/// The text that `Path::display` shows for a path.
pub uninterp spec fn path_text(path: PathBuf) -> Seq<char>;

/// `CertificateDer::pem_reader_iter`, run to its end: the certificate sections in order, each as a
/// certificate or as an error. Claimed is only that they depend on the bytes alone.
#[verifier::external_body]
fn certificate_sections(bytes: &[u8]) -> (result: Vec<PemCertificate>)
    ensures
        result@ == pem_certificates(bytes@),
{
    rustls::pki_types::pem::PemObject::pem_reader_iter(bytes).collect()
}

/// `PrivateKeyDer::from_pem_reader`: the first private key section. Claimed is only that the
/// outcome depends on the bytes alone.
#[verifier::external_body]
fn private_key_section(bytes: &[u8]) -> (result: Result<PrivateKeyDer<'static>, pem::Error>)
    ensures
        result == pem_private_key(bytes@),
{
    rustls::pki_types::pem::PemObject::from_pem_reader(bytes)
}

/// The variants of the PEM error, told apart without their fields.
#[verifier::external_body]
fn fault_of(error: &pem::Error) -> (result: PemFault)
    ensures
        result == pem_fault(*error),
{
    match error {
        pem::Error::MissingSectionEnd { .. } => PemFault::MissingSectionEnd,
        pem::Error::NoItemsFound => PemFault::NoItemsFound,
        _ => PemFault::Other,
    }
}

/// `RootCertStore::empty`: a store without anchors.
#[verifier::external_body]
fn empty_roots() -> (result: RootCertStore)
    ensures
        anchors(result) =~= Seq::empty(),
{
    RootCertStore::empty()
}

/// `RootCertStore::add`: appends the trust anchor of the certificate, or gives the error and
/// leaves the store as it is.
#[verifier::external_body]
fn add_root(store: &mut RootCertStore, certificate: CertificateDer<'static>) -> (result: Result<
    (),
    rustls::Error,
>)
    ensures
        match result {
            Ok(_) => trust_anchor(certificate) matches Ok(anchor) && anchors(*final(store))
                == anchors(*old(store)).push(anchor),
            Err(error) => trust_anchor(certificate) == Err::<TrustAnchor, rustls::Error>(error)
                && anchors(*final(store)) == anchors(*old(store)),
        },
{
    store.add(certificate)
}

/// `with_safe_default_protocol_versions` on a server builder with `aws_lc_rs::default_provider`:
/// the cipher suites and key exchange groups of that provider serve the default protocol versions,
/// so it does not fail.
#[verifier::external_body]
fn protocol_check() -> (result: Result<(), rustls::Error>)
    ensures
        result is Ok,
{
    ServerConfig::builder_with_provider(Arc::new(rustls::crypto::aws_lc_rs::default_provider()))
        .with_safe_default_protocol_versions()?;
    Ok(())
}

/// On that builder, `with_no_client_auth` and `with_single_cert`: a server that presents the chain
/// and asks clients for nothing, or the error for chain and key.
#[verifier::external_body]
fn open_server(chain: Vec<CertificateDer<'static>>, key: PrivateKeyDer<'static>) -> (result: Result<
    ServerConfig,
    rustls::Error,
>)
    ensures
        match result {
            Ok(config) => single_cert_error(chain@, key) is None && serving(config) == (Serving {
                client_roots: None,
                chain: chain@,
                key,
            }),
            Err(error) => single_cert_error(chain@, key) == Some(error),
        },
{
    ServerConfig::builder_with_provider(Arc::new(rustls::crypto::aws_lc_rs::default_provider()))
        .with_safe_default_protocol_versions()?
        .with_no_client_auth()
        .with_single_cert(chain, key)
}

/// `WebPkiClientVerifier::builder_with_provider` and its `build`, which refuses a store without
/// anchors, with `NoRootAnchors`, and no other; then, on the same builder as for an open server,
/// `with_client_cert_verifier` and `with_single_cert`: a server that presents the chain and takes
/// clients with a certificate under the roots, or the error for chain and key.
#[verifier::external_body]
fn closed_server(
    roots: RootCertStore,
    chain: Vec<CertificateDer<'static>>,
    key: PrivateKeyDer<'static>,
) -> (result: Result<Result<ServerConfig, rustls::Error>, VerifierBuilderError>)
    ensures
        match result {
            Ok(Ok(config)) => anchors(roots).len() > 0 && single_cert_error(chain@, key) is None
                && serving(config) == (Serving {
                client_roots: Some(anchors(roots)),
                chain: chain@,
                key,
            }),
            Ok(Err(error)) => anchors(roots).len() > 0 && single_cert_error(chain@, key) == Some(
                error,
            ),
            Err(error) => anchors(roots).len() == 0 && error == roots_refusal(anchors(roots))
                && verifier_fault(error) == VerifierFault::NoRootAnchors,
        },
{
    let provider = Arc::new(rustls::crypto::aws_lc_rs::default_provider());
    let builder = ServerConfig::builder_with_provider(Arc::clone(&provider));
    let checks = rustls::server::WebPkiClientVerifier::builder_with_provider(
        Arc::new(roots),
        provider,
    ).build()?;
    Ok(match builder.with_safe_default_protocol_versions() {
        Ok(ready) => ready.with_client_cert_verifier(checks).with_single_cert(chain, key),
        Err(error) => Err(error),
    })
}

/// `Path::display`, as a string. Claimed is only that the text depends on the path alone.
#[verifier::external_body]
fn show_path(path: &PathBuf) -> (result: String)
    ensures
        result@ == path_text(*path),
{
    path.display().to_string()
}

/// Whether the parser gave the error because it came to the end of its input.
pub open spec fn at_end_of_input(error: pem::Error) -> bool {
    pem_fault(error) == PemFault::MissingSectionEnd || pem_fault(error) == PemFault::NoItemsFound
}

/// The bytes up to the end of the last complete line.
pub open spec fn whole_lines(bytes: Seq<u8>) -> Seq<u8>
    decreases bytes.len(),
{
    if bytes.len() == 0 || bytes.last() == 10 || bytes.last() == 13 {
        bytes
    } else {
        whole_lines(bytes.drop_last())
    }
}

/// The bytes that the parser gets to see of a file: all of them, or the complete lines where an
/// error cut the reading short.
pub open spec fn parsed_part(bytes: Seq<u8>, broken: Option<pem::Error>) -> Seq<u8> {
    match broken {
        Some(_) => whole_lines(bytes),
        None => bytes,
    }
}

/// The sections of a file, given those in the part that was parsed. Where an error cut the reading
/// short, it stands at the end, in place of a complaint about the end of the input.
pub open spec fn cut_short(sections: Seq<PemCertificate>, broken: Option<pem::Error>) -> Seq<
    PemCertificate,
> {
    match broken {
        Some(error) => {
            let ends_too_early = sections.len() > 0 && match sections.last() {
                Ok(_) => false,
                Err(last) => at_end_of_input(last),
            };
            if ends_too_early {
                sections.drop_last().push(Err(error))
            } else {
                sections.push(Err(error))
            }
        },
        None => sections,
    }
}

/// The sections of a file that was opened.
pub open spec fn sections_of(bytes: Seq<u8>, broken: Option<pem::Error>) -> Seq<PemCertificate> {
    cut_short(pem_certificates(parsed_part(bytes, broken)), broken)
}

/// All certificates, or the first error among the sections.
pub open spec fn collected(sections: Seq<PemCertificate>) -> Result<
    Seq<CertificateDer<'static>>,
    pem::Error,
>
    decreases sections.len(),
{
    if sections.len() == 0 {
        Ok(Seq::empty())
    } else {
        match (collected(sections.drop_last()), sections.last()) {
            (Ok(before), Ok(certificate)) => Ok(before.push(certificate)),
            (Ok(_), Err(error)) => Err(error),
            (Err(error), _) => Err(error),
        }
    }
}

/// The server's chain out of the sections of the certificate file: at least one certificate.
pub open spec fn chain_in(path: PathBuf, sections: Seq<PemCertificate>) -> Result<
    Seq<CertificateDer<'static>>,
    TlsError,
> {
    match collected(sections) {
        Ok(chain) => if chain.len() == 0 {
            Err(TlsError::NoCertificates { path })
        } else {
            Ok(chain)
        },
        Err(source) => Err(TlsError::ParseFile { path, source }),
    }
}

/// The server's chain out of the certificate file.
pub open spec fn chain_from(path: PathBuf, file: PemFile) -> Result<
    Seq<CertificateDer<'static>>,
    TlsError,
> {
    match file {
        PemFile::Unopened(source) => Err(TlsError::ReadFile { path, source }),
        PemFile::Opened { bytes, broken } => chain_in(path, sections_of(bytes@, broken)),
    }
}

/// The server's key, given the first private key section of the key file and the error that cut
/// the reading short, which stands in place of a complaint about the end of the input.
pub open spec fn key_in(
    path: PathBuf,
    found: Result<PrivateKeyDer<'static>, pem::Error>,
    broken: Option<pem::Error>,
) -> Result<PrivateKeyDer<'static>, TlsError> {
    match (found, broken) {
        (Ok(key), _) => Ok(key),
        (Err(error), Some(cut)) => Err(
            TlsError::ReadPrivateKey {
                path,
                source: if at_end_of_input(error) {
                    cut
                } else {
                    error
                },
            },
        ),
        (Err(source), None) => Err(TlsError::ReadPrivateKey { path, source }),
    }
}

/// The server's key out of the key file.
pub open spec fn key_from(path: PathBuf, file: PemFile) -> Result<PrivateKeyDer<'static>, TlsError> {
    match file {
        PemFile::Unopened(source) => Err(TlsError::ReadPrivateKey { path, source }),
        PemFile::Opened { bytes, broken } => key_in(
            path,
            pem_private_key(parsed_part(bytes@, broken)),
            broken,
        ),
    }
}

/// `roots` and the trust anchors of a client CA file, or the first error in it.
pub open spec fn roots_with(
    roots: Seq<TrustAnchor<'static>>,
    path: PathBuf,
    sections: Seq<PemCertificate>,
) -> Result<Seq<TrustAnchor<'static>>, TlsError>
    decreases sections.len(),
{
    if sections.len() == 0 {
        Ok(roots)
    } else {
        match roots_with(roots, path, sections.drop_last()) {
            Ok(before) => match sections.last() {
                Ok(certificate) => match trust_anchor(certificate) {
                    Ok(anchor) => Ok(before.push(anchor)),
                    Err(source) => Err(TlsError::InvalidClientCa { path, source }),
                },
                Err(source) => Err(TlsError::ParseFile { path, source }),
            },
            Err(error) => Err(error),
        }
    }
}

/// The trust anchors of all client CA files, or the first error in them.
pub open spec fn roots_from(paths: Seq<PathBuf>, files: Seq<PemFile>) -> Result<
    Seq<TrustAnchor<'static>>,
    TlsError,
>
    decreases paths.len(),
{
    if paths.len() == 0 {
        Ok(Seq::empty())
    } else {
        let path = paths.last();
        match roots_from(paths.drop_last(), files.drop_last()) {
            Ok(before) => match files.last() {
                PemFile::Unopened(source) => Err(TlsError::ReadFile { path, source }),
                PemFile::Opened { bytes, broken } => roots_with(
                    before,
                    path,
                    sections_of(bytes@, broken),
                ),
            },
            Err(error) => Err(error),
        }
    }
}

/// The server for a chain, a key and the client CA files: with none of them clients need no
/// certificate.
pub open spec fn server_for(
    chain: Seq<CertificateDer<'static>>,
    key: PrivateKeyDer<'static>,
    paths: Seq<PathBuf>,
    files: Seq<PemFile>,
) -> Result<Serving, TlsError> {
    let client_roots = if paths.len() == 0 {
        Ok(None)
    } else {
        match roots_from(paths, files) {
            Ok(roots) => if roots.len() == 0 {
                Err(TlsError::ClientVerifier { source: roots_refusal(roots) })
            } else {
                Ok(Some(roots))
            },
            Err(error) => Err(error),
        }
    };
    match (client_roots, single_cert_error(chain, key)) {
        (Err(error), _) => Err(error),
        (Ok(_), Some(source)) => Err(TlsError::ServerSetup { source }),
        (Ok(client_roots), None) => Ok(Serving { client_roots, chain, key }),
    }
}

impl TlsArgs {
    /// The files that the configuration is made of: none without both certificate and key, else
    /// the certificate file, the key file and the client CA files.
    pub open spec fn wanted_files(self) -> Seq<PathBuf> {
        match (self.cert, self.key) {
            (Some(cert), Some(key)) => seq![cert, key] + self.client_ca@,
            _ => Seq::empty(),
        }
    }

    /// The server that the options and the files that they name ask for.
    pub open spec fn server(self, files: Seq<PemFile>) -> Result<Option<Serving>, TlsError> {
        match (self.cert, self.key) {
            (None, None) => Ok(None),
            (Some(cert), Some(key)) => match (chain_from(cert, files[0]), key_from(key, files[1])) {
                (Ok(chain), Ok(key)) => match server_for(
                    chain,
                    key,
                    self.client_ca@,
                    files.skip(2),
                ) {
                    Ok(serving) => Ok(Some(serving)),
                    Err(error) => Err(error),
                },
                (Err(error), _) => Err(error),
                (Ok(_), Err(error)) => Err(error),
            },
            _ => Err(TlsError::CertAndKeyRequired),
        }
    }
}

/// How a build ended, with what the configuration does in its place.
pub open spec fn outcome(result: Result<Option<ServerConfig>, TlsError>) -> Result<
    Option<Serving>,
    TlsError,
> {
    match result {
        Ok(Some(config)) => Ok(Some(serving(config))),
        Ok(None) => Ok(None),
        Err(error) => Err(error),
    }
}

/// Tells whether the parser gave the error because it came to the end of its input.
fn is_at_end_of_input(error: &pem::Error) -> (result: bool)
    ensures
        result == at_end_of_input(*error),
{
    let fault = fault_of(error);
    fault == PemFault::MissingSectionEnd || fault == PemFault::NoItemsFound
}

/// Takes the bytes that the parser gets to see.
fn part_to_parse(bytes: Vec<u8>, broken: &Option<pem::Error>) -> (result: Vec<u8>)
    ensures
        result@ == parsed_part(bytes@, *broken),
{
    let mut part = bytes;
    if broken.is_some() {
        while part.len() > 0 && part[part.len() - 1] != 10 && part[part.len() - 1] != 13
            invariant
                whole_lines(part@) == whole_lines(bytes@),
            decreases part.len(),
        {
            let ghost before = part@;
            part.pop();
            assert(part@ == before.drop_last());
        }
    }
    part
}

/// Puts the error that cut the reading short behind the sections that were parsed.
pub fn with_interruption(sections: Vec<PemCertificate>, broken: Option<pem::Error>) -> (result: Vec<
    PemCertificate,
>)
    ensures
        result@ == cut_short(sections@, broken),
{
    let mut result = sections;
    if let Some(error) = broken {
        let ends_too_early = result.len() > 0 && match &result[result.len() - 1] {
            Ok(_) => false,
            Err(last) => is_at_end_of_input(last),
        };
        if ends_too_early {
            result.pop();
        }
        result.push(Err(error));
    }
    result
}

/// The sections of a file that was opened.
fn read_sections(bytes: Vec<u8>, broken: Option<pem::Error>) -> (result: Vec<PemCertificate>)
    ensures
        result@ == sections_of(bytes@, broken),
{
    let part = part_to_parse(bytes, &broken);
    with_interruption(certificate_sections(part.as_slice()), broken)
}

/// Takes the server's chain out of the sections of the certificate file at `path`.
pub fn chain_of(path: PathBuf, sections: Vec<PemCertificate>) -> (result: Result<
    Vec<CertificateDer<'static>>,
    TlsError,
>)
    ensures
        chain_in(path, sections@) == (match result {
            Ok(chain) => Ok(chain@),
            Err(error) => Err(error),
        }),
{
    let mut chain: Vec<CertificateDer<'static>> = Vec::new();
    let ghost all = sections@;
    for section in it: sections
        invariant
            it.seq() == all,
            collected(all.take(it.index() as int)) == Ok::<
                Seq<CertificateDer<'static>>,
                pem::Error,
            >(chain@),
    {
        let ghost i = it.index() as int;
        assert(all.take(i + 1).drop_last() == all.take(i));
        match section {
            Ok(certificate) => chain.push(certificate),
            Err(source) => {
                proof {
                    lemma_collected_error(all, i + 1, source);
                }
                return Err(TlsError::ParseFile { path, source });
            },
        }
    }
    assert(all.take(all.len() as int) == all);
    if chain.is_empty() {
        return Err(TlsError::NoCertificates { path });
    }
    Ok(chain)
}

/// An error among the first sections is the error of all of them.
proof fn lemma_collected_error(sections: Seq<PemCertificate>, count: int, error: pem::Error)
    requires
        0 <= count <= sections.len(),
        collected(sections.take(count)) == Err::<Seq<CertificateDer<'static>>, pem::Error>(error),
    ensures
        collected(sections) == Err::<Seq<CertificateDer<'static>>, pem::Error>(error),
    decreases sections.len(),
{
    if count == sections.len() {
        assert(sections.take(count) == sections);
    } else {
        assert(sections.drop_last().take(count) == sections.take(count));
        lemma_collected_error(sections.drop_last(), count, error);
    }
}

/// An error among the first sections of a client CA file is the error of the file.
proof fn lemma_roots_with_error(
    roots: Seq<TrustAnchor<'static>>,
    path: PathBuf,
    sections: Seq<PemCertificate>,
    count: int,
)
    requires
        0 <= count <= sections.len(),
        roots_with(roots, path, sections.take(count)) is Err,
    ensures
        roots_with(roots, path, sections) == roots_with(roots, path, sections.take(count)),
    decreases sections.len(),
{
    if count == sections.len() {
        assert(sections.take(count) == sections);
    } else {
        assert(sections.drop_last().take(count) == sections.take(count));
        lemma_roots_with_error(roots, path, sections.drop_last(), count);
    }
}

/// An error among the first client CA files is the error of all of them.
proof fn lemma_roots_from_error(paths: Seq<PathBuf>, files: Seq<PemFile>, count: int)
    requires
        paths.len() == files.len(),
        0 <= count <= paths.len(),
        roots_from(paths.take(count), files.take(count)) is Err,
    ensures
        roots_from(paths, files) == roots_from(paths.take(count), files.take(count)),
    decreases paths.len(),
{
    if count == paths.len() {
        assert(paths.take(count) == paths);
        assert(files.take(count) == files);
    } else {
        assert(paths.drop_last().take(count) == paths.take(count));
        assert(files.drop_last().take(count) == files.take(count));
        lemma_roots_from_error(paths.drop_last(), files.drop_last(), count);
    }
}

/// Adds the certificates of the client CA file at `path` to the roots, up to the first error.
pub fn add_client_roots(
    store: &mut RootCertStore,
    path: PathBuf,
    sections: Vec<PemCertificate>,
) -> (result: Result<(), TlsError>)
    ensures
        match result {
            Ok(_) => roots_with(anchors(*old(store)), path, sections@) == Ok::<
                Seq<TrustAnchor<'static>>,
                TlsError,
            >(anchors(*final(store))),
            Err(error) => roots_with(anchors(*old(store)), path, sections@) == Err::<
                Seq<TrustAnchor<'static>>,
                TlsError,
            >(error),
        },
        result matches Err(error) ==> error !is ClientVerifier,
{
    let ghost all = sections@;
    let ghost before = anchors(*store);
    for section in it: sections
        invariant
            it.seq() == all,
            before == anchors(*old(store)),
            roots_with(before, path, all.take(it.index() as int)) == Ok::<
                Seq<TrustAnchor<'static>>,
                TlsError,
            >(anchors(*store)),
    {
        let ghost i = it.index() as int;
        assert(all.take(i + 1).drop_last() == all.take(i));
        match section {
            Ok(certificate) => {
                if let Err(source) = add_root(store, certificate) {
                    proof {
                        lemma_roots_with_error(before, path, all, i + 1);
                    }
                    return Err(TlsError::InvalidClientCa { path, source });
                }
            },
            Err(source) => {
                proof {
                    lemma_roots_with_error(before, path, all, i + 1);
                }
                return Err(TlsError::ParseFile { path, source });
            },
        }
    }
    assert(all.take(all.len() as int) == all);
    Ok(())
}

/// Takes the server's chain out of the certificate file.
fn read_chain(path: PathBuf, file: PemFile) -> (result: Result<
    Vec<CertificateDer<'static>>,
    TlsError,
>)
    ensures
        chain_from(path, file) == (match result {
            Ok(chain) => Ok(chain@),
            Err(error) => Err(error),
        }),
{
    match file {
        PemFile::Unopened(source) => Err(TlsError::ReadFile { path, source }),
        PemFile::Opened { bytes, broken } => chain_of(path, read_sections(bytes, broken)),
    }
}

/// Takes the server's key from what was found in the key file at `path`.
pub fn key_of(
    path: PathBuf,
    found: Result<PrivateKeyDer<'static>, pem::Error>,
    broken: Option<pem::Error>,
) -> (result: Result<PrivateKeyDer<'static>, TlsError>)
    ensures
        result == key_in(path, found, broken),
{
    match found {
        Ok(key) => Ok(key),
        Err(error) => {
            let source = match broken {
                Some(cut) => if is_at_end_of_input(&error) {
                    cut
                } else {
                    error
                },
                None => error,
            };
            Err(TlsError::ReadPrivateKey { path, source })
        },
    }
}

/// Takes the server's key out of the key file.
fn read_key(path: PathBuf, file: PemFile) -> (result: Result<PrivateKeyDer<'static>, TlsError>)
    ensures
        result == key_from(path, file),
{
    match file {
        PemFile::Unopened(source) => Err(TlsError::ReadPrivateKey { path, source }),
        PemFile::Opened { bytes, broken } => {
            let part = part_to_parse(bytes, &broken);
            let found = private_key_section(part.as_slice());
            key_of(path, found, broken)
        },
    }
}

/// Takes the trust anchors out of the client CA files.
fn read_client_roots(paths: Vec<PathBuf>, files: Vec<PemFile>) -> (result: Result<
    RootCertStore,
    TlsError,
>)
    requires
        paths.len() == files.len(),
    ensures
        roots_from(paths@, files@) == (match result {
            Ok(store) => Ok(anchors(store)),
            Err(error) => Err(error),
        }),
        result matches Err(error) ==> error !is ClientVerifier,
{
    let mut store = empty_roots();
    let mut rest = files;
    let ghost all_paths = paths@;
    let ghost all_files = rest@;
    for path in it: paths
        invariant
            it.seq() == all_paths,
            all_paths.len() == all_files.len(),
            all_files == files@,
            rest@ == all_files.skip(it.index() as int),
            roots_from(
                all_paths.take(it.index() as int),
                all_files.take(it.index() as int),
            ) == Ok::<Seq<TrustAnchor<'static>>, TlsError>(anchors(store)),
    {
        let ghost i = it.index() as int;
        assert(all_paths.take(i + 1).drop_last() == all_paths.take(i));
        assert(all_files.take(i + 1).drop_last() == all_files.take(i));
        let file = rest.remove(0);
        assert(rest@ == all_files.skip(i + 1));
        match file {
            PemFile::Unopened(source) => {
                proof {
                    lemma_roots_from_error(all_paths, all_files, i + 1);
                }
                return Err(TlsError::ReadFile { path, source });
            },
            PemFile::Opened { bytes, broken } => {
                let sections = read_sections(bytes, broken);
                if let Err(error) = add_client_roots(&mut store, path, sections) {
                    proof {
                        lemma_roots_from_error(all_paths, all_files, i + 1);
                    }
                    return Err(error);
                }
            },
        }
    }
    assert(all_paths.take(all_paths.len() as int) == all_paths);
    assert(all_files.take(all_files.len() as int) == all_files);
    Ok(store)
}

/// Sets up the server for a chain, a key and the client CA files.
pub fn set_up_server(
    chain: Vec<CertificateDer<'static>>,
    key: PrivateKeyDer<'static>,
    paths: Vec<PathBuf>,
    files: Vec<PemFile>,
) -> (result: Result<ServerConfig, TlsError>)
    requires
        paths.len() == files.len(),
    ensures
        server_for(chain@, key, paths@, files@) == (match result {
            Ok(config) => Ok(serving(config)),
            Err(error) => Err(error),
        }),
        result matches Err(TlsError::ClientVerifier { source }) ==> verifier_fault(source)
            == VerifierFault::NoRootAnchors,
{
    match protocol_check() {
        Ok(_) => {},
        Err(source) => return Err(TlsError::ProtocolVersions { source }),
    }
    if paths.is_empty() {
        match open_server(chain, key) {
            Ok(config) => Ok(config),
            Err(source) => Err(TlsError::ServerSetup { source }),
        }
    } else {
        let roots = match read_client_roots(paths, files) {
            Ok(roots) => roots,
            Err(error) => return Err(error),
        };
        match closed_server(roots, chain, key) {
            Ok(Ok(config)) => Ok(config),
            Ok(Err(source)) => Err(TlsError::ServerSetup { source }),
            Err(source) => Err(TlsError::ClientVerifier { source }),
        }
    }
}

impl TlsArgs {
    /// The files to read before a build, in the order in which the build takes them.
    pub fn files(&self) -> (result: Vec<&PathBuf>)
        ensures
            result.len() == self.wanted_files().len(),
            forall|i: int| 0 <= i < result.len() ==> *#[trigger] result[i] == self.wanted_files()[i],
    {
        let mut files: Vec<&PathBuf> = Vec::new();
        if let (Some(cert), Some(key)) = (&self.cert, &self.key) {
            files.push(cert);
            files.push(key);
            for i in 0..self.client_ca.len()
                invariant
                    files.len() == i + 2,
                    *files[0] == *cert,
                    *files[1] == *key,
                    forall|j: int| 0 <= j < i ==> *#[trigger] files[j + 2] == self.client_ca[j],
            {
                files.push(&self.client_ca[i]);
            }
            assert forall|i: int| 0 <= i < files.len() implies *#[trigger] files[i]
                == self.wanted_files()[i] by {
                if i >= 2 {
                    assert(*files[(i - 2) + 2] == self.client_ca[i - 2]);
                }
            }
        }
        files
    }

    /// Makes the server configuration if certificate and key are given, and none if neither is.
    pub fn build(self, files: Vec<PemFile>) -> (result: Result<Option<ServerConfig>, TlsError>)
        requires
            files.len() == self.wanted_files().len(),
        ensures
            outcome(result) == self.server(files@),
            result matches Err(TlsError::ClientVerifier { source }) ==> verifier_fault(source)
                == VerifierFault::NoRootAnchors,
    {
        match (self.cert, self.key) {
            (Some(cert_path), Some(key_path)) => {
                let mut files = files;
                let ghost all = files@;
                let cert_file = files.remove(0);
                let key_file = files.remove(0);
                assert(files@ == all.skip(2));
                let chain = match read_chain(cert_path, cert_file) {
                    Ok(chain) => chain,
                    Err(error) => return Err(error),
                };
                let key = match read_key(key_path, key_file) {
                    Ok(key) => key,
                    Err(error) => return Err(error),
                };
                match set_up_server(chain, key, self.client_ca, files) {
                    Ok(config) => Ok(Some(config)),
                    Err(error) => Err(error),
                }
            },
            (None, None) => Ok(None),
            _ => Err(TlsError::CertAndKeyRequired),
        }
    }
}

impl TlsError {
    /// The text of the error, without its source.
    pub open spec fn text(self) -> Seq<char> {
        match self {
            TlsError::CertAndKeyRequired => "--tls-cert and --tls-key must both be provided"@,
            TlsError::ReadFile { path, .. } => "failed to read "@ + path_text(path),
            TlsError::ParseFile { path, .. } => "failed to parse "@ + path_text(path),
            TlsError::NoCertificates { path } => "no certificates found in "@ + path_text(path),
            TlsError::ReadPrivateKey { path, .. } => "failed to read private key from "@ + path_text(
                path,
            ),
            TlsError::ProtocolVersions { .. } => "rustls protocol version setup"@,
            TlsError::InvalidClientCa { path, .. } => "invalid CA cert in "@ + path_text(path),
            TlsError::ClientVerifier { .. } => "client cert verifier"@,
            TlsError::ServerSetup { .. } => "rustls server config"@,
        }
    }

    /// Hands out the text of the error, without its source.
    pub fn message(&self) -> (result: String)
        ensures
            result@ == self.text(),
    {
        match self {
            TlsError::CertAndKeyRequired => "--tls-cert and --tls-key must both be provided".to_owned(),
            TlsError::ReadFile { path, .. } => "failed to read ".to_owned().concat(
                show_path(path).as_str(),
            ),
            TlsError::ParseFile { path, .. } => "failed to parse ".to_owned().concat(
                show_path(path).as_str(),
            ),
            TlsError::NoCertificates { path } => "no certificates found in ".to_owned().concat(
                show_path(path).as_str(),
            ),
            TlsError::ReadPrivateKey { path, .. } => "failed to read private key from ".to_owned().concat(
            show_path(path).as_str()),
            TlsError::ProtocolVersions { .. } => "rustls protocol version setup".to_owned(),
            TlsError::InvalidClientCa { path, .. } => "invalid CA cert in ".to_owned().concat(
                show_path(path).as_str(),
            ),
            TlsError::ClientVerifier { .. } => "client cert verifier".to_owned(),
            TlsError::ServerSetup { .. } => "rustls server config".to_owned(),
        }
    }
}

}
