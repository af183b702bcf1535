//! What the TLS configuration is made of, and what stands in its way.

use std::path::PathBuf;

use rustls::pki_types::{pem, CertificateDer, PrivateKeyDer, TrustAnchor};
use rustls::server::VerifierBuilderError;
use rustls::ServerConfig;
use vstd::prelude::*;

use crate::cli::TlsArgs;
use crate::tls;
use crate::tls::{PemCertificate, PemFault, PemFile, TlsError};

verus! {

/// Whether `chain` is all certificates of the sections, in order, and nothing else.
pub open spec fn are_all(
    sections: Seq<PemCertificate>,
    chain: Seq<CertificateDer<'static>>,
) -> bool {
    &&& chain.len() == sections.len()
    &&& forall|i: int|
        0 <= i < sections.len() ==> (#[trigger] sections[i] matches Ok(found) && found == chain[i])
}

/// Whether `error` is the first error among the sections.
pub open spec fn is_first_error(sections: Seq<PemCertificate>, error: pem::Error) -> bool {
    exists|at: int|
        0 <= at < sections.len() && (#[trigger] sections[at] matches Err(found) && found == error)
            && forall|i: int| 0 <= i < at ==> #[trigger] sections[i] is Ok
}

/// Whether an error says that the parser came to the end of its input.
pub open spec fn says_end(error: pem::Error) -> bool {
    tls::pem_fault(error) == PemFault::MissingSectionEnd || tls::pem_fault(error)
        == PemFault::NoItemsFound
}

/// Whether `lines` is the complete lines in front of `bytes`: what follows them ends no line.
pub open spec fn are_lines(lines: Seq<u8>, bytes: Seq<u8>) -> bool {
    &&& lines.is_prefix_of(bytes)
    &&& lines.len() == 0 || lines.last() == 10 || lines.last() == 13
    &&& forall|i: int| lines.len() <= i < bytes.len() ==> bytes[i] != 10 && bytes[i] != 13
}

/// Whether `sections` is what a file is read as. Where an error cut the reading short, those are the
/// sections in the complete lines, and then that error, which takes the place of a complaint about
/// the end of the input.
pub open spec fn is_read_as(
    bytes: Seq<u8>,
    broken: Option<pem::Error>,
    sections: Seq<PemCertificate>,
) -> bool {
    match broken {
        None => sections == tls::pem_certificates(bytes),
        Some(cut) => {
            &&& sections.len() > 0
            &&& (sections.last() matches Err(error) && error == cut)
            &&& exists|lines: Seq<u8>| #[trigger]
                are_lines(lines, bytes) && {
                    let found = tls::pem_certificates(lines);
                    ||| sections.drop_last() == found && !(found.len() > 0 && (
                    found.last() matches Err(error) && says_end(error)))
                    ||| found.len() > 0 && sections.drop_last() == found.drop_last() && (
                    found.last() matches Err(error) && says_end(error))
                }
        },
    }
}

/// The complete lines are found.
proof fn lemma_lines(bytes: Seq<u8>)
    ensures
        are_lines(tls::whole_lines(bytes), bytes),
    decreases bytes.len(),
{
    if !(bytes.len() == 0 || bytes.last() == 10 || bytes.last() == 13) {
        let init = bytes.drop_last();
        let lines = tls::whole_lines(init);
        lemma_lines(init);
        assert(lines =~= bytes.subrange(0, lines.len() as int));
        assert forall|i: int| lines.len() <= i < bytes.len() implies bytes[i] != 10 && bytes[i]
            != 13 by {
            if i < init.len() {
                assert(init[i] == bytes[i]);
            }
        }
    } else {
        assert(bytes =~= bytes.subrange(0, bytes.len() as int));
    }
}

/// There is only one way to take the complete lines.
proof fn lemma_lines_once(left: Seq<u8>, right: Seq<u8>, bytes: Seq<u8>)
    requires
        are_lines(left, bytes),
        are_lines(right, bytes),
    ensures
        left == right,
{
    if left.len() < right.len() {
        assert(right.last() == bytes[right.len() - 1]);
    } else if right.len() < left.len() {
        assert(left.last() == bytes[left.len() - 1]);
    }
    assert(left =~= right);
}

/// What a file is read as.
proof fn lemma_read_as(bytes: Seq<u8>, broken: Option<pem::Error>)
    ensures
        is_read_as(bytes, broken, tls::sections_of(bytes, broken)),
{
    if let Some(cut) = broken {
        lemma_lines(bytes);
        let lines = tls::whole_lines(bytes);
        let found = tls::pem_certificates(lines);
        let sections = tls::sections_of(bytes, broken);
        assert(sections.last() == Err::<CertificateDer<'static>, pem::Error>(cut));
        assert(sections.drop_last() =~= found || (found.len() > 0 && sections.drop_last()
            =~= found.drop_last()));
        assert(are_lines(lines, bytes));
        if found.len() > 0 && (found.last() matches Err(error) && says_end(error)) {
            assert(sections.drop_last() =~= found.drop_last());
        } else {
            assert(sections.drop_last() =~= found);
        }
    }
}

/// Collecting gives all certificates or the first error.
proof fn lemma_collected(sections: Seq<PemCertificate>)
    ensures
        match tls::collected(sections) {
            Ok(chain) => are_all(sections, chain),
            Err(error) => is_first_error(sections, error),
        },
    decreases sections.len(),
{
    if sections.len() > 0 {
        let init = sections.drop_last();
        lemma_collected(init);
        assert(forall|i: int| 0 <= i < init.len() ==> #[trigger] init[i] == sections[i]);
        assert(forall|i: int| 0 <= i < init.len() ==> init[i] == #[trigger] sections[i]);
        match tls::collected(init) {
            Ok(before) => {
                let at = sections.len() - 1;
                if let Err(error) = sections[at] {
                    assert forall|i: int| 0 <= i < at implies #[trigger] sections[i] is Ok by {
                        assert(init[i] is Ok);
                    }
                    assert(sections[at] matches Err(found) && found == error);
                }
            },
            Err(error) => {
                let at = choose|at: int|
                    0 <= at < init.len() && (#[trigger] init[at] matches Err(found) && found
                        == error) && forall|i: int| 0 <= i < at ==> #[trigger] init[i] is Ok;
                assert(sections[at] == init[at]);
                assert forall|i: int| 0 <= i < at implies #[trigger] sections[i] is Ok by {
                    assert(init[i] is Ok);
                }
            },
        }
    }
}

/// The server's chain is every certificate of the file, one by one and in order. The first error
/// among the sections is reported instead, and a file without sections has no certificates.
pub proof fn law_chain_is_every_certificate(
    path: PathBuf,
    sections: Vec<PemCertificate>,
    result: Result<Vec<CertificateDer<'static>>, TlsError>,
)
    requires
        call_ensures(tls::chain_of, (path, sections), result),
    ensures
        match result {
            Ok(chain) => chain.len() > 0 && are_all(sections@, chain@),
            Err(error) => {
                ||| sections.len() == 0 && error == (TlsError::NoCertificates { path })
                ||| error matches TlsError::ParseFile { path: named, source } && named == path
                    && is_first_error(sections@, source)
            },
        },
{
    lemma_collected(sections@);
}

/// An interruption is put behind the sections, in place of a complaint about the end of the input;
/// without one, the sections stay as they are.
pub proof fn law_interruption_comes_last(
    sections: Vec<PemCertificate>,
    broken: Option<pem::Error>,
    result: Vec<PemCertificate>,
)
    requires
        call_ensures(tls::with_interruption, (sections, broken), result),
    ensures
        broken is None ==> result@ == sections@,
        broken matches Some(cut) ==> {
            let complaint = sections.len() > 0 && (sections@.last() matches Err(error) && says_end(
                error,
            ));
            &&& complaint ==> result.len() == sections.len()
            &&& !complaint ==> result.len() == sections.len() + 1
            &&& result@.last() matches Err(error) && error == cut
            &&& forall|i: int|
                0 <= i < result.len() - 1 ==> #[trigger] result@[i] == sections@[i]
        },
{
}

/// A key that was found is taken. Else the reason is that of the parser, unless the reading was cut
/// short and the parser only complains about the end of the input.
pub proof fn law_key_is_taken_or_explained(
    path: PathBuf,
    found: Result<PrivateKeyDer<'static>, pem::Error>,
    broken: Option<pem::Error>,
    result: Result<PrivateKeyDer<'static>, TlsError>,
)
    requires
        call_ensures(tls::key_of, (path, found, broken), result),
    ensures
        found matches Ok(key) ==> (result matches Ok(taken) && taken == key),
        found matches Err(error) ==> (broken is None || !says_end(error)) ==> (
        result matches Err(TlsError::ReadPrivateKey { path: named, source }) && named == path
            && source == error),
        found matches Err(error) ==> broken matches Some(cut) ==> says_end(error) ==> (
        result matches Err(TlsError::ReadPrivateKey { path: named, source }) && named == path
            && source == cut),
{
}

/// Whether a client CA file was read to its end and gives exactly these trust anchors: one for each
/// of its certificates, in order.
pub open spec fn gives_anchors(file: PemFile, roots: Seq<TrustAnchor<'static>>) -> bool {
    file matches PemFile::Opened { bytes, broken } && broken is None && {
        let sections = tls::pem_certificates(bytes@);
        &&& roots.len() == sections.len()
        &&& forall|i: int|
            0 <= i < sections.len() ==> (#[trigger] sections[i] matches Ok(certificate)
                && tls::trust_anchor(certificate) == Ok::<TrustAnchor<'static>, rustls::Error>(
                roots[i],
            ))
    }
}

/// Whether a section is a certificate that can be trusted as a CA.
pub open spec fn is_trusted(section: PemCertificate) -> bool {
    section matches Ok(certificate) && tls::trust_anchor(certificate) is Ok
}

/// Whether `error` is the first thing wrong with a client CA file.
pub open spec fn is_ca_error(path: PathBuf, file: PemFile, error: TlsError) -> bool {
    match file {
        PemFile::Unopened(source) => error == (TlsError::ReadFile { path, source }),
        PemFile::Opened { bytes, broken } => exists|sections: Seq<PemCertificate>, at: int| #[trigger]
            is_read_as(bytes@, broken, sections) && 0 <= at < sections.len() && (
            forall|i: int| 0 <= i < at ==> #[trigger] is_trusted(sections[i])) && (
            match #[trigger] sections[at] {
                Err(source) => error == (TlsError::ParseFile { path, source }),
                Ok(certificate) => tls::trust_anchor(certificate) matches Err(source) && error == (
                TlsError::InvalidClientCa { path, source }),
            }),
    }
}

/// What a client CA file adds to the roots.
proof fn lemma_roots_with(
    roots: Seq<TrustAnchor<'static>>,
    path: PathBuf,
    sections: Seq<PemCertificate>,
)
    ensures
        match tls::roots_with(roots, path, sections) {
            Ok(all) => {
                &&& all.len() == roots.len() + sections.len()
                &&& all.take(roots.len() as int) == roots
                &&& forall|i: int|
                    0 <= i < sections.len() ==> (#[trigger] sections[i] matches Ok(certificate)
                        && tls::trust_anchor(certificate) == Ok::<
                        TrustAnchor<'static>,
                        rustls::Error,
                    >(all[roots.len() + i]))
            },
            Err(error) => exists|at: int|
                0 <= at < sections.len() && (forall|i: int|
                    0 <= i < at ==> #[trigger] is_trusted(sections[i])) && (
                match #[trigger] sections[at] {
                    Err(source) => error == (TlsError::ParseFile { path, source }),
                    Ok(certificate) => tls::trust_anchor(certificate) matches Err(source) && error
                        == (TlsError::InvalidClientCa { path, source }),
                }),
        },
    decreases sections.len(),
{
    if sections.len() == 0 {
        assert(roots.take(roots.len() as int) =~= roots);
    } else {
        let init = sections.drop_last();
        let last = sections.len() - 1;
        lemma_roots_with(roots, path, init);
        assert(forall|i: int| 0 <= i < init.len() ==> #[trigger] init[i] == sections[i]);
        assert(forall|i: int| 0 <= i < init.len() ==> init[i] == #[trigger] sections[i]);
        match tls::roots_with(roots, path, init) {
            Ok(before) => {
                assert forall|i: int| 0 <= i < last implies #[trigger] is_trusted(
                    sections[i],
                ) by {
                    assert(init[i] == sections[i]);
                }
                if let Ok(all) = tls::roots_with(roots, path, sections) {
                    assert(all.take(roots.len() as int) =~= before.take(roots.len() as int));
                } else {
                    assert(sections[last] == sections.last());
                }
            },
            Err(error) => {
                let at = choose|at: int|
                    0 <= at < init.len() && (forall|i: int|
                        0 <= i < at ==> #[trigger] is_trusted(init[i])) && (
                    match #[trigger] init[at] {
                        Err(source) => error == (TlsError::ParseFile { path, source }),
                        Ok(certificate) => tls::trust_anchor(certificate) matches Err(source)
                            && error == (TlsError::InvalidClientCa { path, source }),
                    });
                assert forall|i: int| 0 <= i < at implies #[trigger] is_trusted(
                    sections[i],
                ) by {
                    assert(is_trusted(init[i]));
                }
                assert(sections[at] == init[at]);
            },
        }
    }
}

/// Whether the client CA files give exactly these roots: those of each file, one file after the
/// other.
pub open spec fn give_roots(files: Seq<PemFile>, roots: Seq<TrustAnchor<'static>>) -> bool {
    exists|of_each: Seq<Seq<TrustAnchor<'static>>>| #[trigger]
        of_each.flatten() == roots && of_each.len() == files.len() && forall|i: int|
            0 <= i < files.len() ==> gives_anchors(#[trigger] files[i], of_each[i])
}

/// Whether a client CA file gives trust anchors at all.
pub open spec fn is_good_ca(file: PemFile) -> bool {
    exists|roots: Seq<TrustAnchor<'static>>| #[trigger] gives_anchors(file, roots)
}

/// Whether `error` is the first thing wrong with the client CA files.
pub open spec fn is_first_ca_error(
    paths: Seq<PathBuf>,
    files: Seq<PemFile>,
    error: TlsError,
) -> bool {
    exists|at: int|
        0 <= at < files.len() && is_ca_error(paths[at], #[trigger] files[at], error) && forall|i: int|
            0 <= i < at ==> is_good_ca(#[trigger] files[i])
}

/// What the client CA files give.
proof fn lemma_roots_from(paths: Seq<PathBuf>, files: Seq<PemFile>)
    requires
        paths.len() == files.len(),
    ensures
        match tls::roots_from(paths, files) {
            Ok(roots) => give_roots(files, roots),
            Err(error) => is_first_ca_error(paths, files, error),
        },
    decreases paths.len(),
{
    if paths.len() == 0 {
        let of_each = Seq::<Seq<TrustAnchor<'static>>>::empty();
        assert(of_each.flatten() =~= Seq::empty());
    } else {
        let last = files.len() - 1;
        let path = paths.last();
        let init = files.drop_last();
        lemma_roots_from(paths.drop_last(), init);
        assert(forall|i: int| 0 <= i < init.len() ==> #[trigger] init[i] == files[i]);
        assert(forall|i: int| 0 <= i < init.len() ==> init[i] == #[trigger] files[i]);
        match tls::roots_from(paths.drop_last(), init) {
            Ok(before) => {
                let of_each = choose|of_each: Seq<Seq<TrustAnchor<'static>>>| #[trigger]
                    of_each.flatten() == before && of_each.len() == init.len() && forall|i: int|
                        0 <= i < init.len() ==> gives_anchors(#[trigger] init[i], of_each[i]);
                assert forall|i: int| 0 <= i < last implies is_good_ca(#[trigger] files[i]) by {
                    assert(gives_anchors(init[i], of_each[i]));
                }
                if let PemFile::Opened { bytes, broken } = files[last] {
                    let sections = tls::sections_of(bytes@, broken);
                    lemma_read_as(bytes@, broken);
                    lemma_roots_with(before, path, sections);
                    match tls::roots_with(before, path, sections) {
                        Ok(all) => {
                            if broken is Some {
                                assert(sections[sections.len() - 1] is Ok);
                            }
                            let own = all.skip(before.len() as int);
                            assert(gives_anchors(files[last], own)) by {
                                assert forall|i: int| 0 <= i < sections.len() implies (
                                #[trigger] sections[i] matches Ok(certificate)
                                    && tls::trust_anchor(certificate) == Ok::<
                                    TrustAnchor<'static>,
                                    rustls::Error,
                                >(own[i])) by {
                                    assert(own[i] == all[before.len() + i]);
                                }
                            }
                            let now = of_each.push(own);
                            of_each.lemma_flatten_push(own);
                            assert(all =~= before + own);
                            assert(now.flatten() == all);
                            assert forall|i: int| 0 <= i < files.len() implies gives_anchors(
                                #[trigger] files[i],
                                now[i],
                            ) by {
                                if i < last {
                                    assert(gives_anchors(init[i], of_each[i]));
                                }
                            }
                        },
                        Err(error) => {
                            let at = choose|at: int|
                                0 <= at < sections.len() && (forall|i: int|
                                    0 <= i < at ==> #[trigger] is_trusted(sections[i])) && (
                                match #[trigger] sections[at] {
                                    Err(source) => error == (TlsError::ParseFile { path, source }),
                                    Ok(certificate) => tls::trust_anchor(certificate) matches Err(
                                        source,
                                    ) && error == (TlsError::InvalidClientCa { path, source }),
                                });
                            assert(sections[at] == sections[at]);
                            assert(is_ca_error(paths[last], files[last], error));
                        },
                    }
                } else {
                    assert(is_ca_error(
                        paths[last],
                        files[last],
                        tls::roots_from(paths, files)->Err_0,
                    ));
                }
            },
            Err(error) => {
                let at = choose|at: int|
                    0 <= at < init.len() && is_ca_error(
                        paths.drop_last()[at],
                        #[trigger] init[at],
                        error,
                    ) && forall|i: int| 0 <= i < at ==> is_good_ca(#[trigger] init[i]);
                assert(is_ca_error(paths[at], files[at], error));
                assert forall|i: int| 0 <= i < at implies is_good_ca(#[trigger] files[i]) by {
                    assert(is_good_ca(init[i]));
                }
            },
        }
    }
}

/// Adding a client CA file to the roots appends one trust anchor for each of its certificates, in
/// order, behind the roots that were there, and stops at the first section that is no certificate
/// or cannot be trusted.
pub proof fn law_client_roots_are_appended(
    roots: Seq<TrustAnchor<'static>>,
    path: PathBuf,
    sections: Seq<PemCertificate>,
)
    ensures
        match tls::roots_with(roots, path, sections) {
            Ok(all) => {
                &&& all.len() == roots.len() + sections.len()
                &&& all.take(roots.len() as int) == roots
                &&& forall|i: int|
                    0 <= i < sections.len() ==> (#[trigger] sections[i] matches Ok(certificate)
                        && tls::trust_anchor(certificate) == Ok::<
                        TrustAnchor<'static>,
                        rustls::Error,
                    >(all[roots.len() + i]))
            },
            Err(error) => exists|at: int|
                0 <= at < sections.len() && (forall|i: int|
                    0 <= i < at ==> #[trigger] is_trusted(sections[i])) && (
                match #[trigger] sections[at] {
                    Err(source) => error == (TlsError::ParseFile { path, source }),
                    Ok(certificate) => tls::trust_anchor(certificate) matches Err(source) && error
                        == (TlsError::InvalidClientCa { path, source }),
                }),
        },
{
    lemma_roots_with(roots, path, sections);
}

/// Whether `server` presents `chain` with `key` and asks clients for what the CA files give.
pub open spec fn serves(
    server: ServerConfig,
    chain: Seq<CertificateDer<'static>>,
    key: PrivateKeyDer<'static>,
    files: Seq<PemFile>,
) -> bool {
    &&& tls::serving(server).chain == chain
    &&& tls::serving(server).key == key
    &&& files.len() == 0 ==> tls::serving(server).client_roots is None
    &&& files.len() > 0 ==> (tls::serving(server).client_roots matches Some(roots) && roots.len() > 0
        && give_roots(files, roots))
}

/// Whether `error` is what stands in the way of a server with `chain` and `key`: the first thing
/// wrong with the client CA files, then that they hold no certificate at all, then that chain and
/// key do not go together.
pub open spec fn hinders(
    error: TlsError,
    chain: Seq<CertificateDer<'static>>,
    key: PrivateKeyDer<'static>,
    paths: Seq<PathBuf>,
    files: Seq<PemFile>,
) -> bool {
    ||| is_first_ca_error(paths, files, error)
    ||| error is ClientVerifier && files.len() > 0 && give_roots(files, Seq::empty())
    ||| error matches TlsError::ServerSetup { source } && tls::single_cert_error(chain, key)
        == Some(source) && (files.len() == 0 || exists|roots: Seq<TrustAnchor<'static>>|
        roots.len() > 0 && #[trigger] give_roots(files, roots))
}

/// What the server for a chain and a key is, or what stands in its way.
proof fn lemma_server_for(
    chain: Seq<CertificateDer<'static>>,
    key: PrivateKeyDer<'static>,
    paths: Seq<PathBuf>,
    files: Seq<PemFile>,
)
    requires
        paths.len() == files.len(),
    ensures
        match tls::server_for(chain, key, paths, files) {
            Ok(serving) => {
                &&& serving.chain == chain
                &&& serving.key == key
                &&& tls::single_cert_error(chain, key) is None
                &&& files.len() == 0 ==> serving.client_roots is None
                &&& files.len() > 0 ==> (serving.client_roots matches Some(roots) && roots.len() > 0
                    && give_roots(files, roots))
            },
            Err(error) => hinders(error, chain, key, paths, files),
        },
{
    lemma_roots_from(paths, files);
    if files.len() > 0 {
        if let Ok(roots) = tls::roots_from(paths, files) {
            if roots.len() == 0 {
                assert(roots =~= Seq::empty());
            }
            assert(give_roots(files, roots));
        }
    }
}

/// The server presents the very chain that it was given, whole and in order, with the key that it
/// was given. It asks clients for a certificate exactly where there are client CA files, and trusts
/// all certificates in them. Else the first thing in its way is reported.
pub proof fn law_server_presents_the_chain_it_was_given(
    chain: Vec<CertificateDer<'static>>,
    key: PrivateKeyDer<'static>,
    paths: Vec<PathBuf>,
    files: Vec<PemFile>,
    result: Result<ServerConfig, TlsError>,
)
    requires
        paths.len() == files.len(),
        call_ensures(tls::set_up_server, (chain, key, paths, files), result),
    ensures
        match result {
            Ok(server) => serves(server, chain@, key, files@) && tls::single_cert_error(
                chain@,
                key,
            ) is None,
            Err(error) => hinders(error, chain@, key, paths@, files@),
        },
        result matches Err(TlsError::ClientVerifier { source }) ==> tls::verifier_fault(source)
            == tls::VerifierFault::NoRootAnchors,
{
    lemma_server_for(chain@, key, paths@, files@);
}

/// Whether the certificate file gives this chain: read to its end, with at least one section, and
/// all of them certificates.
pub open spec fn gives_chain(file: PemFile, chain: Seq<CertificateDer<'static>>) -> bool {
    file matches PemFile::Opened { bytes, broken } && broken is None && chain.len() > 0 && are_all(
        tls::pem_certificates(bytes@),
        chain,
    )
}

/// Whether `error` is what is wrong with the certificate file.
pub open spec fn is_chain_error(path: PathBuf, file: PemFile, error: TlsError) -> bool {
    match file {
        PemFile::Unopened(source) => error == (TlsError::ReadFile { path, source }),
        PemFile::Opened { bytes, broken } => exists|sections: Seq<PemCertificate>| #[trigger]
            is_read_as(bytes@, broken, sections) && {
                ||| sections.len() == 0 && error == (TlsError::NoCertificates { path })
                ||| error matches TlsError::ParseFile { path: named, source } && named == path
                    && is_first_error(sections, source)
            },
    }
}

/// Whether the key file gives this key. Where an error cut the reading short, the key must stand in
/// the complete lines.
pub open spec fn gives_key(file: PemFile, key: PrivateKeyDer<'static>) -> bool {
    file matches PemFile::Opened { bytes, broken } && {
        &&& broken is None ==> tls::pem_private_key(bytes@) == Ok::<_, pem::Error>(key)
        &&& broken is Some ==> exists|lines: Seq<u8>| #[trigger]
            are_lines(lines, bytes@) && tls::pem_private_key(lines) == Ok::<_, pem::Error>(key)
    }
}

/// Whether `error` is what is wrong with the key file.
pub open spec fn is_key_error(path: PathBuf, file: PemFile, error: TlsError) -> bool {
    error matches TlsError::ReadPrivateKey { path: named, source } && named == path && match file {
        PemFile::Unopened(reason) => source == reason,
        PemFile::Opened { bytes, broken: None } => tls::pem_private_key(bytes@) == Err::<
            PrivateKeyDer<'static>,
            _,
        >(source),
        PemFile::Opened { bytes, broken: Some(cut) } => exists|lines: Seq<u8>| #[trigger]
            are_lines(lines, bytes@) && (tls::pem_private_key(lines) matches Err(reason) && source
                == (if says_end(reason) {
                cut
            } else {
                reason
            })),
    }
}

/// What the certificate file gives.
proof fn lemma_chain_from(path: PathBuf, file: PemFile)
    ensures
        match tls::chain_from(path, file) {
            Ok(chain) => gives_chain(file, chain),
            Err(error) => is_chain_error(path, file, error),
        },
{
    if let PemFile::Opened { bytes, broken } = file {
        let sections = tls::sections_of(bytes@, broken);
        lemma_read_as(bytes@, broken);
        lemma_collected(sections);
        if broken is Some {
            if let Ok(chain) = tls::chain_from(path, file) {
                assert(sections[sections.len() - 1] is Ok);
            }
        }
    }
}

/// What the key file gives.
proof fn lemma_key_from(path: PathBuf, file: PemFile)
    ensures
        match tls::key_from(path, file) {
            Ok(key) => gives_key(file, key),
            Err(error) => is_key_error(path, file, error),
        },
{
    if let PemFile::Opened { bytes, broken } = file {
        lemma_lines(bytes@);
        assert(are_lines(tls::whole_lines(bytes@), bytes@));
    }
}

/// Without certificate and key there is no TLS, and one without the other is an error.
pub proof fn law_tls_needs_certificate_and_key(
    args: TlsArgs,
    files: Vec<PemFile>,
    result: Result<Option<ServerConfig>, TlsError>,
)
    requires
        call_ensures(TlsArgs::build, (args, files), result),
        args.cert is None || args.key is None,
    ensures
        args.cert is None && args.key is None ==> (result matches Ok(server) && server is None),
        args.cert is Some || args.key is Some ==> (result matches Err(error)
            && error is CertAndKeyRequired),
{
}

/// A server that was built presents every certificate of the certificate file, one by one and in the
/// order of the file, with the key of the key file. It asks clients for a certificate exactly where
/// client CA files are named, and trusts every certificate in them.
pub proof fn law_built_server_serves_its_files(
    args: TlsArgs,
    files: Vec<PemFile>,
    server: ServerConfig,
)
    requires
        call_ensures(TlsArgs::build, (args, files), Ok(Some(server))),
        files.len() == args.client_ca.len() + 2,
    ensures
        args.cert is Some && args.key is Some,
        gives_chain(files@[0], tls::serving(server).chain),
        gives_key(files@[1], tls::serving(server).key),
        serves(server, tls::serving(server).chain, tls::serving(server).key, files@.skip(2)),
{
    if let (Some(cert), Some(key)) = (args.cert, args.key) {
        lemma_chain_from(cert, files@[0]);
        lemma_key_from(key, files@[1]);
        lemma_server_for(
            tls::serving(server).chain,
            tls::serving(server).key,
            args.client_ca@,
            files@.skip(2),
        );
    }
}

/// The chain of a built server, section by section.
pub proof fn law_built_server_presents_every_certificate(
    args: TlsArgs,
    files: Vec<PemFile>,
    server: ServerConfig,
    bytes: Vec<u8>,
    broken: Option<pem::Error>,
    i: int,
)
    requires
        call_ensures(TlsArgs::build, (args, files), Ok(Some(server))),
        files.len() == args.client_ca.len() + 2,
        files@[0] == (PemFile::Opened { bytes, broken }),
    ensures
        broken is None,
        tls::serving(server).chain.len() == tls::pem_certificates(bytes@).len() > 0,
        0 <= i < tls::serving(server).chain.len() ==> tls::pem_certificates(bytes@)[i] == Ok::<
            CertificateDer<'static>,
            pem::Error,
        >(tls::serving(server).chain[i]),
{
    law_built_server_serves_its_files(args, files, server);
}

/// With certificate and key given there is a server, or a reason against it, and the reasons come in
/// order: what is wrong with the certificate file, then with the key file, then with the client CA
/// files, and then with all of them together.
pub proof fn law_first_thing_wrong_is_reported(
    args: TlsArgs,
    files: Vec<PemFile>,
    cert: PathBuf,
    key: PathBuf,
    result: Result<Option<ServerConfig>, TlsError>,
)
    requires
        call_ensures(TlsArgs::build, (args, files), result),
        files.len() == args.client_ca.len() + 2,
        args.cert == Some(cert),
        args.key == Some(key),
    ensures
        result matches Ok(server) ==> server is Some,
        result matches Err(TlsError::ClientVerifier { source }) ==> tls::verifier_fault(source)
            == tls::VerifierFault::NoRootAnchors,
        result matches Err(error) ==> {
            ||| is_chain_error(cert, files@[0], error)
            ||| is_key_error(key, files@[1], error) && exists|chain: Seq<CertificateDer<'static>>|
                #[trigger] gives_chain(files@[0], chain)
            ||| exists|chain: Seq<CertificateDer<'static>>, secret: PrivateKeyDer<'static>|
                #[trigger] gives_chain(files@[0], chain) && #[trigger] gives_key(files@[1], secret)
                    && hinders(error, chain, secret, args.client_ca@, files@.skip(2))
        },
{
    lemma_chain_from(cert, files@[0]);
    lemma_key_from(key, files@[1]);
    if let (Ok(chain), Ok(secret)) = (
        tls::chain_from(cert, files@[0]),
        tls::key_from(key, files@[1]),
    ) {
        lemma_server_for(chain, secret, args.client_ca@, files@.skip(2));
        assert(gives_chain(files@[0], chain) && gives_key(files@[1], secret));
    }
}

/// Nothing but these reasons stands in the way of a server: with a certificate file that gives a
/// chain, a key file that gives a key, client CA files that give at least one root where there are
/// any, and a chain and a key that go together, the server is built.
pub proof fn law_good_files_make_a_server(
    args: TlsArgs,
    files: Vec<PemFile>,
    chain: Seq<CertificateDer<'static>>,
    key: PrivateKeyDer<'static>,
    roots: Seq<TrustAnchor<'static>>,
    result: Result<Option<ServerConfig>, TlsError>,
)
    requires
        call_ensures(TlsArgs::build, (args, files), result),
        files.len() == args.client_ca.len() + 2,
        args.cert is Some && args.key is Some,
        gives_chain(files@[0], chain),
        gives_key(files@[1], key),
        args.client_ca.len() > 0 ==> give_roots(files@.skip(2), roots) && roots.len() > 0,
        tls::single_cert_error(chain, key) is None,
    ensures
        result matches Ok(Some(server)) && serves(server, chain, key, files@.skip(2)),
{
    let cert_path = args.cert->0;
    let key_path = args.key->0;
    let rest = files@.skip(2);
    lemma_chain_from(cert_path, files@[0]);
    lemma_key_from(key_path, files@[1]);
    // The chain and the key are the only ones that the files give.
    if let PemFile::Opened { bytes, broken } = files@[0] {
        let sections = tls::pem_certificates(bytes@);
        lemma_collected(sections);
        match tls::collected(sections) {
            Ok(found) => {
                assert forall|i: int| 0 <= i < chain.len() implies found[i] == chain[i] by {
                    assert(sections[i] is Ok);
                }
                assert(found =~= chain);
            },
            Err(error) => {
                let at = choose|at: int|
                    0 <= at < sections.len() && (#[trigger] sections[at] matches Err(found)
                        && found == error) && forall|i: int|
                        0 <= i < at ==> #[trigger] sections[i] is Ok;
                assert(sections[at] is Ok);
            },
        }
    }
    if let PemFile::Opened { bytes, broken } = files@[1] {
        lemma_lines(bytes@);
        if broken is Some {
            let lines = choose|lines: Seq<u8>| #[trigger]
                are_lines(lines, bytes@) && tls::pem_private_key(lines) == Ok::<_, pem::Error>(key);
            lemma_lines_once(lines, tls::whole_lines(bytes@), bytes@);
        }
    }
    lemma_server_for(chain, key, args.client_ca@, rest);
    if args.client_ca.len() > 0 {
        lemma_roots_found(args.client_ca@, rest, roots);
    }
}

/// Client CA files that give roots are read as those roots.
proof fn lemma_roots_found(
    paths: Seq<PathBuf>,
    files: Seq<PemFile>,
    roots: Seq<TrustAnchor<'static>>,
)
    requires
        paths.len() == files.len(),
        give_roots(files, roots),
    ensures
        tls::roots_from(paths, files) == Ok::<_, TlsError>(roots),
    decreases paths.len(),
{
    let of_each = choose|of_each: Seq<Seq<TrustAnchor<'static>>>| #[trigger]
        of_each.flatten() == roots && of_each.len() == files.len() && forall|i: int|
            0 <= i < files.len() ==> gives_anchors(#[trigger] files[i], of_each[i]);
    if paths.len() == 0 {
        assert(of_each =~= Seq::empty());
        assert(roots =~= Seq::empty());
    } else {
        let init = files.drop_last();
        let last = files.len() - 1;
        let before = of_each.drop_last();
        assert(gives_anchors(files[last], of_each[last]));
        assert forall|i: int| 0 <= i < init.len() implies gives_anchors(
            #[trigger] init[i],
            before[i],
        ) by {
            assert(gives_anchors(files[i], of_each[i]));
        }
        assert(give_roots(init, before.flatten()));
        lemma_roots_found(paths.drop_last(), init, before.flatten());
        before.lemma_flatten_push(of_each[last]);
        assert(before.push(of_each[last]) =~= of_each);
        if let PemFile::Opened { bytes, broken } = files[last] {
            let sections = tls::pem_certificates(bytes@);
            lemma_roots_with(before.flatten(), paths.last(), sections);
            match tls::roots_with(before.flatten(), paths.last(), sections) {
                Ok(all) => {
                    assert forall|i: int| 0 <= i < sections.len() implies all[before.flatten().len()
                        + i] == of_each[last][i] by {
                        assert(sections[i] is Ok);
                    }
                    assert(all =~= all.take(before.flatten().len() as int) + of_each[last]);
                },
                Err(error) => {
                    let at = choose|at: int|
                        0 <= at < sections.len() && (forall|i: int|
                            0 <= i < at ==> #[trigger] is_trusted(sections[i])) && (
                        match #[trigger] sections[at] {
                            Err(source) => error == (TlsError::ParseFile {
                                path: paths.last(),
                                source,
                            }),
                            Ok(certificate) => tls::trust_anchor(certificate) matches Err(source)
                                && error == (TlsError::InvalidClientCa {
                                path: paths.last(),
                                source,
                            }),
                        });
                    assert(sections[at] is Ok);
                },
            }
        }
    }
}

/// The files to read are none without both certificate and key, and else the certificate file, the
/// key file and then the client CA files in their order.
pub proof fn law_files_are_read_in_order(args: &TlsArgs, result: Vec<&PathBuf>, i: int)
    requires
        call_ensures(TlsArgs::files, (args,), result),
    ensures
        args.cert is None || args.key is None ==> result.len() == 0,
        args.cert matches Some(cert) ==> args.key matches Some(key) ==> {
            &&& result.len() == args.client_ca.len() + 2
            &&& *result[0] == cert
            &&& *result[1] == key
            &&& 0 <= i < args.client_ca.len() ==> *result[i + 2] == args.client_ca[i]
        },
{
    if let (Some(cert), Some(key)) = (args.cert, args.key) {
        let wanted = args.wanted_files();
        assert(*result[0] == wanted[0]);
        assert(*result[1] == wanted[1]);
        if 0 <= i < args.client_ca.len() {
            assert(*result[i + 2] == wanted[i + 2]);
        }
    }
}

/// The text of an error says what went wrong, and with which file where it was a file.
pub proof fn law_error_text_names_the_file(
    path: PathBuf,
    pem_error: pem::Error,
    tls_error: rustls::Error,
    verifier_error: VerifierBuilderError,
    error: TlsError,
    result: String,
)
    requires
        call_ensures(TlsError::message, (&error,), result),
    ensures
        error == TlsError::CertAndKeyRequired ==> result@
            == "--tls-cert and --tls-key must both be provided"@,
        error == (TlsError::ReadFile { path, source: pem_error }) ==> result@ == "failed to read "@
            + tls::path_text(path),
        error == (TlsError::ParseFile { path, source: pem_error }) ==> result@ == "failed to parse "@
            + tls::path_text(path),
        error == (TlsError::NoCertificates { path }) ==> result@ == "no certificates found in "@
            + tls::path_text(path),
        error == (TlsError::ReadPrivateKey { path, source: pem_error }) ==> result@
            == "failed to read private key from "@ + tls::path_text(path),
        error == (TlsError::ProtocolVersions { source: tls_error }) ==> result@
            == "rustls protocol version setup"@,
        error == (TlsError::InvalidClientCa { path, source: tls_error }) ==> result@
            == "invalid CA cert in "@ + tls::path_text(path),
        error == (TlsError::ClientVerifier { source: verifier_error }) ==> result@
            == "client cert verifier"@,
        error == (TlsError::ServerSetup { source: tls_error }) ==> result@ == "rustls server config"@,
{
}

}
