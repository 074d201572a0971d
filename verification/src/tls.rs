//! Pinning the engine's certificate: the certificates of one PEM file, and no
//! others, are the roots of trust.

use crate::text;
use vstd::prelude::*;

verus! {

#[verifier::external_type_specification]
#[verifier::external_body]
pub struct ExRootCertStore(rustls::RootCertStore);

/// What a root store holds: of each trust anchor, in order, the subject, the
/// public key and the name constraints.
pub uninterp spec fn anchors(
    store: rustls::RootCertStore,
) -> Seq<(Seq<u8>, Seq<u8>, Option<Seq<u8>>)>;

/// The trust anchor that `rustls::RootCertStore::add` makes of a certificate,
/// or its error as a text.
pub uninterp spec fn trust_anchor(
    der: Seq<u8>,
) -> Result<(Seq<u8>, Seq<u8>, Option<Seq<u8>>), Seq<char>>;

/// The certificates that `rustls_pemfile::certs` finds in a PEM file, or its
/// first error as a text.
pub uninterp spec fn pem_certificates(pem: Seq<u8>) -> Result<Seq<Seq<u8>>, Seq<char>>;

/// The contents of a vector of byte strings.
pub open spec fn byte_strings(v: Seq<Vec<u8>>) -> Seq<Seq<u8>> {
    Seq::new(v.len(), |i: int| v[i]@)
}

/// A result of reading a PEM file, with models for its parts.
pub open spec fn certificates_model(r: Result<Vec<Vec<u8>>, String>) -> Result<
    Seq<Seq<u8>>,
    Seq<char>,
> {
    match r {
        Ok(v) => Ok(byte_strings(v@)),
        Err(e) => Err(e@),
    }
}

/// A result of making a root store, with models for its parts.
pub open spec fn roots_model(r: Result<rustls::RootCertStore, String>) -> Result<
    Seq<(Seq<u8>, Seq<u8>, Option<Seq<u8>>)>,
    Seq<char>,
> {
    match r {
        Ok(store) => Ok(anchors(store)),
        Err(e) => Err(e@),
    }
}

/// A result of reading a file, with models for its parts.
pub open spec fn read_model(r: Result<Vec<u8>, String>) -> Result<Seq<u8>, Seq<char>> {
    match r {
        Ok(v) => Ok(v@),
        Err(e) => Err(e@),
    }
}

/// The anchors of the certificates behind those of `before`, or the error of
/// the first certificate that makes none.
pub open spec fn anchored(
    before: Seq<(Seq<u8>, Seq<u8>, Option<Seq<u8>>)>,
    certificates: Seq<Seq<u8>>,
) -> Result<Seq<(Seq<u8>, Seq<u8>, Option<Seq<u8>>)>, Seq<char>>
    decreases certificates.len(),
{
    if certificates.len() == 0 {
        Ok(before)
    } else {
        match trust_anchor(certificates[0]) {
            Ok(anchor) => anchored(before.push(anchor), certificates.drop_first()),
            Err(e) => Err("pinning TLS cert failed: "@ + e),
        }
    }
}

/// The roots of trust that the certificates found in the file `path` make.
pub open spec fn pinned(
    path: Seq<char>,
    certificates: Result<Seq<Seq<u8>>, Seq<char>>,
) -> Result<Seq<(Seq<u8>, Seq<u8>, Option<Seq<u8>>)>, Seq<char>> {
    match certificates {
        Ok(found) => if found.len() == 0 {
            Err("no certificate found in "@ + path)
        } else {
            anchored(Seq::empty(), found)
        },
        Err(e) => Err("parse TLS cert: "@ + e),
    }
}

/// The roots of trust that the file `path` makes, given what reading it gave.
pub open spec fn pinned_file(
    path: Seq<char>,
    read: Result<Seq<u8>, Seq<char>>,
) -> Result<Seq<(Seq<u8>, Seq<u8>, Option<Seq<u8>>)>, Seq<char>> {
    match read {
        Ok(pem) => pinned(path, pem_certificates(pem)),
        Err(e) => Err("read TLS cert "@ + path + ": "@ + e),
    }
}

/// Calls `rustls_pemfile::certs` on a PEM file in memory and gathers what it
/// yields: the certificates in order, or the first error. Both depend on the
/// file's bytes alone.
#[verifier::external_body]
fn read_certificates(pem: &Vec<u8>) -> (r: Result<Vec<Vec<u8>>, String>)
    ensures
        certificates_model(r) == pem_certificates(pem@),
{
    let mut reader = std::io::BufReader::new(pem.as_slice());
    rustls_pemfile::certs(&mut reader).map(
        |c| c.map(|c| c.as_ref().to_vec()).map_err(|e| e.to_string()),
    ).collect()
}

/// Calls `rustls::RootCertStore::empty`: a store without anchors.
#[verifier::external_body]
fn empty_store() -> (r: rustls::RootCertStore)
    ensures
        anchors(r) == Seq::<(Seq<u8>, Seq<u8>, Option<Seq<u8>>)>::empty(),
{
    rustls::RootCertStore::empty()
}

/// Calls `rustls::RootCertStore::add`: the certificate's anchor is put behind
/// the others, or the store stays as it is and the error is given. Which of
/// the two, and the anchor, depend on the certificate alone.
#[verifier::external_body]
fn add_certificate(store: &mut rustls::RootCertStore, der: &Vec<u8>) -> (r: Result<(), String>)
    ensures
        match trust_anchor(der@) {
            Ok(anchor) => r is Ok && anchors(*final(store)) == anchors(*old(store)).push(anchor),
            Err(e) => r is Err && r->Err_0@ == e && anchors(*final(store)) == anchors(*old(store)),
        },
{
    store.add(rustls::pki_types::CertificateDer::from(der.as_slice())).map_err(|e| e.to_string())
}

/// The roots of trust that the certificates found in the file `path` make.
pub fn pin_certificates(
    path: &str,
    certificates: Result<Vec<Vec<u8>>, String>,
) -> (r: Result<rustls::RootCertStore, String>)
    ensures
        roots_model(r) == pinned(path@, certificates_model(certificates)),
{
    let ghost want = pinned(path@, certificates_model(certificates));
    let found = match certificates {
        Ok(found) => found,
        Err(e) => {
            return Err(text::concat2("parse TLS cert: ", e.as_str()));
        },
    };
    if found.len() == 0 {
        return Err(text::concat2("no certificate found in ", path));
    }
    let ghost all = byte_strings(found@);
    let mut store = empty_store();
    let mut i: usize = 0;
    assert(all.skip(0) =~= all);
    while i < found.len()
        invariant
            i <= found.len(),
            all == byte_strings(found@),
            want == anchored(anchors(store), all.skip(i as int)),
            want == pinned(path@, certificates_model(certificates)),
        decreases found.len() - i,
    {
        let ghost rest = all.skip(i as int);
        assert(rest[0] == found@[i as int]@);
        assert(rest.drop_first() =~= all.skip(i + 1));
        if let Err(e) = add_certificate(&mut store, &found[i]) {
            return Err(text::concat2("pinning TLS cert failed: ", e.as_str()));
        }
        i += 1;
    }
    assert(all.skip(all.len() as int) =~= seq![]);
    Ok(store)
}

/// The roots of trust that trust exactly the certificates in the PEM file
/// `path`, given what reading it gave.
pub fn pinned_tls_config(
    path: &str,
    read: Result<Vec<u8>, String>,
) -> (r: Result<rustls::RootCertStore, String>)
    ensures
        roots_model(r) == pinned_file(path@, read_model(read)),
{
    match read {
        Ok(pem) => pin_certificates(path, read_certificates(&pem)),
        Err(e) => {
            let mut message = text::concat2("read TLS cert ", path);
            message.append(": ");
            message.append(e.as_str());
            Err(message)
        },
    }
}

proof fn lemma_anchored(
    before: Seq<(Seq<u8>, Seq<u8>, Option<Seq<u8>>)>,
    certificates: Seq<Seq<u8>>,
)
    ensures
        anchored(before, certificates) matches Ok(roots) ==> {
            &&& roots.len() == before.len() + certificates.len()
            &&& forall|i: int| 0 <= i < before.len() ==> roots[i] == before[i]
            &&& forall|i: int|
                0 <= i < certificates.len() ==> trust_anchor(#[trigger] certificates[i]) == Ok::<
                    (Seq<u8>, Seq<u8>, Option<Seq<u8>>),
                    Seq<char>,
                >(roots[before.len() + i])
        },
    decreases certificates.len(),
{
    if certificates.len() > 0 {
        if let Ok(anchor) = trust_anchor(certificates[0]) {
            let rest = certificates.drop_first();
            let more = before.push(anchor);
            lemma_anchored(more, rest);
            if let Ok(roots) = anchored(before, certificates) {
                assert(roots[before.len() as int] == more[before.len() as int]);
                assert forall|i: int| 0 <= i < before.len() implies roots[i] == before[i] by {
                    assert(roots[i] == more[i]);
                }
                assert forall|i: int| 0 <= i < certificates.len() implies trust_anchor(
                    #[trigger] certificates[i],
                ) == Ok::<(Seq<u8>, Seq<u8>, Option<Seq<u8>>), Seq<char>>(
                    roots[before.len() + i],
                ) by {
                    if i > 0 {
                        assert(rest[i - 1] == certificates[i]);
                    }
                }
            }
        }
    }
}

/// Pinning trusts exactly the certificates of the file: there is one root of
/// trust for each of them, in order, and there is at least one.
pub proof fn pinning_trusts_exactly_the_file(path: Seq<char>, certificates: Seq<Seq<u8>>)
    ensures
        pinned(path, Ok(certificates)) matches Ok(roots) ==> {
            &&& 0 < roots.len() == certificates.len()
            &&& forall|i: int|
                0 <= i < certificates.len() ==> trust_anchor(#[trigger] certificates[i]) == Ok::<
                    (Seq<u8>, Seq<u8>, Option<Seq<u8>>),
                    Seq<char>,
                >(roots[i])
        },
{
    lemma_anchored(Seq::empty(), certificates);
}

/// Pinning fails exactly if the file cannot be read, cannot be parsed, holds no
/// certificate, or holds one that makes no root of trust; the first of these is
/// the reason.
pub proof fn pinning_fails_for_a_reason(
    path: Seq<char>,
    pem: Seq<u8>,
    certificates: Seq<Seq<u8>>,
    reason: Seq<char>,
    bad: int,
)
    ensures
        pinned_file(path, Err(reason)) == Err::<
            Seq<(Seq<u8>, Seq<u8>, Option<Seq<u8>>)>,
            Seq<char>,
        >("read TLS cert "@ + path + ": "@ + reason),
        pinned_file(path, Ok(pem)) == pinned(path, pem_certificates(pem)),
        pinned(path, Err(reason)) == Err::<Seq<(Seq<u8>, Seq<u8>, Option<Seq<u8>>)>, Seq<char>>(
            "parse TLS cert: "@ + reason,
        ),
        certificates.len() == 0 ==> pinned(path, Ok(certificates)) == Err::<
            Seq<(Seq<u8>, Seq<u8>, Option<Seq<u8>>)>,
            Seq<char>,
        >("no certificate found in "@ + path),
        certificates.len() > 0 ==> (pinned(path, Ok(certificates)) is Ok <==> forall|i: int|
            0 <= i < certificates.len() ==> trust_anchor(#[trigger] certificates[i]) is Ok),
        (0 <= bad < certificates.len() && trust_anchor(certificates[bad]) is Err && forall|i: int|
            0 <= i < bad ==> trust_anchor(#[trigger] certificates[i]) is Ok) ==> pinned(
            path,
            Ok(certificates),
        ) == Err::<Seq<(Seq<u8>, Seq<u8>, Option<Seq<u8>>)>, Seq<char>>(
            "pinning TLS cert failed: "@ + trust_anchor(certificates[bad])->Err_0,
        ),
{
    lemma_anchored(Seq::empty(), certificates);
    lemma_anchored_ok(Seq::empty(), certificates);
    if 0 <= bad < certificates.len() && trust_anchor(certificates[bad]) is Err && (forall|i: int|
        0 <= i < bad ==> trust_anchor(#[trigger] certificates[i]) is Ok) {
        lemma_anchored_bad(Seq::empty(), certificates, bad);
    }
}

proof fn lemma_anchored_ok(
    before: Seq<(Seq<u8>, Seq<u8>, Option<Seq<u8>>)>,
    certificates: Seq<Seq<u8>>,
)
    ensures
        (forall|i: int|
            0 <= i < certificates.len() ==> trust_anchor(#[trigger] certificates[i]) is Ok)
            ==> anchored(before, certificates) is Ok,
    decreases certificates.len(),
{
    if certificates.len() > 0 {
        let rest = certificates.drop_first();
        if forall|i: int|
            0 <= i < certificates.len() ==> trust_anchor(#[trigger] certificates[i]) is Ok {
            assert(trust_anchor(certificates[0]) is Ok);
            assert forall|i: int| 0 <= i < rest.len() implies trust_anchor(
                #[trigger] rest[i],
            ) is Ok by {
                assert(rest[i] == certificates[i + 1]);
            }
            lemma_anchored_ok(before.push(trust_anchor(certificates[0])->Ok_0), rest);
        }
    }
}

proof fn lemma_anchored_bad(
    before: Seq<(Seq<u8>, Seq<u8>, Option<Seq<u8>>)>,
    certificates: Seq<Seq<u8>>,
    bad: int,
)
    requires
        0 <= bad < certificates.len(),
        trust_anchor(certificates[bad]) is Err,
        forall|i: int| 0 <= i < bad ==> trust_anchor(#[trigger] certificates[i]) is Ok,
    ensures
        anchored(before, certificates) == Err::<
            Seq<(Seq<u8>, Seq<u8>, Option<Seq<u8>>)>,
            Seq<char>,
        >("pinning TLS cert failed: "@ + trust_anchor(certificates[bad])->Err_0),
    decreases certificates.len(),
{
    if bad > 0 {
        let rest = certificates.drop_first();
        assert(trust_anchor(certificates[0]) is Ok);
        assert forall|i: int| 0 <= i < bad - 1 implies trust_anchor(#[trigger] rest[i]) is Ok by {
            assert(rest[i] == certificates[i + 1]);
        }
        assert(rest[bad - 1] == certificates[bad]);
        lemma_anchored_bad(before.push(trust_anchor(certificates[0])->Ok_0), rest, bad - 1);
    }
}

} // verus!
