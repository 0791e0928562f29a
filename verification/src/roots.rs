//! Trust bundles, and the rustls root store that is filled from one.

use std::sync::Arc;

use rustls::pki_types::CertificateDer;
use rustls::RootCertStore;
use vstd::prelude::*;
use vstd::slice::slice_to_vec;

use crate::der::consume_one_der;
use crate::error::{Error, ErrorView};
use crate::text::join;

verus! {

/// The root store of rustls: a list of trust anchors.
#[verifier::external_type_specification]
#[verifier::external_body]
pub struct ExRootCertStore(RootCertStore);

/// The trust anchors that a root store holds, in the order in which they were
/// added: of each its subject, its public key info and its name constraints.
pub uninterp spec fn root_anchors(store: RootCertStore) -> Seq<
    (Seq<u8>, Seq<u8>, Option<Seq<u8>>),
>;

/// The trust anchor that rustls reads from a DER certificate (its subject,
/// its public key info and its name constraints), or the text of the error
/// for a certificate that it cannot read.
pub uninterp spec fn trust_anchor(der: Seq<u8>) -> Result<
    (Seq<u8>, Seq<u8>, Option<Seq<u8>>),
    Seq<char>,
>;

/// `RootCertStore::empty` makes a store that holds no trust anchor.
pub assume_specification[ RootCertStore::empty ]() -> (store: RootCertStore)
    ensures
        root_anchors(store) == Seq::<(Seq<u8>, Seq<u8>, Option<Seq<u8>>)>::empty(),
;

/// `RootCertStore::is_empty` tells whether the store holds no trust anchor.
pub assume_specification[ RootCertStore::is_empty ](store: &RootCertStore) -> (r: bool)
    ensures
        r == (root_anchors(*store).len() == 0),
;

/// Calls `RootCertStore::add`: the trust anchor of the certificate goes to the
/// end of the list. If the certificate cannot be read, the store stays as it
/// was and the text of the error comes back. Which certificates can be read,
/// and as which anchor, is left to [`trust_anchor`].
#[verifier::external_body]
fn add_root(store: &mut RootCertStore, der: Vec<u8>) -> (r: Result<(), String>)
    ensures
        match trust_anchor(der@) {
            Ok(anchor) => {
                &&& r is Ok
                &&& root_anchors(*final(store)) == root_anchors(*old(store)).push(anchor)
            },
            Err(m) => {
                &&& r matches Err(text) && text@ == m
                &&& root_anchors(*final(store)) == root_anchors(*old(store))
            },
        },
{
    store.add(CertificateDer::from(der)).map_err(|e| e.to_string())
}

/// The error for a root certificate that the store refused with the text `m`.
pub open spec fn refused_root(m: Seq<char>) -> ErrorView {
    ErrorView::TrustBundle("rustls add: "@ + m)
}

/// The trust anchors `before`, followed by those of the certificates that
/// `bundle` is the concatenation of, or the error of the first certificate
/// that cannot be cut out or is refused.
pub open spec fn anchors_after(
    before: Seq<(Seq<u8>, Seq<u8>, Option<Seq<u8>>)>,
    bundle: Seq<u8>,
) -> Result<Seq<(Seq<u8>, Seq<u8>, Option<Seq<u8>>)>, ErrorView>
    decreases bundle.len(),
{
    if bundle.len() == 0 {
        Ok(before)
    } else {
        match crate::der::der_extent(bundle) {
            Err(m) => Err(ErrorView::X509(m)),
            Ok(n) => match trust_anchor(bundle.take(n as int)) {
                Err(m) => Err(refused_root(m)),
                Ok(anchor) => anchors_after(before.push(anchor), bundle.skip(n as int)),
            },
        }
    }
}

/// The trust anchors of a bundle, or why the bundle is refused.
pub open spec fn anchors_of(bundle: Seq<u8>) -> Result<
    Seq<(Seq<u8>, Seq<u8>, Option<Seq<u8>>)>,
    ErrorView,
> {
    match anchors_after(Seq::empty(), bundle) {
        Err(e) => Err(e),
        Ok(anchors) => if anchors.len() == 0 {
            Err(ErrorView::TrustBundle("no roots in bundle"@))
        } else {
            Ok(anchors)
        },
    }
}

/// What adding a root certificate came to, as an outcome of this crate: the
/// text of a refusal becomes an [`Error::TrustBundle`].
pub fn root_outcome(added: Result<(), String>) -> (r: Result<(), Error>)
    ensures
        match added {
            Ok(_) => r is Ok,
            Err(m) => r matches Err(e) && e@ == refused_root(m@),
        },
{
    match added {
        Ok(()) => Ok(()),
        Err(m) => Err(Error::TrustBundle(join("rustls add: ", m.as_str()))),
    }
}

/// Fills a root store from a trust bundle, which the workload API delivers as
/// one run of concatenated DER certificates. A bundle without any root is
/// refused.
pub fn build_root_store(bundle_der: &[u8]) -> (r: Result<Arc<RootCertStore>, Error>)
    ensures
        match anchors_of(bundle_der@) {
            Ok(anchors) => r matches Ok(store) && root_anchors(*store) == anchors,
            Err(m) => r matches Err(e) && e@ == m,
        },
{
    let mut store = RootCertStore::empty();
    let mut rest: &[u8] = bundle_der;
    while rest.len() > 0
        invariant
            anchors_after(root_anchors(store), rest@) == anchors_after(
                Seq::empty(),
                bundle_der@,
            ),
        decreases rest@.len(),
    {
        match consume_one_der(rest) {
            Err(e) => {
                return Err(e);
            },
            Ok((next, consumed)) => {
                proof {
                    assert(rest@.skip(consumed@.len() as int) =~= next@);
                    assert(rest@.take(consumed@.len() as int) =~= consumed@);
                }
                match root_outcome(add_root(&mut store, slice_to_vec(consumed))) {
                    Err(e) => {
                        return Err(e);
                    },
                    Ok(()) => {},
                }
                rest = next;
            },
        }
    }
    if store.is_empty() {
        return Err(Error::TrustBundle("no roots in bundle".to_owned()));
    }
    Ok(Arc::new(store))
}

/// Certificates that are added one after another end up after those that were
/// there before.
proof fn lemma_anchors_of_readable_roots(
    before: Seq<(Seq<u8>, Seq<u8>, Option<Seq<u8>>)>,
    certs: Seq<Seq<u8>>,
)
    requires
        forall|i: int| 0 <= i < certs.len() ==> crate::der::is_one_der(#[trigger] certs[i]),
        forall|i: int| 0 <= i < certs.len() ==> trust_anchor(#[trigger] certs[i]) is Ok,
    ensures
        anchors_after(before, certs.flatten()) == Ok::<
            Seq<(Seq<u8>, Seq<u8>, Option<Seq<u8>>)>,
            ErrorView,
        >(before + certs.map_values(|c: Seq<u8>| trust_anchor(c)->Ok_0)),
    decreases certs.len(),
{
    let anchors = certs.map_values(|c: Seq<u8>| trust_anchor(c)->Ok_0);
    if certs.len() == 0 {
        assert(before + anchors =~= before);
    } else {
        let first = certs.first();
        let rest = certs.drop_first();
        assert(crate::der::is_one_der(certs[0]) && trust_anchor(certs[0]) is Ok);
        assert forall|i: int| 0 <= i < rest.len() implies crate::der::is_one_der(#[trigger] rest[i])
            && trust_anchor(rest[i]) is Ok by {
            assert(rest[i] == certs[i + 1]);
        }
        let whole = certs.flatten();
        crate::der::lemma_extent_of_prefix(first, rest.flatten());
        assert(whole == first + rest.flatten());
        assert(whole.skip(first.len() as int) =~= rest.flatten());
        assert(whole.take(first.len() as int) =~= first);
        let anchor = trust_anchor(first)->Ok_0;
        lemma_anchors_of_readable_roots(before.push(anchor), rest);
        assert(before.push(anchor) + rest.map_values(|c: Seq<u8>| trust_anchor(c)->Ok_0) =~= before
            + anchors);
    }
}

/// A bundle of readable roots is trusted as a whole: the store holds the trust
/// anchor of each of its certificates, in order.
pub proof fn law_every_root_of_a_bundle_is_trusted(certs: Seq<Seq<u8>>)
    requires
        certs.len() > 0,
        forall|i: int| 0 <= i < certs.len() ==> crate::der::is_one_der(#[trigger] certs[i]),
        forall|i: int| 0 <= i < certs.len() ==> trust_anchor(#[trigger] certs[i]) is Ok,
    ensures
        anchors_of(certs.flatten()) == Ok::<
            Seq<(Seq<u8>, Seq<u8>, Option<Seq<u8>>)>,
            ErrorView,
        >(certs.map_values(|c: Seq<u8>| trust_anchor(c)->Ok_0)),
{
    let anchors = certs.map_values(|c: Seq<u8>| trust_anchor(c)->Ok_0);
    lemma_anchors_of_readable_roots(Seq::empty(), certs);
    assert(Seq::<(Seq<u8>, Seq<u8>, Option<Seq<u8>>)>::empty() + anchors =~= anchors);
}

/// Readable roots at the start of a bundle are added one after another, and
/// then the bundle is treated as what follows them would be by itself.
proof fn lemma_bundle_continues_after_its_roots(
    before: Seq<(Seq<u8>, Seq<u8>, Option<Seq<u8>>)>,
    certs: Seq<Seq<u8>>,
    tail: Seq<u8>,
)
    requires
        forall|i: int| 0 <= i < certs.len() ==> crate::der::is_tlv(#[trigger] certs[i]),
        forall|i: int| 0 <= i < certs.len() ==> trust_anchor(#[trigger] certs[i]) is Ok,
    ensures
        anchors_after(before, certs.flatten() + tail) == anchors_after(
            before + certs.map_values(|c: Seq<u8>| trust_anchor(c)->Ok_0),
            tail,
        ),
    decreases certs.len(),
{
    let anchors = certs.map_values(|c: Seq<u8>| trust_anchor(c)->Ok_0);
    if certs.len() == 0 {
        assert(before + anchors =~= before);
        assert(certs.flatten() + tail =~= tail);
    } else {
        let first = certs.first();
        let rest = certs.drop_first();
        assert(crate::der::is_tlv(certs[0]) && trust_anchor(certs[0]) is Ok);
        assert forall|i: int| 0 <= i < rest.len() implies crate::der::is_tlv(#[trigger] rest[i])
            && trust_anchor(rest[i]) is Ok by {
            assert(rest[i] == certs[i + 1]);
        }
        let whole = certs.flatten() + tail;
        assert(certs.flatten() == first + rest.flatten());
        assert(whole =~= first + (rest.flatten() + tail));
        crate::der::law_structure_is_found_where_it_stands(first, rest.flatten() + tail);
        assert(whole.skip(first.len() as int) =~= rest.flatten() + tail);
        assert(whole.take(first.len() as int) =~= first);
        let anchor = trust_anchor(first)->Ok_0;
        lemma_bundle_continues_after_its_roots(before.push(anchor), rest, tail);
        assert(before.push(anchor) + rest.map_values(|c: Seq<u8>| trust_anchor(c)->Ok_0) =~= before
            + anchors);
    }
}

/// A bundle of at least one readable root is accepted, and its anchors are
/// those of its roots, in order, none left out and none added.
pub proof fn law_anchors_are_those_of_the_roots(certs: Seq<Seq<u8>>)
    requires
        certs.len() > 0,
        forall|i: int| 0 <= i < certs.len() ==> crate::der::is_tlv(#[trigger] certs[i]),
        forall|i: int| 0 <= i < certs.len() ==> trust_anchor(#[trigger] certs[i]) is Ok,
    ensures
        anchors_of(certs.flatten()) == Ok::<
            Seq<(Seq<u8>, Seq<u8>, Option<Seq<u8>>)>,
            ErrorView,
        >(certs.map_values(|c: Seq<u8>| trust_anchor(c)->Ok_0)),
{
    let anchors = certs.map_values(|c: Seq<u8>| trust_anchor(c)->Ok_0);
    lemma_bundle_continues_after_its_roots(Seq::empty(), certs, Seq::empty());
    assert(certs.flatten() + Seq::<u8>::empty() =~= certs.flatten());
    assert(Seq::<(Seq<u8>, Seq<u8>, Option<Seq<u8>>)>::empty() + anchors =~= anchors);
}

/// A bundle without a byte is refused for want of a root.
pub proof fn law_bundle_without_a_byte_is_refused(bundle: Seq<u8>)
    requires
        bundle.len() == 0,
    ensures
        anchors_of(bundle) == Err::<Seq<(Seq<u8>, Seq<u8>, Option<Seq<u8>>)>, ErrorView>(
            ErrorView::TrustBundle("no roots in bundle"@),
        ),
{
}

/// One root that rustls refuses is enough to refuse the bundle, wherever it
/// stands after readable roots and whatever follows it, and the error gives
/// the words of rustls.
pub proof fn law_refused_root_refuses_the_bundle(
    certs: Seq<Seq<u8>>,
    bad: Seq<u8>,
    tail: Seq<u8>,
    m: Seq<char>,
)
    requires
        forall|i: int| 0 <= i < certs.len() ==> crate::der::is_tlv(#[trigger] certs[i]),
        forall|i: int| 0 <= i < certs.len() ==> trust_anchor(#[trigger] certs[i]) is Ok,
        crate::der::is_tlv(bad),
        trust_anchor(bad) == Err::<(Seq<u8>, Seq<u8>, Option<Seq<u8>>), Seq<char>>(m),
    ensures
        anchors_of(certs.flatten() + (bad + tail)) == Err::<
            Seq<(Seq<u8>, Seq<u8>, Option<Seq<u8>>)>,
            ErrorView,
        >(ErrorView::TrustBundle("rustls add: "@ + m)),
{
    lemma_bundle_continues_after_its_roots(Seq::empty(), certs, bad + tail);
    crate::der::law_structure_is_found_where_it_stands(bad, tail);
    assert((bad + tail).take(bad.len() as int) =~= bad);
}

/// A bundle with something that is no DER structure after its readable roots
/// is refused, with the message that belongs to it.
pub proof fn law_unreadable_tail_refuses_the_bundle(
    certs: Seq<Seq<u8>>,
    tail: Seq<u8>,
    m: Seq<char>,
)
    requires
        forall|i: int| 0 <= i < certs.len() ==> crate::der::is_tlv(#[trigger] certs[i]),
        forall|i: int| 0 <= i < certs.len() ==> trust_anchor(#[trigger] certs[i]) is Ok,
        tail.len() > 0,
        crate::der::der_extent(tail) == Err::<nat, Seq<char>>(m),
    ensures
        anchors_of(certs.flatten() + tail) == Err::<
            Seq<(Seq<u8>, Seq<u8>, Option<Seq<u8>>)>,
            ErrorView,
        >(ErrorView::X509(m)),
{
    lemma_bundle_continues_after_its_roots(Seq::empty(), certs, tail);
}

/// The error for a refused root gives the words of rustls.
pub proof fn law_refusal_of_a_root_is_quoted(m: Seq<char>)
    ensures
        refused_root(m) == ErrorView::TrustBundle("rustls add: "@ + m),
{
}

} // verus!
