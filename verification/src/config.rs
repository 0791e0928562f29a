//! What a TLS server or client is configured with, put together from an SVID
//! and an allow-list.

use std::sync::Arc;

use rustls::pki_types::ServerName;
use rustls::Error as TlsError;
use rustls::RootCertStore;
use vstd::prelude::*;

use crate::error::{Error, ErrorView};
use crate::peer::{PeerIdentity, RefusalView, RejectionView, SpiffeIdAllowList, VerifyError};
use crate::roots::build_root_store;
use crate::svid::{decode_cert_chain, decode_private_key, Pkcs8Key, X509Svid};
use crate::text::join;
use crate::webpki::{client_verdict, try_client_verifier, Mode, SpiffeIdVerifier};

verus! {

/// The chain, the key and the trust anchors of an SVID, or the first error
/// that is met, in this order.
pub open spec fn credentials_of(svid: X509Svid) -> Result<
    (Seq<Seq<u8>>, Seq<u8>, Seq<(Seq<u8>, Seq<u8>, Option<Seq<u8>>)>),
    ErrorView,
> {
    match crate::svid::chain_of(svid.cert_chain_der@) {
        Err(e) => Err(e),
        Ok(chain) => match crate::svid::key_of(svid.private_key_der@) {
            Err(e) => Err(e),
            Ok(key) => match crate::roots::anchors_of(svid.bundle_der@) {
                Err(e) => Err(e),
                Ok(anchors) => Ok((chain, key, anchors)),
            },
        },
    }
}

/// An SVID without a certificate is refused for that, whatever its key and its
/// bundle are.
pub proof fn law_empty_chain_is_refused(svid: X509Svid)
    requires
        svid.cert_chain_der@.len() == 0,
    ensures
        credentials_of(svid) == Err::<
            (Seq<Seq<u8>>, Seq<u8>, Seq<(Seq<u8>, Seq<u8>, Option<Seq<u8>>)>),
            ErrorView,
        >(ErrorView::InvalidChain("empty chain"@)),
{
}

/// An SVID that is accepted is used whole: the chain presented is the SVID's,
/// so is the key, and there is at least one trust anchor.
pub proof fn law_accepted_svid_is_used_whole(svid: X509Svid)
    ensures
        credentials_of(svid) matches Ok((chain, key, anchors)) ==> {
            &&& chain.len() > 0
            &&& chain.flatten() == svid.cert_chain_der@
            &&& key.len() > 0
            &&& key == svid.private_key_der@
            &&& anchors.len() > 0
        },
{
    crate::svid::law_decoded_chain_is_the_whole_chain(svid.cert_chain_der@);
}

/// The trust anchors of an accepted SVID are those of its bundle: one for each
/// root in the bundle, in order, none left out and none from elsewhere.
pub proof fn law_anchors_come_from_the_bundle(svid: X509Svid, roots: Seq<Seq<u8>>)
    requires
        forall|i: int| 0 <= i < roots.len() ==> crate::der::is_tlv(#[trigger] roots[i]),
        forall|i: int|
            0 <= i < roots.len() ==> crate::roots::trust_anchor(#[trigger] roots[i]) is Ok,
        svid.bundle_der@ == roots.flatten(),
    ensures
        credentials_of(svid) matches Ok((chain, key, anchors)) ==> anchors == roots.map_values(
            |c: Seq<u8>| crate::roots::trust_anchor(c)->Ok_0,
        ),
{
    if roots.len() > 0 {
        crate::roots::law_anchors_are_those_of_the_roots(roots);
    } else {
        assert(roots.flatten().len() == 0);
    }
}

/// A good SVID is accepted and used as it is: with a chain of DER structures,
/// a key that is not empty, and a bundle of readable roots, the credentials
/// are these structures, this key and the trust anchors of these roots.
pub proof fn law_good_svid_is_accepted(
    svid: X509Svid,
    certs: Seq<Seq<u8>>,
    roots: Seq<Seq<u8>>,
)
    requires
        certs.len() > 0,
        forall|i: int| 0 <= i < certs.len() ==> crate::der::is_tlv(#[trigger] certs[i]),
        svid.cert_chain_der@ == certs.flatten(),
        svid.private_key_der@.len() > 0,
        roots.len() > 0,
        forall|i: int| 0 <= i < roots.len() ==> crate::der::is_tlv(#[trigger] roots[i]),
        forall|i: int|
            0 <= i < roots.len() ==> crate::roots::trust_anchor(#[trigger] roots[i]) is Ok,
        svid.bundle_der@ == roots.flatten(),
    ensures
        credentials_of(svid) == Ok::<
            (Seq<Seq<u8>>, Seq<u8>, Seq<(Seq<u8>, Seq<u8>, Option<Seq<u8>>)>),
            ErrorView,
        >(
            (
                certs,
                svid.private_key_der@,
                roots.map_values(|c: Seq<u8>| crate::roots::trust_anchor(c)->Ok_0),
            ),
        ),
{
    crate::svid::law_chain_of_structures_is_accepted(certs);
    crate::svid::law_any_key_but_an_empty_one_is_kept(svid.private_key_der@);
    crate::roots::law_anchors_are_those_of_the_roots(roots);
}

/// An SVID whose chain has something unreadable after its first structures is
/// refused for that, whatever its key and its bundle are.
pub proof fn law_unreadable_chain_is_refused(
    svid: X509Svid,
    certs: Seq<Seq<u8>>,
    tail: Seq<u8>,
    m: Seq<char>,
)
    requires
        forall|i: int| 0 <= i < certs.len() ==> crate::der::is_tlv(#[trigger] certs[i]),
        tail.len() > 0,
        crate::der::der_extent(tail) == Err::<nat, Seq<char>>(m),
        svid.cert_chain_der@ == certs.flatten() + tail,
    ensures
        credentials_of(svid) == Err::<
            (Seq<Seq<u8>>, Seq<u8>, Seq<(Seq<u8>, Seq<u8>, Option<Seq<u8>>)>),
            ErrorView,
        >(ErrorView::X509(m)),
{
    crate::svid::law_chain_with_unreadable_tail_is_refused(certs, tail, m);
}

/// An SVID with a good chain and an empty key is refused for the key, whatever
/// its bundle is.
pub proof fn law_empty_key_is_refused(svid: X509Svid, certs: Seq<Seq<u8>>)
    requires
        certs.len() > 0,
        forall|i: int| 0 <= i < certs.len() ==> crate::der::is_tlv(#[trigger] certs[i]),
        svid.cert_chain_der@ == certs.flatten(),
        svid.private_key_der@.len() == 0,
    ensures
        credentials_of(svid) == Err::<
            (Seq<Seq<u8>>, Seq<u8>, Seq<(Seq<u8>, Seq<u8>, Option<Seq<u8>>)>),
            ErrorView,
        >(ErrorView::InvalidKey("empty key"@)),
{
    crate::svid::law_chain_of_structures_is_accepted(certs);
    crate::svid::law_any_key_but_an_empty_one_is_kept(svid.private_key_der@);
}

/// An SVID with a good chain and a key, but without a root, is refused for
/// that.
pub proof fn law_empty_bundle_is_refused(svid: X509Svid, certs: Seq<Seq<u8>>)
    requires
        certs.len() > 0,
        forall|i: int| 0 <= i < certs.len() ==> crate::der::is_tlv(#[trigger] certs[i]),
        svid.cert_chain_der@ == certs.flatten(),
        svid.private_key_der@.len() > 0,
        svid.bundle_der@.len() == 0,
    ensures
        credentials_of(svid) == Err::<
            (Seq<Seq<u8>>, Seq<u8>, Seq<(Seq<u8>, Seq<u8>, Option<Seq<u8>>)>),
            ErrorView,
        >(ErrorView::TrustBundle("no roots in bundle"@)),
{
    crate::svid::law_chain_of_structures_is_accepted(certs);
    crate::svid::law_any_key_but_an_empty_one_is_kept(svid.private_key_der@);
    crate::roots::law_bundle_without_a_byte_is_refused(svid.bundle_der@);
}

/// An SVID with a good chain and a key, but with a root that rustls refuses,
/// is refused for that root, in the words of rustls, whatever follows it.
pub proof fn law_refused_root_refuses_the_svid(
    svid: X509Svid,
    certs: Seq<Seq<u8>>,
    roots: Seq<Seq<u8>>,
    bad: Seq<u8>,
    tail: Seq<u8>,
    m: Seq<char>,
)
    requires
        certs.len() > 0,
        forall|i: int| 0 <= i < certs.len() ==> crate::der::is_tlv(#[trigger] certs[i]),
        svid.cert_chain_der@ == certs.flatten(),
        svid.private_key_der@.len() > 0,
        forall|i: int| 0 <= i < roots.len() ==> crate::der::is_tlv(#[trigger] roots[i]),
        forall|i: int|
            0 <= i < roots.len() ==> crate::roots::trust_anchor(#[trigger] roots[i]) is Ok,
        crate::der::is_tlv(bad),
        crate::roots::trust_anchor(bad) == Err::<
            (Seq<u8>, Seq<u8>, Option<Seq<u8>>),
            Seq<char>,
        >(m),
        svid.bundle_der@ == roots.flatten() + (bad + tail),
    ensures
        credentials_of(svid) == Err::<
            (Seq<Seq<u8>>, Seq<u8>, Seq<(Seq<u8>, Seq<u8>, Option<Seq<u8>>)>),
            ErrorView,
        >(ErrorView::TrustBundle("rustls add: "@ + m)),
{
    crate::svid::law_chain_of_structures_is_accepted(certs);
    crate::svid::law_any_key_but_an_empty_one_is_kept(svid.private_key_der@);
    crate::roots::law_refused_root_refuses_the_bundle(roots, bad, tail, m);
}

/// An SVID with a good chain and a key, but with a bundle that goes on after
/// its readable roots with something unreadable, is refused for that.
pub proof fn law_unreadable_bundle_is_refused(
    svid: X509Svid,
    certs: Seq<Seq<u8>>,
    roots: Seq<Seq<u8>>,
    tail: Seq<u8>,
    m: Seq<char>,
)
    requires
        certs.len() > 0,
        forall|i: int| 0 <= i < certs.len() ==> crate::der::is_tlv(#[trigger] certs[i]),
        svid.cert_chain_der@ == certs.flatten(),
        svid.private_key_der@.len() > 0,
        forall|i: int| 0 <= i < roots.len() ==> crate::der::is_tlv(#[trigger] roots[i]),
        forall|i: int|
            0 <= i < roots.len() ==> crate::roots::trust_anchor(#[trigger] roots[i]) is Ok,
        tail.len() > 0,
        crate::der::der_extent(tail) == Err::<nat, Seq<char>>(m),
        svid.bundle_der@ == roots.flatten() + tail,
    ensures
        credentials_of(svid) == Err::<
            (Seq<Seq<u8>>, Seq<u8>, Seq<(Seq<u8>, Seq<u8>, Option<Seq<u8>>)>),
            ErrorView,
        >(ErrorView::X509(m)),
{
    crate::svid::law_chain_of_structures_is_accepted(certs);
    crate::svid::law_any_key_but_an_empty_one_is_kept(svid.private_key_der@);
    crate::roots::law_unreadable_tail_refuses_the_bundle(roots, tail, m);
}

/// Two SVIDs with the same chain, key and bundle come to the same, whatever
/// SPIFFE-ID and hint go with them.
pub proof fn law_id_and_hint_do_not_matter(one: X509Svid, other: X509Svid)
    requires
        one.cert_chain_der@ == other.cert_chain_der@,
        one.private_key_der@ == other.private_key_der@,
        one.bundle_der@ == other.bundle_der@,
    ensures
        credentials_of(one) == credentials_of(other),
{
}

/// How a server verifies the certificates of its clients.
pub enum ClientVerifier {
    /// By their chain alone, with the plain webpki verifier over these roots:
    /// any certificate from the trust domain will do.
    WebPki(Arc<RootCertStore>),
    /// By their chain and their SPIFFE-ID.
    SpiffeId(SpiffeIdVerifier),
}

impl ClientVerifier {
    /// The trust anchors that chains must lead to.
    pub open spec fn anchors(self) -> Seq<(Seq<u8>, Seq<u8>, Option<Seq<u8>>)> {
        match self {
            ClientVerifier::WebPki(roots) => crate::roots::root_anchors(*roots),
            ClientVerifier::SpiffeId(v) => v.anchors(),
        }
    }

    /// Whether this is the verifier that an allow-list asks for: without one
    /// the plain webpki verifier, with one the SPIFFE-ID verifier for it.
    pub open spec fn answers(self, allow: Option<Seq<Seq<char>>>) -> bool {
        match self {
            ClientVerifier::WebPki(_) => allow is None,
            ClientVerifier::SpiffeId(v) => {
                &&& allow is Some
                &&& v.allowed() == allow
                &&& v.spec_mode() == Mode::Client
            },
        }
    }
}

/// The outcome on a client where webpki alone decides: its verdict, and no
/// identity.
pub open spec fn webpki_outcome(verdict: Result<(), TlsError>) -> Result<
    Option<Seq<char>>,
    RefusalView,
> {
    match verdict {
        Ok(_) => Ok(None),
        Err(e) => Err(RefusalView::Chain(e)),
    }
}

/// The outcome of a client verification, seen as the SPIFFE-ID of the peer, if
/// one was asked for, or what the refusal says.
pub open spec fn client_outcome_view(
    outcome: Result<Option<PeerIdentity>, VerifyError>,
) -> Result<Option<Seq<char>>, RefusalView> {
    match outcome {
        Ok(None) => Ok(None),
        Ok(Some(peer)) => Ok(Some(peer.spiffe_id@)),
        Err(e) => Err(e@),
    }
}

impl ClientVerifier {
    /// There is a trust anchor, and the verifier is one for clients.
    pub open spec fn wf(self) -> bool {
        &&& self.anchors().len() > 0
        &&& self matches ClientVerifier::SpiffeId(v) ==> v.spec_mode() == Mode::Client
    }

    /// The decision on a client with this certificate, given the verdict on
    /// its chain.
    pub open spec fn decision(self, verdict: Result<(), TlsError>, end_entity: Seq<u8>) -> Result<
        Option<Seq<char>>,
        RefusalView,
    > {
        match self {
            ClientVerifier::WebPki(_) => webpki_outcome(verdict),
            ClientVerifier::SpiffeId(v) => match v.decision(verdict, end_entity) {
                Ok(id) => Ok(Some(id)),
                Err(refusal) => Err(refusal),
            },
        }
    }

    /// Whether the verifier may come to `outcome` on a client: it does if
    /// webpki can come to a verdict on the chain for which that is the
    /// decision.
    pub open spec fn may_answer(
        self,
        end_entity: Seq<u8>,
        intermediates: Seq<Seq<u8>>,
        now: u64,
        outcome: Result<Option<Seq<char>>, RefusalView>,
    ) -> bool {
        exists|verdict: Result<(), TlsError>|
            {
                &&& #[trigger] crate::webpki::client_chain_verdict(
                    self.anchors(),
                    end_entity,
                    intermediates,
                    now,
                    verdict,
                )
                &&& outcome == self.decision(verdict, end_entity)
            }
    }

    /// Verifies the certificate of a client at the time `now`, in seconds
    /// since the Unix epoch. The identity comes back if one was asked for.
    pub fn verify_client_cert(
        &self,
        end_entity: &[u8],
        intermediates: &[Vec<u8>],
        now: u64,
    ) -> (r: Result<Option<PeerIdentity>, VerifyError>)
        requires
            self.wf(),
        ensures
            self.may_answer(
                end_entity@,
                crate::svid::byte_strings(intermediates@),
                now,
                client_outcome_view(r),
            ),
    {
        match self {
            ClientVerifier::WebPki(roots) => match client_verdict(
                roots,
                end_entity,
                intermediates,
                now,
            ) {
                Ok(()) => Ok(None),
                Err(e) => Err(VerifyError::Chain(e)),
            },
            ClientVerifier::SpiffeId(v) => match v.verify_client_cert(
                end_entity,
                intermediates,
                now,
            ) {
                Ok(peer) => Ok(Some(peer)),
                Err(e) => Err(e),
            },
        }
    }
}

/// Without an allow-list webpki alone decides: what the verifier may answer is
/// what webpki can say of the chain, and nothing else. In particular a client
/// with a good chain is accepted whatever SPIFFE-ID it has, or none, and a
/// client that webpki refuses is refused with the same error.
pub proof fn law_without_allow_list_webpki_decides(
    v: ClientVerifier,
    end_entity: Seq<u8>,
    intermediates: Seq<Seq<u8>>,
    now: u64,
    verdict: Result<(), TlsError>,
    outcome: Result<Option<Seq<char>>, RefusalView>,
)
    requires
        v.answers(None),
    ensures
        v.may_answer(end_entity, intermediates, now, webpki_outcome(verdict))
            == crate::webpki::client_chain_verdict(
            v.anchors(),
            end_entity,
            intermediates,
            now,
            verdict,
        ),
        v.may_answer(end_entity, intermediates, now, outcome) ==> exists|w: Result<(), TlsError>|
            outcome == #[trigger] webpki_outcome(w),
{
    if v.may_answer(end_entity, intermediates, now, webpki_outcome(verdict)) {
        let w = choose|w: Result<(), TlsError>|
            {
                &&& #[trigger] crate::webpki::client_chain_verdict(
                    v.anchors(),
                    end_entity,
                    intermediates,
                    now,
                    w,
                )
                &&& webpki_outcome(verdict) == v.decision(w, end_entity)
            };
        if w is Ok {
            assert(w->Ok_0 == () && verdict->Ok_0 == ());
        }
        assert(w == verdict);
    }
}

/// With an allow-list a client is accepted only with a listed SPIFFE-ID.
pub proof fn law_with_allow_list_only_listed_clients(
    v: ClientVerifier,
    ids: Seq<Seq<char>>,
    end_entity: Seq<u8>,
    intermediates: Seq<Seq<u8>>,
    now: u64,
    outcome: Option<Seq<char>>,
)
    requires
        v.answers(Some(ids)),
        v.may_answer(end_entity, intermediates, now, Ok(outcome)),
    ensures
        outcome matches Some(id) && ids.contains(id),
        crate::webpki::client_chain_verdict(
            v.anchors(),
            end_entity,
            intermediates,
            now,
            Ok(()),
        ),
{
    let inner = v->SpiffeId_0;
    let id = outcome->0;
    assert(inner.may_answer_client(end_entity, intermediates, now, Ok(id)));
    crate::webpki::law_accepted_client_is_trusted_and_allowed(
        inner,
        end_entity,
        intermediates,
        now,
        id,
    );
}

/// Without an allow-list a client is accepted, without an identity, exactly if
/// webpki can find its chain good, and refused exactly with the errors that
/// webpki can give. Its SPIFFE-ID is never asked for.
pub proof fn law_outcomes_without_allow_list(
    v: ClientVerifier,
    end_entity: Seq<u8>,
    intermediates: Seq<Seq<u8>>,
    now: u64,
    outcome: Result<Option<Seq<char>>, RefusalView>,
)
    requires
        v.answers(None),
    ensures
        v.may_answer(end_entity, intermediates, now, outcome) <==> match outcome {
            Ok(None) => crate::webpki::client_chain_verdict(
                v.anchors(),
                end_entity,
                intermediates,
                now,
                Ok(()),
            ),
            Err(RefusalView::Chain(e)) => crate::webpki::client_chain_verdict(
                v.anchors(),
                end_entity,
                intermediates,
                now,
                Err(e),
            ),
            Ok(Some(_)) => false,
            Err(RefusalView::Peer(_)) => false,
        },
{
    let verdict: Result<(), TlsError> = match outcome {
        Err(RefusalView::Chain(e)) => Err(e),
        _ => Ok(()),
    };
    law_without_allow_list_webpki_decides(
        v,
        end_entity,
        intermediates,
        now,
        verdict,
        outcome,
    );
}

/// What the SPIFFE-ID verifier may answer is what is answered with it.
proof fn lemma_answers_of_the_spiffe_id_verifier(
    inner: SpiffeIdVerifier,
    end_entity: Seq<u8>,
    intermediates: Seq<Seq<u8>>,
    now: u64,
    given: Result<Seq<char>, RefusalView>,
)
    ensures
        inner.may_answer_client(end_entity, intermediates, now, given)
            == ClientVerifier::SpiffeId(inner).may_answer(
            end_entity,
            intermediates,
            now,
            match given {
                Ok(id) => Ok(Some(id)),
                Err(refusal) => Err(refusal),
            },
        ),
{
    let v = ClientVerifier::SpiffeId(inner);
    let outcome = match given {
        Ok(id) => Ok(Some(id)),
        Err(refusal) => Err(refusal),
    };
    if inner.may_answer_client(end_entity, intermediates, now, given) {
        let w = choose|w: Result<(), TlsError>|
            {
                &&& #[trigger] crate::webpki::client_chain_verdict(
                    inner.anchors(),
                    end_entity,
                    intermediates,
                    now,
                    w,
                )
                &&& given == inner.decision(w, end_entity)
            };
        assert(crate::webpki::client_chain_verdict(
            v.anchors(),
            end_entity,
            intermediates,
            now,
            w,
        ));
    }
    if v.may_answer(end_entity, intermediates, now, outcome) {
        let w = choose|w: Result<(), TlsError>|
            {
                &&& #[trigger] crate::webpki::client_chain_verdict(
                    v.anchors(),
                    end_entity,
                    intermediates,
                    now,
                    w,
                )
                &&& outcome == v.decision(w, end_entity)
            };
        assert(given == inner.decision(w, end_entity));
    }
}

/// With an allow-list a client is answered by its chain, its SPIFFE-ID and the
/// list, and each answer comes exactly where it is called for.
pub proof fn law_outcomes_with_allow_list(
    v: ClientVerifier,
    ids: Seq<Seq<char>>,
    end_entity: Seq<u8>,
    intermediates: Seq<Seq<u8>>,
    now: u64,
    outcome: Result<Option<Seq<char>>, RefusalView>,
)
    requires
        v.answers(Some(ids)),
    ensures
        v.may_answer(end_entity, intermediates, now, outcome) <==> match outcome {
            Ok(None) => false,
            Err(RefusalView::Chain(e)) => crate::webpki::client_chain_verdict(
                v.anchors(),
                end_entity,
                intermediates,
                now,
                Err(e),
            ),
            Ok(Some(own)) => {
                &&& crate::webpki::client_chain_verdict(
                    v.anchors(),
                    end_entity,
                    intermediates,
                    now,
                    Ok(()),
                )
                &&& crate::certificate::certificate_extensions(end_entity) matches Ok(extensions)
                &&& crate::certificate::spiffe_id_of(extensions) == Some(own)
                &&& ids.contains(own)
            },
            Err(RefusalView::Peer(RejectionView::Unreadable(m))) => {
                &&& crate::webpki::client_chain_verdict(
                    v.anchors(),
                    end_entity,
                    intermediates,
                    now,
                    Ok(()),
                )
                &&& crate::certificate::certificate_extensions(end_entity) == Err::<
                    Option<Seq<(Seq<u8>, Seq<u8>)>>,
                    Seq<char>,
                >(m)
            },
            Err(RefusalView::Peer(RejectionView::NoSpiffeId)) => {
                &&& crate::webpki::client_chain_verdict(
                    v.anchors(),
                    end_entity,
                    intermediates,
                    now,
                    Ok(()),
                )
                &&& crate::certificate::certificate_extensions(end_entity) matches Ok(extensions)
                &&& crate::certificate::spiffe_id_of(extensions) is None
            },
            Err(RefusalView::Peer(RejectionView::NotAllowed(own))) => {
                &&& crate::webpki::client_chain_verdict(
                    v.anchors(),
                    end_entity,
                    intermediates,
                    now,
                    Ok(()),
                )
                &&& crate::certificate::certificate_extensions(end_entity) matches Ok(extensions)
                &&& crate::certificate::spiffe_id_of(extensions) == Some(own)
                &&& !ids.contains(own)
            },
        },
{
    let inner = v->SpiffeId_0;
    let given = match outcome {
        Ok(id) => Ok(id->0),
        Err(refusal) => Err(refusal),
    };
    crate::webpki::law_client_outcomes(inner, end_entity, intermediates, now, given);
    lemma_answers_of_the_spiffe_id_verifier(inner, end_entity, intermediates, now, given);
}

/// A client with a listed SPIFFE-ID, and a chain on which webpki comes to no
/// verdict but a good one, is accepted as itself, however many SPIFFE-IDs the
/// allow-list has.
pub proof fn law_with_allow_list_listed_clients_are_accepted(
    v: ClientVerifier,
    ids: Seq<Seq<char>>,
    end_entity: Seq<u8>,
    intermediates: Seq<Seq<u8>>,
    now: u64,
    id: Seq<char>,
    outcome: Result<Option<Seq<char>>, RefusalView>,
)
    requires
        v.answers(Some(ids)),
        forall|verdict: Result<(), TlsError>| #[trigger]
            crate::webpki::client_chain_verdict(
                v.anchors(),
                end_entity,
                intermediates,
                now,
                verdict,
            ) ==> verdict is Ok,
        crate::certificate::certificate_extensions(end_entity) is Ok,
        crate::certificate::spiffe_id_of(
            crate::certificate::certificate_extensions(end_entity)->Ok_0,
        ) == Some(id),
        ids.contains(id),
        v.may_answer(end_entity, intermediates, now, outcome),
    ensures
        outcome == Ok::<Option<Seq<char>>, RefusalView>(Some(id)),
{
    law_outcomes_with_allow_list(v, ids, end_entity, intermediates, now, outcome);
}

/// Which verifier answers an allow-list: without one the webpki verifier over
/// the given roots, with one the SPIFFE-ID verifier for clients with just
/// that list. The trust anchors are those of the roots either way.
pub proof fn law_verifier_for_an_allow_list(
    roots: Arc<RootCertStore>,
    inner: SpiffeIdVerifier,
    ids: Seq<Seq<char>>,
)
    ensures
        ClientVerifier::WebPki(roots).anchors() == crate::roots::root_anchors(*roots),
        ClientVerifier::SpiffeId(inner).anchors() == inner.anchors(),
        ClientVerifier::WebPki(roots).answers(None),
        !ClientVerifier::WebPki(roots).answers(Some(ids)),
        !ClientVerifier::SpiffeId(inner).answers(None),
        ClientVerifier::SpiffeId(inner).answers(Some(ids)) <==> inner.allowed() == Some(ids)
            && inner.spec_mode() == Mode::Client,
        ClientVerifier::WebPki(roots).wf() <==> crate::roots::root_anchors(*roots).len() > 0,
        ClientVerifier::SpiffeId(inner).wf() <==> inner.anchors().len() > 0 && inner.spec_mode()
            == Mode::Client,
{
}

/// An outcome on a client is seen as the peer's whole SPIFFE-ID, as none, or
/// as what the refusal says.
pub proof fn law_client_outcome_view_shows_the_outcome(peer: PeerIdentity, e: VerifyError)
    ensures
        client_outcome_view(Ok(None)) == Ok::<Option<Seq<char>>, RefusalView>(None),
        client_outcome_view(Ok(Some(peer))) == Ok::<Option<Seq<char>>, RefusalView>(
            Some(peer.spiffe_id@),
        ),
        client_outcome_view(Err(e)) == Err::<Option<Seq<char>>, RefusalView>(e@),
{
}

/// The error for webpki refusing to build a verifier with the text `m`.
pub open spec fn refused_verifier(m: Seq<char>) -> ErrorView {
    ErrorView::TrustBundle("WebPkiClientVerifier::build: "@ + m)
}

/// A verifier that cannot be built is reported in the words of webpki, which
/// for want of a root are these.
pub proof fn law_refused_verifier_in_words(m: Seq<char>)
    ensures
        refused_verifier(m) == ErrorView::TrustBundle("WebPkiClientVerifier::build: "@ + m),
        crate::webpki::no_anchors_text() == "no root trust anchors were provided"@,
{
}

/// The verifier of a server's clients. Without an allow-list it is the plain
/// webpki verifier, which needs a root.
pub fn make_client_verifier(roots: Arc<RootCertStore>, allow: Option<SpiffeIdAllowList>) -> (r:
    Result<ClientVerifier, Error>)
    requires
        allow is Some ==> crate::roots::root_anchors(*roots).len() > 0,
    ensures
        if crate::roots::root_anchors(*roots).len() > 0 {
            r matches Ok(v) && v.wf() && v.answers(crate::peer::listed(allow)) && v.anchors()
                == crate::roots::root_anchors(*roots)
        } else {
            r matches Err(e) && e@ == refused_verifier(crate::webpki::no_anchors_text())
        },
{
    if allow.is_none() {
        match try_client_verifier(&roots) {
            Ok(()) => Ok(ClientVerifier::WebPki(roots)),
            Err(m) => Err(
                Error::TrustBundle(join("WebPkiClientVerifier::build: ", m.as_str())),
            ),
        }
    } else {
        Ok(ClientVerifier::SpiffeId(SpiffeIdVerifier::client(roots, allow)))
    }
}

/// What a TLS server is configured with.
pub struct ServerParts {
    /// The certificates that the server presents, leaf first.
    pub chain: Vec<Vec<u8>>,
    /// The private key of the leaf.
    pub key: Pkcs8Key,
    /// How the server verifies its clients, whose certificates it requires.
    pub client_verifier: ClientVerifier,
}

/// What a TLS client is configured with.
pub struct ClientParts {
    /// The certificates that the client presents, leaf first.
    pub chain: Vec<Vec<u8>>,
    /// The private key of the leaf.
    pub key: Pkcs8Key,
    /// How the client verifies its server.
    pub server_verifier: SpiffeIdVerifier,
}

/// Builder for the configuration of a TLS server backed by a SPIFFE SVID.
///
/// Required: an [`X509Svid`] (chain, private key and bundle). Optional: an
/// allow-list. Without it any peer from the trust domain is accepted; with it
/// only peers whose SPIFFE-ID is listed.
pub struct ServerConfigBuilder {
    svid: X509Svid,
    peer_allowlist: Option<SpiffeIdAllowList>,
}

impl ServerConfigBuilder {
    /// The SVID that the server identifies itself by.
    pub closed spec fn spec_svid(self) -> X509Svid {
        self.svid
    }

    /// The SPIFFE-IDs that peers may have, if they are restricted.
    pub closed spec fn allowed(self) -> Option<Seq<Seq<char>>> {
        crate::peer::listed(self.peer_allowlist)
    }

    /// Starts from an SVID, without an allow-list.
    #[must_use]
    pub fn new(svid: X509Svid) -> (r: ServerConfigBuilder)
        ensures
            r.spec_svid() == svid,
            r.allowed() is None,
    {
        ServerConfigBuilder { svid, peer_allowlist: None }
    }

    /// Sets the allow-list, in place of one set before.
    #[must_use]
    pub fn peer_allowlist(self, allow: SpiffeIdAllowList) -> (r: ServerConfigBuilder)
        ensures
            r.spec_svid() == self.spec_svid(),
            r.allowed() == Some(allow@),
    {
        ServerConfigBuilder { svid: self.svid, peer_allowlist: Some(allow) }
    }

    /// Decodes the SVID and makes the verifier. Clients are to be validated
    /// against the SVID's trust bundle and the allow-list, if it is set.
    pub fn build(self) -> (r: Result<ServerParts, Error>)
        ensures
            match credentials_of(self.spec_svid()) {
                Ok((chain, key, anchors)) => r matches Ok(parts) && {
                    &&& crate::svid::byte_strings(parts.chain@) == chain
                    &&& parts.key.der@ == key
                    &&& parts.client_verifier.anchors() == anchors
                    &&& parts.client_verifier.answers(self.allowed())
                    &&& parts.client_verifier.wf()
                },
                Err(m) => r matches Err(e) && e@ == m,
            },
    {
        let chain = match decode_cert_chain(self.svid.cert_chain_der.as_slice()) {
            Ok(chain) => chain,
            Err(e) => {
                return Err(e);
            },
        };
        let key = match decode_private_key(self.svid.private_key_der.as_slice()) {
            Ok(key) => key,
            Err(e) => {
                return Err(e);
            },
        };
        let roots = match build_root_store(self.svid.bundle_der.as_slice()) {
            Ok(roots) => roots,
            Err(e) => {
                return Err(e);
            },
        };
        match make_client_verifier(roots, self.peer_allowlist) {
            Ok(client_verifier) => Ok(ServerParts { chain, key, client_verifier }),
            Err(e) => Err(e),
        }
    }
}

/// Builder for the configuration of a TLS client backed by a SPIFFE SVID.
///
/// For the client side of an mTLS edge: the client presents the SVID's
/// certificate and validates the server's SPIFFE-ID against the allow-list.
pub struct ClientConfigBuilder {
    svid: X509Svid,
    peer_allowlist: Option<SpiffeIdAllowList>,
}

impl ClientConfigBuilder {
    /// The SVID that the client identifies itself by.
    pub closed spec fn spec_svid(self) -> X509Svid {
        self.svid
    }

    /// The SPIFFE-IDs that peers may have, if they are restricted.
    pub closed spec fn allowed(self) -> Option<Seq<Seq<char>>> {
        crate::peer::listed(self.peer_allowlist)
    }

    /// Starts from an SVID, without an allow-list.
    #[must_use]
    pub fn new(svid: X509Svid) -> (r: ClientConfigBuilder)
        ensures
            r.spec_svid() == svid,
            r.allowed() is None,
    {
        ClientConfigBuilder { svid, peer_allowlist: None }
    }

    /// Sets the allow-list, in place of one set before.
    #[must_use]
    pub fn peer_allowlist(self, allow: SpiffeIdAllowList) -> (r: ClientConfigBuilder)
        ensures
            r.spec_svid() == self.spec_svid(),
            r.allowed() == Some(allow@),
    {
        ClientConfigBuilder { svid: self.svid, peer_allowlist: Some(allow) }
    }

    /// Decodes the SVID and makes the verifier. The server is to be validated
    /// against the SVID's trust bundle and must have a SPIFFE-ID, one on the
    /// allow-list if it is set.
    pub fn build(self) -> (r: Result<ClientParts, Error>)
        ensures
            match credentials_of(self.spec_svid()) {
                Ok((chain, key, anchors)) => r matches Ok(parts) && {
                    &&& crate::svid::byte_strings(parts.chain@) == chain
                    &&& parts.key.der@ == key
                    &&& parts.server_verifier.anchors() == anchors
                    &&& parts.server_verifier.allowed() == self.allowed()
                    &&& parts.server_verifier.spec_mode() == Mode::Server
                },
                Err(m) => r matches Err(e) && e@ == m,
            },
    {
        let chain = match decode_cert_chain(self.svid.cert_chain_der.as_slice()) {
            Ok(chain) => chain,
            Err(e) => {
                return Err(e);
            },
        };
        let key = match decode_private_key(self.svid.private_key_der.as_slice()) {
            Ok(key) => key,
            Err(e) => {
                return Err(e);
            },
        };
        let roots = match build_root_store(self.svid.bundle_der.as_slice()) {
            Ok(roots) => roots,
            Err(e) => {
                return Err(e);
            },
        };
        let server_verifier = SpiffeIdVerifier::server(roots, self.peer_allowlist);
        Ok(ClientParts { chain, key, server_verifier })
    }
}

/// The server name that rustls reads from a text: a DNS name or an IP
/// address, if it is either.
pub uninterp spec fn parsed_server_name(text: Seq<char>) -> Option<ServerName<'static>>;

/// Whether a text is a DNS name in lower-case letters: at most 63 characters,
/// letters and dots only, not starting with a dot and without two dots in a
/// row.
pub open spec fn is_lowercase_dns_name(text: Seq<char>) -> bool {
    &&& 0 < text.len() <= 63
    &&& forall|i: int| 0 <= i < text.len() ==> 'a' <= #[trigger] text[i] <= 'z' || text[i] == '.'
    &&& text[0] != '.'
    &&& forall|i: int, j: int|
        0 <= i && j == i + 1 && j < text.len() && #[trigger] text[i] == '.' ==> #[trigger] text[j]
            != '.'
}

/// Calls `ServerName::try_from`. DNS names in lower-case letters are accepted;
/// what else is, and which name comes of a text, is left to
/// [`parsed_server_name`].
#[verifier::external_body]
fn parse_server_name(text: &'static str) -> (r: Option<ServerName<'static>>)
    ensures
        r == parsed_server_name(text@),
        is_lowercase_dns_name(text@) ==> r is Some,
{
    ServerName::try_from(text).ok()
}

/// A server name for clients that dial endpoints in the mesh. Any name will
/// do there, because peers are known by their SPIFFE-ID alone.
#[must_use]
pub fn spiffe_placeholder_server_name() -> (r: ServerName<'static>)
    ensures
        parsed_server_name("spiffe.local"@) == Some(r),
{
    proof {
        reveal_strlit("spiffe.local");
    }
    parse_server_name("spiffe.local").expect("static")
}

} // verus!
