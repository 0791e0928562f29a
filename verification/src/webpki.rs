//! The verifier that a TLS endpoint consults: webpki path validation against
//! a trust bundle, followed by the SPIFFE-ID check.

use std::sync::Arc;
use std::time::Duration;

use rustls::client::{verify_server_cert_signed_by_trust_anchor, WebPkiServerVerifier};
use rustls::crypto::CryptoProvider;
use rustls::pki_types::{CertificateDer, ServerName, UnixTime};
use rustls::server::{ParsedCertificate, WebPkiClientVerifier};
use rustls::Error as TlsError;
use rustls::RootCertStore;
use vstd::prelude::*;

use crate::certificate::parse_certificate;
use crate::peer::{
    check_certificate, PeerIdentity, PeerRejection, RefusalView, RejectionView,
    SpiffeIdAllowList, VerifyError,
};

verus! {

/// The server name type of rustls, which is carried through unread.
#[verifier::external_type_specification]
#[verifier::external_body]
pub struct ExServerName<'a>(ServerName<'a>);

/// Whether webpki can come to `verdict`, its error included, on the client
/// certificate `end_entity`, sent with `intermediates`, under these trust
/// anchors at the time `now`, in seconds since the Unix epoch. This is a
/// relation and no function because the verdict also rests on the crypto
/// provider of the process.
pub uninterp spec fn client_chain_verdict(
    anchors: Seq<(Seq<u8>, Seq<u8>, Option<Seq<u8>>)>,
    end_entity: Seq<u8>,
    intermediates: Seq<Seq<u8>>,
    now: u64,
    verdict: Result<(), TlsError>,
) -> bool;

/// Whether webpki can come to `verdict` on the chain of a server certificate,
/// whatever name the server goes by. See [`client_chain_verdict`].
pub uninterp spec fn server_chain_verdict(
    anchors: Seq<(Seq<u8>, Seq<u8>, Option<Seq<u8>>)>,
    end_entity: Seq<u8>,
    intermediates: Seq<Seq<u8>>,
    now: u64,
    verdict: Result<(), TlsError>,
) -> bool;

/// The text of the error with which no verifier is built from an empty root
/// store.
pub open spec fn no_anchors_text() -> Seq<char> {
    "no root trust anchors were provided"@
}

/// Calls `WebPkiClientVerifier::builder` and `build`, and tells whether a
/// verifier came of it: one does unless the root store is empty. The crypto
/// provider is the one installed for the process or, if none is, the one that
/// rustls is compiled with, of which the manifest selects exactly one.
#[verifier::external_body]
pub(crate) fn try_client_verifier(roots: &Arc<RootCertStore>) -> (r: Result<(), String>)
    ensures
        if crate::roots::root_anchors(**roots).len() > 0 {
            r is Ok
        } else {
            r matches Err(text) && text@ == no_anchors_text()
        },
{
    WebPkiClientVerifier::builder(roots.clone()).build().map(|_built| ()).map_err(
        |e| e.to_string(),
    )
}

/// Calls `WebPkiServerVerifier::builder` and `build`, and tells whether a
/// verifier came of it: one does unless the root store is empty. See
/// [`try_client_verifier`] on the crypto provider.
#[verifier::external_body]
fn try_server_verifier(roots: &Arc<RootCertStore>) -> (r: Result<(), String>)
    ensures
        if crate::roots::root_anchors(**roots).len() > 0 {
            r is Ok
        } else {
            r matches Err(text) && text@ == no_anchors_text()
        },
{
    WebPkiServerVerifier::builder(roots.clone()).build().map(|_built| ()).map_err(
        |e| e.to_string(),
    )
}

/// Calls `verify_client_cert` on the verifier that `WebPkiClientVerifier`
/// builds from `roots`. Rustls hands that verifier out as a trait object, so
/// it is built for the call. The verdict is one that webpki can come to on
/// these anchors, certificates and time. Which verdict that is, is left to
/// [`client_chain_verdict`].
#[verifier::external_body]
pub(crate) fn client_verdict(
    roots: &Arc<RootCertStore>,
    end_entity: &[u8],
    intermediates: &[Vec<u8>],
    now: u64,
) -> (r: Result<(), TlsError>)
    requires
        crate::roots::root_anchors(**roots).len() > 0,
    ensures
        client_chain_verdict(
            crate::roots::root_anchors(**roots),
            end_entity@,
            crate::svid::byte_strings(intermediates@),
            now,
            r,
        ),
{
    let built = WebPkiClientVerifier::builder(roots.clone()).build().unwrap();
    let leaf = CertificateDer::from(end_entity);
    let others: Vec<_> = intermediates.iter().map(|c| CertificateDer::from(c.as_slice())).collect();
    let time = UnixTime::since_unix_epoch(Duration::from_secs(now));
    built.verify_client_cert(&leaf, &others, time).map(|_verified| ())
}

/// Calls `verify_server_cert_signed_by_trust_anchor`, which is what
/// `WebPkiServerVerifier` does to a certificate before it looks at the server
/// name. The signature algorithms are those of the process's crypto provider,
/// which `WebPkiServerVerifier::builder` sees to it is installed. The verdict
/// is one that webpki can come to on these anchors, certificates and time.
/// Which verdict that is, is left to [`server_chain_verdict`].
#[verifier::external_body]
fn server_verdict(
    roots: &Arc<RootCertStore>,
    end_entity: &[u8],
    intermediates: &[Vec<u8>],
    now: u64,
) -> (r: Result<(), TlsError>)
    ensures
        server_chain_verdict(
            crate::roots::root_anchors(**roots),
            end_entity@,
            crate::svid::byte_strings(intermediates@),
            now,
            r,
        ),
{
    let _builder = WebPkiServerVerifier::builder(roots.clone());
    let algs = CryptoProvider::get_default().unwrap().signature_verification_algorithms.all;
    let leaf = CertificateDer::from(end_entity);
    let cert = ParsedCertificate::try_from(&leaf)?;
    let others: Vec<_> = intermediates.iter().map(|c| CertificateDer::from(c.as_slice())).collect();
    let time = UnixTime::since_unix_epoch(Duration::from_secs(now));
    verify_server_cert_signed_by_trust_anchor(&cert, roots, &others, time, algs)
}

/// The outcome of a verification, seen as the SPIFFE-ID of the peer or what
/// the refusal says.
pub open spec fn outcome_view(outcome: Result<PeerIdentity, VerifyError>) -> Result<
    Seq<char>,
    RefusalView,
> {
    match outcome {
        Ok(peer) => Ok(peer.spiffe_id@),
        Err(e) => Err(e@),
    }
}

/// Whose certificates a verifier is for.
#[derive(Debug, Clone, Copy, PartialEq, Eq, Structural)]
pub enum Mode {
    /// Those of clients: the verifier serves a server.
    Client,
    /// Those of servers: the verifier serves a client.
    Server,
}

/// Combined webpki and SPIFFE-ID verifier.
pub struct SpiffeIdVerifier {
    mode: Mode,
    roots: Arc<RootCertStore>,
    allow: Option<SpiffeIdAllowList>,
}

impl SpiffeIdVerifier {
    /// Whose certificates the verifier is for.
    pub closed spec fn spec_mode(self) -> Mode {
        self.mode
    }

    /// The trust anchors of the verifier.
    pub closed spec fn anchors(self) -> Seq<(Seq<u8>, Seq<u8>, Option<Seq<u8>>)> {
        crate::roots::root_anchors(*self.roots)
    }

    /// The SPIFFE-IDs that the verifier allows, if it restricts them.
    pub closed spec fn allowed(self) -> Option<Seq<Seq<char>>> {
        crate::peer::listed(self.allow)
    }

    /// A verifier always has a trust anchor.
    #[verifier::type_invariant]
    spec fn wf(self) -> bool {
        crate::roots::root_anchors(*self.roots).len() > 0
    }

    /// A verifier for server-side mTLS: a server validates the certificates
    /// of its clients with it.
    pub fn client(roots: Arc<RootCertStore>, allow: Option<SpiffeIdAllowList>) -> (r:
        SpiffeIdVerifier)
        requires
            crate::roots::root_anchors(*roots).len() > 0,
        ensures
            r.spec_mode() == Mode::Client,
            r.anchors() == crate::roots::root_anchors(*roots),
            r.allowed() == crate::peer::listed(allow),
    {
        try_client_verifier(&roots).expect("WebPkiClientVerifier::build");
        SpiffeIdVerifier { mode: Mode::Client, roots, allow }
    }

    /// A verifier for client-side mTLS: a client validates the certificate of
    /// its server with it.
    pub fn server(roots: Arc<RootCertStore>, allow: Option<SpiffeIdAllowList>) -> (r:
        SpiffeIdVerifier)
        requires
            crate::roots::root_anchors(*roots).len() > 0,
        ensures
            r.spec_mode() == Mode::Server,
            r.anchors() == crate::roots::root_anchors(*roots),
            r.allowed() == crate::peer::listed(allow),
    {
        try_server_verifier(&roots).expect("WebPkiServerVerifier::build");
        SpiffeIdVerifier { mode: Mode::Server, roots, allow }
    }

    /// Whose certificates the verifier is for.
    pub fn mode(&self) -> (r: Mode)
        ensures
            r == self.spec_mode(),
    {
        self.mode
    }

    /// The root store of the verifier.
    pub fn roots(&self) -> (r: &Arc<RootCertStore>)
        ensures
            crate::roots::root_anchors(**r) == self.anchors(),
            self.anchors().len() > 0,
    {
        proof {
            use_type_invariant(self);
        }
        &self.roots
    }

    /// How many SPIFFE-IDs the verifier allows, if it restricts them.
    pub fn allow_list_len(&self) -> (r: Option<usize>)
        ensures
            match self.allowed() {
                None => r is None,
                Some(ids) => r matches Some(n) && n == ids.len(),
            },
    {
        match &self.allow {
            None => None,
            Some(list) => Some(list.len()),
        }
    }

    /// Checks the SPIFFE-ID of a certificate against the allow-list. Without
    /// an allow-list any SPIFFE-ID will do, but there must be one.
    pub fn check_spiffe_id(&self, end_entity: &[u8]) -> (r: Result<PeerIdentity, PeerRejection>)
        ensures
            match crate::peer::certificate_decision(
                crate::certificate::certificate_extensions(end_entity@),
                self.allowed(),
            ) {
                Ok(id) => r matches Ok(peer) && peer.spiffe_id@ == id,
                Err(rejection) => r matches Err(e) && e@ == rejection,
            },
    {
        check_certificate(parse_certificate(end_entity), &self.allow)
    }

    /// The decision of the verifier on a peer with this certificate, given the
    /// verdict on its chain.
    pub open spec fn decision(self, verdict: Result<(), TlsError>, end_entity: Seq<u8>) -> Result<
        Seq<char>,
        RefusalView,
    > {
        crate::peer::peer_decision(
            verdict,
            crate::certificate::certificate_extensions(end_entity),
            self.allowed(),
        )
    }

    /// Whether the verifier may come to `outcome` on a client: it does if
    /// webpki can come to a verdict on the chain for which that is the
    /// decision.
    pub open spec fn may_answer_client(
        self,
        end_entity: Seq<u8>,
        intermediates: Seq<Seq<u8>>,
        now: u64,
        outcome: Result<Seq<char>, RefusalView>,
    ) -> bool {
        exists|verdict: Result<(), TlsError>|
            {
                &&& #[trigger] client_chain_verdict(
                    self.anchors(),
                    end_entity,
                    intermediates,
                    now,
                    verdict,
                )
                &&& outcome == self.decision(verdict, end_entity)
            }
    }

    /// Whether the verifier may come to `outcome` on a server that was dialled
    /// as `server_name`: it does if webpki can come to a verdict on the chain
    /// for which that is the decision. The name does not enter.
    pub open spec fn may_answer_server(
        self,
        end_entity: Seq<u8>,
        intermediates: Seq<Seq<u8>>,
        server_name: ServerName<'_>,
        now: u64,
        outcome: Result<Seq<char>, RefusalView>,
    ) -> bool {
        exists|verdict: Result<(), TlsError>|
            {
                &&& #[trigger] server_chain_verdict(
                    self.anchors(),
                    end_entity,
                    intermediates,
                    now,
                    verdict,
                )
                &&& outcome == self.decision(verdict, end_entity)
            }
    }

    /// Decides on a peer, given the verdict on its certificate chain.
    pub fn conclude(&self, verdict: Result<(), TlsError>, end_entity: &[u8]) -> (r: Result<
        PeerIdentity,
        VerifyError,
    >)
        ensures
            outcome_view(r) == self.decision(verdict, end_entity@),
    {
        match verdict {
            Err(e) => Err(VerifyError::Chain(e)),
            Ok(()) => match self.check_spiffe_id(end_entity) {
                Ok(peer) => Ok(peer),
                Err(rejection) => Err(VerifyError::Peer(rejection)),
            },
        }
    }

    /// Verifies the certificate of a client: its chain against the trust
    /// anchors at the time `now` (in seconds since the Unix epoch), then its
    /// SPIFFE-ID.
    pub fn verify_client_cert(
        &self,
        end_entity: &[u8],
        intermediates: &[Vec<u8>],
        now: u64,
    ) -> (r: Result<PeerIdentity, VerifyError>)
        requires
            self.spec_mode() == Mode::Client,
        ensures
            self.may_answer_client(
                end_entity@,
                crate::svid::byte_strings(intermediates@),
                now,
                outcome_view(r),
            ),
    {
        proof {
            use_type_invariant(self);
        }
        let verdict = client_verdict(&self.roots, end_entity, intermediates, now);
        proof {
            assert(client_chain_verdict(
                self.anchors(),
                end_entity@,
                crate::svid::byte_strings(intermediates@),
                now,
                verdict,
            ));
        }
        self.conclude(verdict, end_entity)
    }

    /// Verifies the certificate of a server: its chain against the trust
    /// anchors at the time `now` (in seconds since the Unix epoch), then its
    /// SPIFFE-ID. Neither the server name nor the OCSP response is looked at:
    /// peers are known by their SPIFFE-ID alone.
    pub fn verify_server_cert(
        &self,
        end_entity: &[u8],
        intermediates: &[Vec<u8>],
        _server_name: &ServerName<'_>,
        _ocsp_response: &[u8],
        now: u64,
    ) -> (r: Result<PeerIdentity, VerifyError>)
        requires
            self.spec_mode() == Mode::Server,
        ensures
            self.may_answer_server(
                end_entity@,
                crate::svid::byte_strings(intermediates@),
                *_server_name,
                now,
                outcome_view(r),
            ),
    {
        let verdict = server_verdict(&self.roots, end_entity, intermediates, now);
        proof {
            assert(server_chain_verdict(
                self.anchors(),
                end_entity@,
                crate::svid::byte_strings(intermediates@),
                now,
                verdict,
            ));
        }
        self.conclude(verdict, end_entity)
    }
}

/// An arbitrary server name may be given: a server is answered the same under
/// any two names.
pub proof fn law_server_name_does_not_matter(
    v: SpiffeIdVerifier,
    end_entity: Seq<u8>,
    intermediates: Seq<Seq<u8>>,
    one: ServerName<'_>,
    other: ServerName<'_>,
    now: u64,
    outcome: Result<Seq<char>, RefusalView>,
)
    ensures
        v.may_answer_server(end_entity, intermediates, one, now, outcome) == v.may_answer_server(
            end_entity,
            intermediates,
            other,
            now,
            outcome,
        ),
{
}

/// A server with a SPIFFE-ID that the verifier allows, and a chain on which
/// webpki comes to no verdict but a good one, is accepted as itself under any
/// server name.
pub proof fn law_allowed_server_is_accepted_under_any_name(
    v: SpiffeIdVerifier,
    end_entity: Seq<u8>,
    intermediates: Seq<Seq<u8>>,
    server_name: ServerName<'_>,
    now: u64,
    id: Seq<char>,
    outcome: Result<Seq<char>, RefusalView>,
)
    requires
        forall|verdict: Result<(), TlsError>| #[trigger]
            server_chain_verdict(v.anchors(), end_entity, intermediates, now, verdict)
                ==> verdict is Ok,
        crate::certificate::certificate_extensions(end_entity) is Ok,
        crate::certificate::spiffe_id_of(
            crate::certificate::certificate_extensions(end_entity)->Ok_0,
        ) == Some(id),
        v.allowed() matches Some(ids) ==> ids.contains(id),
        v.may_answer_server(end_entity, intermediates, server_name, now, outcome),
    ensures
        outcome == Ok::<Seq<char>, RefusalView>(id),
{
}

/// A client is accepted only if webpki can find its chain good, and only with
/// a SPIFFE-ID that the verifier allows, which is the one reported.
pub proof fn law_accepted_client_is_trusted_and_allowed(
    v: SpiffeIdVerifier,
    end_entity: Seq<u8>,
    intermediates: Seq<Seq<u8>>,
    now: u64,
    id: Seq<char>,
)
    requires
        v.may_answer_client(end_entity, intermediates, now, Ok(id)),
    ensures
        client_chain_verdict(v.anchors(), end_entity, intermediates, now, Ok(())),
        crate::certificate::certificate_extensions(end_entity) matches Ok(extensions)
            && crate::certificate::spiffe_id_of(extensions) == Some(id),
        crate::certificate::is_spiffe_uri(id),
        v.allowed() matches Some(ids) ==> ids.contains(id),
{
    let verdict = choose|verdict: Result<(), TlsError>|
        {
            &&& #[trigger] client_chain_verdict(
                v.anchors(),
                end_entity,
                intermediates,
                now,
                verdict,
            )
            &&& Ok::<Seq<char>, RefusalView>(id) == v.decision(verdict, end_entity)
        };
    crate::peer::law_accepted_peer_is_trusted_and_listed(
        verdict,
        crate::certificate::certificate_extensions(end_entity),
        v.allowed(),
    );
    assert(verdict->Ok_0 == ());
}

/// A server is accepted only if webpki can find its chain good, and only with
/// a SPIFFE-ID that the verifier allows, which is the one reported.
pub proof fn law_accepted_server_is_trusted_and_allowed(
    v: SpiffeIdVerifier,
    end_entity: Seq<u8>,
    intermediates: Seq<Seq<u8>>,
    server_name: ServerName<'_>,
    now: u64,
    id: Seq<char>,
)
    requires
        v.may_answer_server(end_entity, intermediates, server_name, now, Ok(id)),
    ensures
        server_chain_verdict(v.anchors(), end_entity, intermediates, now, Ok(())),
        crate::certificate::certificate_extensions(end_entity) matches Ok(extensions)
            && crate::certificate::spiffe_id_of(extensions) == Some(id),
        crate::certificate::is_spiffe_uri(id),
        v.allowed() matches Some(ids) ==> ids.contains(id),
{
    let verdict = choose|verdict: Result<(), TlsError>|
        {
            &&& #[trigger] server_chain_verdict(
                v.anchors(),
                end_entity,
                intermediates,
                now,
                verdict,
            )
            &&& Ok::<Seq<char>, RefusalView>(id) == v.decision(verdict, end_entity)
        };
    crate::peer::law_accepted_peer_is_trusted_and_listed(
        verdict,
        crate::certificate::certificate_extensions(end_entity),
        v.allowed(),
    );
    assert(verdict->Ok_0 == ());
}

/// What the verifier may answer to a client: a refusal of the chain exactly
/// where webpki can give it, and otherwise, on a chain that webpki can find
/// good, what the certificate and the allow-list call for.
pub proof fn law_client_outcomes(
    v: SpiffeIdVerifier,
    end_entity: Seq<u8>,
    intermediates: Seq<Seq<u8>>,
    now: u64,
    outcome: Result<Seq<char>, RefusalView>,
)
    ensures
        v.may_answer_client(end_entity, intermediates, now, outcome) <==> match outcome {
            Err(RefusalView::Chain(e)) => client_chain_verdict(
                v.anchors(),
                end_entity,
                intermediates,
                now,
                Err(e),
            ),
            Ok(own) => {
                &&& client_chain_verdict(v.anchors(), end_entity, intermediates, now, Ok(()))
                &&& crate::certificate::certificate_extensions(end_entity) matches Ok(extensions)
                &&& crate::certificate::spiffe_id_of(extensions) == Some(own)
                &&& v.allowed() matches Some(ids) ==> ids.contains(own)
            },
            Err(RefusalView::Peer(RejectionView::Unreadable(m))) => {
                &&& client_chain_verdict(v.anchors(), end_entity, intermediates, now, Ok(()))
                &&& crate::certificate::certificate_extensions(end_entity) == Err::<
                    Option<Seq<(Seq<u8>, Seq<u8>)>>,
                    Seq<char>,
                >(m)
            },
            Err(RefusalView::Peer(RejectionView::NoSpiffeId)) => {
                &&& client_chain_verdict(v.anchors(), end_entity, intermediates, now, Ok(()))
                &&& crate::certificate::certificate_extensions(end_entity) matches Ok(extensions)
                &&& crate::certificate::spiffe_id_of(extensions) is None
            },
            Err(RefusalView::Peer(RejectionView::NotAllowed(own))) => {
                &&& client_chain_verdict(v.anchors(), end_entity, intermediates, now, Ok(()))
                &&& crate::certificate::certificate_extensions(end_entity) matches Ok(extensions)
                &&& crate::certificate::spiffe_id_of(extensions) == Some(own)
                &&& v.allowed() matches Some(ids) && !ids.contains(own)
            },
        },
{
    let read = crate::certificate::certificate_extensions(end_entity);
    if v.may_answer_client(end_entity, intermediates, now, outcome) {
        let verdict = choose|verdict: Result<(), TlsError>|
            {
                &&& #[trigger] client_chain_verdict(
                    v.anchors(),
                    end_entity,
                    intermediates,
                    now,
                    verdict,
                )
                &&& outcome == v.decision(verdict, end_entity)
            };
        crate::peer::law_peer_outcomes(verdict, read, v.allowed(), outcome);
        if verdict is Ok {
            assert(verdict->Ok_0 == ());
        }
    } else {
        crate::peer::law_peer_outcomes(Ok(()), read, v.allowed(), outcome);
        if let Err(RefusalView::Chain(e)) = outcome {
            crate::peer::law_peer_outcomes(Err(e), read, v.allowed(), outcome);
        }
    }
}

/// What the verifier may answer to a server: a refusal of the chain exactly
/// where webpki can give it, and otherwise, on a chain that webpki can find
/// good, what the certificate and the allow-list call for.
pub proof fn law_server_outcomes(
    v: SpiffeIdVerifier,
    end_entity: Seq<u8>,
    intermediates: Seq<Seq<u8>>,
    server_name: ServerName<'_>,
    now: u64,
    outcome: Result<Seq<char>, RefusalView>,
)
    ensures
        v.may_answer_server(end_entity, intermediates, server_name, now, outcome) <==> match outcome {
            Err(RefusalView::Chain(e)) => server_chain_verdict(
                v.anchors(),
                end_entity,
                intermediates,
                now,
                Err(e),
            ),
            Ok(own) => {
                &&& server_chain_verdict(v.anchors(), end_entity, intermediates, now, Ok(()))
                &&& crate::certificate::certificate_extensions(end_entity) matches Ok(extensions)
                &&& crate::certificate::spiffe_id_of(extensions) == Some(own)
                &&& v.allowed() matches Some(ids) ==> ids.contains(own)
            },
            Err(RefusalView::Peer(RejectionView::Unreadable(m))) => {
                &&& server_chain_verdict(v.anchors(), end_entity, intermediates, now, Ok(()))
                &&& crate::certificate::certificate_extensions(end_entity) == Err::<
                    Option<Seq<(Seq<u8>, Seq<u8>)>>,
                    Seq<char>,
                >(m)
            },
            Err(RefusalView::Peer(RejectionView::NoSpiffeId)) => {
                &&& server_chain_verdict(v.anchors(), end_entity, intermediates, now, Ok(()))
                &&& crate::certificate::certificate_extensions(end_entity) matches Ok(extensions)
                &&& crate::certificate::spiffe_id_of(extensions) is None
            },
            Err(RefusalView::Peer(RejectionView::NotAllowed(own))) => {
                &&& server_chain_verdict(v.anchors(), end_entity, intermediates, now, Ok(()))
                &&& crate::certificate::certificate_extensions(end_entity) matches Ok(extensions)
                &&& crate::certificate::spiffe_id_of(extensions) == Some(own)
                &&& v.allowed() matches Some(ids) && !ids.contains(own)
            },
        },
{
    let read = crate::certificate::certificate_extensions(end_entity);
    if v.may_answer_server(end_entity, intermediates, server_name, now, outcome) {
        let verdict = choose|verdict: Result<(), TlsError>|
            {
                &&& #[trigger] server_chain_verdict(
                    v.anchors(),
                    end_entity,
                    intermediates,
                    now,
                    verdict,
                )
                &&& outcome == v.decision(verdict, end_entity)
            };
        crate::peer::law_peer_outcomes(verdict, read, v.allowed(), outcome);
        if verdict is Ok {
            assert(verdict->Ok_0 == ());
        }
    } else {
        crate::peer::law_peer_outcomes(Ok(()), read, v.allowed(), outcome);
        if let Err(RefusalView::Chain(e)) = outcome {
            crate::peer::law_peer_outcomes(Err(e), read, v.allowed(), outcome);
        }
    }
}

/// A client with a SPIFFE-ID that the verifier allows, and a chain on which
/// webpki comes to no verdict but a good one, is accepted as itself.
pub proof fn law_allowed_client_is_accepted(
    v: SpiffeIdVerifier,
    end_entity: Seq<u8>,
    intermediates: Seq<Seq<u8>>,
    now: u64,
    id: Seq<char>,
    outcome: Result<Seq<char>, RefusalView>,
)
    requires
        forall|verdict: Result<(), TlsError>| #[trigger]
            client_chain_verdict(v.anchors(), end_entity, intermediates, now, verdict)
                ==> verdict is Ok,
        crate::certificate::certificate_extensions(end_entity) is Ok,
        crate::certificate::spiffe_id_of(
            crate::certificate::certificate_extensions(end_entity)->Ok_0,
        ) == Some(id),
        v.allowed() matches Some(ids) ==> ids.contains(id),
        v.may_answer_client(end_entity, intermediates, now, outcome),
    ensures
        outcome == Ok::<Seq<char>, RefusalView>(id),
{
    law_client_outcomes(v, end_entity, intermediates, now, outcome);
}

/// On a given verdict the decision is fixed: a refusal of the chain is passed
/// on, and on a good chain the certificate and the allow-list decide.
pub proof fn law_decision_on_a_verdict(
    v: SpiffeIdVerifier,
    e: TlsError,
    end_entity: Seq<u8>,
    id: Seq<char>,
)
    ensures
        v.decision(Err(e), end_entity) == Err::<Seq<char>, RefusalView>(RefusalView::Chain(e)),
        v.decision(Ok(()), end_entity) == Ok::<Seq<char>, RefusalView>(id) <==> {
            &&& crate::certificate::certificate_extensions(end_entity) matches Ok(extensions)
            &&& crate::certificate::spiffe_id_of(extensions) == Some(id)
            &&& v.allowed() matches Some(ids) ==> ids.contains(id)
        },
        v.decision(Ok(()), end_entity) == Err::<Seq<char>, RefusalView>(
            RefusalView::Peer(RejectionView::NotAllowed(id)),
        ) <==> {
            &&& crate::certificate::certificate_extensions(end_entity) matches Ok(extensions)
            &&& crate::certificate::spiffe_id_of(extensions) == Some(id)
            &&& v.allowed() matches Some(ids) && !ids.contains(id)
        },
        v.decision(Ok(()), end_entity) == Err::<Seq<char>, RefusalView>(
            RefusalView::Peer(RejectionView::NoSpiffeId),
        ) <==> {
            &&& crate::certificate::certificate_extensions(end_entity) matches Ok(extensions)
            &&& crate::certificate::spiffe_id_of(extensions) is None
        },
        v.decision(Ok(()), end_entity) == Err::<Seq<char>, RefusalView>(
            RefusalView::Peer(RejectionView::Unreadable(id)),
        ) <==> crate::certificate::certificate_extensions(end_entity) == Err::<
            Option<Seq<(Seq<u8>, Seq<u8>)>>,
            Seq<char>,
        >(id),
{
}

/// An outcome is seen as the peer's whole SPIFFE-ID or as what the refusal
/// says.
pub proof fn law_outcome_view_shows_the_outcome(peer: PeerIdentity, e: VerifyError)
    ensures
        outcome_view(Ok(peer)) == Ok::<Seq<char>, RefusalView>(peer.spiffe_id@),
        outcome_view(Err(e)) == Err::<Seq<char>, RefusalView>(e@),
{
}

} // verus!
