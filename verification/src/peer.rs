//! The decision on a peer: its certificate chain first, then its SPIFFE-ID.

use rustls::Error as TlsError;
use vstd::prelude::*;

use crate::certificate::{extract_spiffe_id, Certificate};
use crate::text::{enclose, join};

verus! {

/// The list of acceptable peer SPIFFE-IDs.
#[derive(Debug, Clone)]
pub struct SpiffeIdAllowList {
    exact: Vec<String>,
}

impl View for SpiffeIdAllowList {
    type V = Seq<Seq<char>>;

    closed spec fn view(&self) -> Seq<Seq<char>> {
        crate::text::texts(self.exact@)
    }
}

impl SpiffeIdAllowList {
    /// Allows exactly these SPIFFE-IDs (case-sensitive).
    pub fn exact_ids(ids: Vec<String>) -> (r: SpiffeIdAllowList)
        ensures
            r@ == crate::text::texts(ids@),
            r@.len() == ids@.len(),
            forall|i: int| 0 <= i < ids@.len() ==> #[trigger] r@[i] == ids@[i]@,
    {
        SpiffeIdAllowList { exact: ids }
    }

    /// Whether `spiffe_id` is listed, character for character.
    pub fn permits(&self, spiffe_id: &str) -> (r: bool)
        ensures
            r == self@.contains(spiffe_id@),
    {
        let wanted = spiffe_id.to_owned();
        let mut i: usize = 0;
        while i < self.exact.len()
            invariant
                i <= self.exact@.len(),
                wanted@ == spiffe_id@,
                forall|j: int| 0 <= j < i ==> self@[j] != spiffe_id@,
            decreases self.exact@.len() - i,
        {
            if self.exact[i] == wanted {
                proof {
                    assert(self@[i as int] == spiffe_id@);
                }
                return true;
            }
            i += 1;
        }
        false
    }

    /// How many SPIFFE-IDs are listed.
    pub fn len(&self) -> (r: usize)
        ensures
            r == self@.len(),
    {
        self.exact.len()
    }
}

/// The SPIFFE-IDs of an optional allow-list.
pub open spec fn listed(allow: Option<SpiffeIdAllowList>) -> Option<Seq<Seq<char>>> {
    match allow {
        None => None,
        Some(list) => Some(list@),
    }
}

/// The identity of a peer that passed verification.
#[derive(Debug, Clone)]
pub struct PeerIdentity {
    /// The SPIFFE-ID in the peer's certificate.
    pub spiffe_id: String,
}

/// Why a peer with a valid certificate chain is refused.
#[derive(Debug)]
pub enum PeerRejection {
    /// The certificate cannot be read; with the parser's words.
    Unreadable(String),
    /// No URI among the subject alternative names is a SPIFFE-ID.
    NoSpiffeId,
    /// This SPIFFE-ID is not listed.
    NotAllowed(String),
}

/// What a [`PeerRejection`] says, with its text as a sequence of characters.
pub enum RejectionView {
    /// See [`PeerRejection::Unreadable`].
    Unreadable(Seq<char>),
    /// See [`PeerRejection::NoSpiffeId`].
    NoSpiffeId,
    /// See [`PeerRejection::NotAllowed`].
    NotAllowed(Seq<char>),
}

impl View for PeerRejection {
    type V = RejectionView;

    open spec fn view(&self) -> RejectionView {
        match *self {
            PeerRejection::Unreadable(m) => RejectionView::Unreadable(m@),
            PeerRejection::NoSpiffeId => RejectionView::NoSpiffeId,
            PeerRejection::NotAllowed(id) => RejectionView::NotAllowed(id@),
        }
    }
}

/// The words in which a rejection is reported.
pub open spec fn rejection_message(rejection: RejectionView) -> Seq<char> {
    match rejection {
        RejectionView::Unreadable(m) => "kakuin: x509 parse failed: "@ + m,
        RejectionView::NoSpiffeId => "kakuin: no SPIFFE-ID in URI SAN"@,
        RejectionView::NotAllowed(id) => "kakuin: peer SPIFFE-ID "@ + id + " not in allow-list"@,
    }
}

impl PeerRejection {
    /// The rejection in words.
    pub fn message(&self) -> (r: String)
        ensures
            r@ == rejection_message(self@),
    {
        match self {
            PeerRejection::Unreadable(m) => join("kakuin: x509 parse failed: ", m.as_str()),
            PeerRejection::NoSpiffeId => "kakuin: no SPIFFE-ID in URI SAN".to_owned(),
            PeerRejection::NotAllowed(id) =>
                enclose("kakuin: peer SPIFFE-ID ", id.as_str(), " not in allow-list"),
        }
    }
}

/// Why a peer is refused.
#[derive(Debug)]
pub enum VerifyError {
    /// Its certificate chain is refused.
    Chain(TlsError),
    /// Its identity is refused.
    Peer(PeerRejection),
}

/// What a [`VerifyError`] says.
pub enum RefusalView {
    /// See [`VerifyError::Chain`].
    Chain(TlsError),
    /// See [`VerifyError::Peer`].
    Peer(RejectionView),
}

impl View for VerifyError {
    type V = RefusalView;

    open spec fn view(&self) -> RefusalView {
        match *self {
            VerifyError::Chain(e) => RefusalView::Chain(e),
            VerifyError::Peer(rejection) => RefusalView::Peer(rejection@),
        }
    }
}

/// The decision on a SPIFFE-ID: without one the peer is refused; with one it
/// is accepted if there is no allow-list or the allow-list holds it.
pub open spec fn identity_decision(
    id: Option<Seq<char>>,
    allow: Option<Seq<Seq<char>>>,
) -> Result<Seq<char>, RejectionView> {
    match id {
        None => Err(RejectionView::NoSpiffeId),
        Some(id) => if allow is Some && !allow->0.contains(id) {
            Err(RejectionView::NotAllowed(id))
        } else {
            Ok(id)
        },
    }
}

/// The decision on a certificate that was read with these extensions, or that
/// could not be read.
pub open spec fn certificate_decision(
    read: Result<Option<Seq<(Seq<u8>, Seq<u8>)>>, Seq<char>>,
    allow: Option<Seq<Seq<char>>>,
) -> Result<Seq<char>, RejectionView> {
    match read {
        Err(m) => Err(RejectionView::Unreadable(m)),
        Ok(extensions) => identity_decision(crate::certificate::spiffe_id_of(extensions), allow),
    }
}

/// The decision on a peer, given the verdict of path validation on its chain:
/// a refused chain is final; otherwise the identity decides.
pub open spec fn peer_decision(
    verdict: Result<(), TlsError>,
    read: Result<Option<Seq<(Seq<u8>, Seq<u8>)>>, Seq<char>>,
    allow: Option<Seq<Seq<char>>>,
) -> Result<Seq<char>, RefusalView> {
    match verdict {
        Err(e) => Err(RefusalView::Chain(e)),
        Ok(_) => match certificate_decision(read, allow) {
            Err(rejection) => Err(RefusalView::Peer(rejection)),
            Ok(id) => Ok(id),
        },
    }
}

/// Decides on the SPIFFE-ID that was found in a certificate.
pub fn authorize(id: Option<String>, allow: &Option<SpiffeIdAllowList>) -> (r: Result<
    PeerIdentity,
    PeerRejection,
>)
    ensures
        match identity_decision(crate::certificate::optional_text(id), listed(*allow)) {
            Ok(id) => r matches Ok(peer) && peer.spiffe_id@ == id,
            Err(rejection) => r matches Err(e) && e@ == rejection,
        },
{
    let spiffe_id = match id {
        Some(spiffe_id) => spiffe_id,
        None => {
            return Err(PeerRejection::NoSpiffeId);
        },
    };
    if let Some(list) = allow {
        if !list.permits(spiffe_id.as_str()) {
            return Err(PeerRejection::NotAllowed(spiffe_id));
        }
    }
    Ok(PeerIdentity { spiffe_id })
}

/// Decides on a certificate, given what reading it came to.
pub fn check_certificate(
    read: Result<Certificate, String>,
    allow: &Option<SpiffeIdAllowList>,
) -> (r: Result<PeerIdentity, PeerRejection>)
    ensures
        match certificate_decision(read_view(read), listed(*allow)) {
            Ok(id) => r matches Ok(peer) && peer.spiffe_id@ == id,
            Err(rejection) => r matches Err(e) && e@ == rejection,
        },
{
    match read {
        Err(m) => Err(PeerRejection::Unreadable(m)),
        Ok(cert) => authorize(extract_spiffe_id(&cert), allow),
    }
}

/// What reading a certificate came to, seen as values.
pub open spec fn read_view(read: Result<Certificate, String>) -> Result<
    Option<Seq<(Seq<u8>, Seq<u8>)>>,
    Seq<char>,
> {
    match read {
        Err(m) => Err(m@),
        Ok(cert) => Ok(cert@),
    }
}

/// An accepted peer has a chain that leads to a trust anchor and a readable
/// certificate, whose SPIFFE-ID is the one reported and is on the allow-list
/// if there is one.
pub proof fn law_accepted_peer_is_trusted_and_listed(
    verdict: Result<(), TlsError>,
    read: Result<Option<Seq<(Seq<u8>, Seq<u8>)>>, Seq<char>>,
    allow: Option<Seq<Seq<char>>>,
)
    ensures
        peer_decision(verdict, read, allow) matches Ok(id) ==> {
            &&& verdict is Ok
            &&& read matches Ok(extensions)
            &&& crate::certificate::spiffe_id_of(extensions) == Some(id)
            &&& crate::certificate::is_spiffe_uri(id)
            &&& allow matches Some(ids) ==> ids.contains(id)
        },
{
    if peer_decision(verdict, read, allow) is Ok {
        let extensions = read->Ok_0;
        crate::certificate::law_identity_is_the_first_spiffe_id(extensions->0);
    }
}

/// A peer whose SPIFFE-ID is not on the allow-list is refused, and the refusal
/// names the SPIFFE-ID.
pub proof fn law_unlisted_peer_is_refused(
    verdict: Result<(), TlsError>,
    extensions: Option<Seq<(Seq<u8>, Seq<u8>)>>,
    ids: Seq<Seq<char>>,
    id: Seq<char>,
)
    requires
        verdict is Ok,
        crate::certificate::spiffe_id_of(extensions) == Some(id),
        !ids.contains(id),
    ensures
        peer_decision(verdict, Ok(extensions), Some(ids)) == Err::<Seq<char>, RefusalView>(
            RefusalView::Peer(RejectionView::NotAllowed(id)),
        ),
{
}

/// A listed peer with a trusted chain is accepted as itself.
pub proof fn law_listed_peer_is_accepted(
    verdict: Result<(), TlsError>,
    extensions: Option<Seq<(Seq<u8>, Seq<u8>)>>,
    ids: Seq<Seq<char>>,
    id: Seq<char>,
)
    requires
        verdict is Ok,
        crate::certificate::spiffe_id_of(extensions) == Some(id),
        ids.contains(id),
    ensures
        peer_decision(verdict, Ok(extensions), Some(ids)) == Ok::<Seq<char>, RefusalView>(id),
{
}

/// Without an allow-list every peer with a trusted chain and a SPIFFE-ID is
/// accepted, whatever the SPIFFE-ID.
pub proof fn law_any_spiffe_peer_without_allow_list(
    verdict: Result<(), TlsError>,
    extensions: Option<Seq<(Seq<u8>, Seq<u8>)>>,
    id: Seq<char>,
)
    requires
        verdict is Ok,
        crate::certificate::spiffe_id_of(extensions) == Some(id),
    ensures
        peer_decision(verdict, Ok(extensions), None) == Ok::<Seq<char>, RefusalView>(id),
{
}

/// A refused chain is final: no certificate and no allow-list makes up for it,
/// and the error is the one that path validation gave.
pub proof fn law_refused_chain_is_final(
    e: TlsError,
    read: Result<Option<Seq<(Seq<u8>, Seq<u8>)>>, Seq<char>>,
    allow: Option<Seq<Seq<char>>>,
)
    ensures
        peer_decision(Err(e), read, allow) == Err::<Seq<char>, RefusalView>(
            RefusalView::Chain(e),
        ),
{
}

/// What is decided on a SPIFFE-ID: which outcome comes on which SPIFFE-ID and
/// allow-list, and on no other.
pub proof fn law_identity_outcomes(
    id: Option<Seq<char>>,
    allow: Option<Seq<Seq<char>>>,
    outcome: Result<Seq<char>, RejectionView>,
)
    ensures
        identity_decision(id, allow) == outcome <==> match outcome {
            Ok(own) => id == Some(own) && (allow matches Some(ids) ==> ids.contains(own)),
            Err(RejectionView::NoSpiffeId) => id is None,
            Err(RejectionView::NotAllowed(own)) => id == Some(own) && (allow matches Some(ids)
                && !ids.contains(own)),
            Err(RejectionView::Unreadable(_)) => false,
        },
{
}

/// What is decided on a certificate: which outcome comes on which reading of
/// it and which allow-list, and on no other.
pub proof fn law_certificate_outcomes(
    read: Result<Option<Seq<(Seq<u8>, Seq<u8>)>>, Seq<char>>,
    allow: Option<Seq<Seq<char>>>,
    outcome: Result<Seq<char>, RejectionView>,
)
    ensures
        certificate_decision(read, allow) == outcome <==> match outcome {
            Ok(own) => {
                &&& read matches Ok(extensions)
                &&& crate::certificate::spiffe_id_of(extensions) == Some(own)
                &&& allow matches Some(ids) ==> ids.contains(own)
            },
            Err(RejectionView::Unreadable(m)) => read == Err::<
                Option<Seq<(Seq<u8>, Seq<u8>)>>,
                Seq<char>,
            >(m),
            Err(RejectionView::NoSpiffeId) => {
                &&& read matches Ok(extensions)
                &&& crate::certificate::spiffe_id_of(extensions) is None
            },
            Err(RejectionView::NotAllowed(own)) => {
                &&& read matches Ok(extensions)
                &&& crate::certificate::spiffe_id_of(extensions) == Some(own)
                &&& allow matches Some(ids) && !ids.contains(own)
            },
        },
{
}

/// What is decided on a peer: which outcome comes on which verdict on its
/// chain, reading of its certificate and allow-list, and on no other.
pub proof fn law_peer_outcomes(
    verdict: Result<(), TlsError>,
    read: Result<Option<Seq<(Seq<u8>, Seq<u8>)>>, Seq<char>>,
    allow: Option<Seq<Seq<char>>>,
    outcome: Result<Seq<char>, RefusalView>,
)
    ensures
        peer_decision(verdict, read, allow) == outcome <==> match outcome {
            Err(RefusalView::Chain(e)) => verdict == Err::<(), TlsError>(e),
            Ok(own) => {
                &&& verdict is Ok
                &&& read matches Ok(extensions)
                &&& crate::certificate::spiffe_id_of(extensions) == Some(own)
                &&& allow matches Some(ids) ==> ids.contains(own)
            },
            Err(RefusalView::Peer(RejectionView::Unreadable(m))) => {
                &&& verdict is Ok
                &&& read == Err::<Option<Seq<(Seq<u8>, Seq<u8>)>>, Seq<char>>(m)
            },
            Err(RefusalView::Peer(RejectionView::NoSpiffeId)) => {
                &&& verdict is Ok
                &&& read matches Ok(extensions)
                &&& crate::certificate::spiffe_id_of(extensions) is None
            },
            Err(RefusalView::Peer(RejectionView::NotAllowed(own))) => {
                &&& verdict is Ok
                &&& read matches Ok(extensions)
                &&& crate::certificate::spiffe_id_of(extensions) == Some(own)
                &&& allow matches Some(ids) && !ids.contains(own)
            },
        },
{
}

/// A larger allow-list accepts every peer that a smaller one accepts.
pub proof fn law_more_ids_accept_more_peers(
    verdict: Result<(), TlsError>,
    read: Result<Option<Seq<(Seq<u8>, Seq<u8>)>>, Seq<char>>,
    fewer: Seq<Seq<char>>,
    more: Seq<Seq<char>>,
    id: Seq<char>,
)
    requires
        forall|i: int| 0 <= i < fewer.len() ==> more.contains(#[trigger] fewer[i]),
        peer_decision(verdict, read, Some(fewer)) == Ok::<Seq<char>, RefusalView>(id),
    ensures
        peer_decision(verdict, read, Some(more)) == Ok::<Seq<char>, RefusalView>(id),
        peer_decision(verdict, read, None) == Ok::<Seq<char>, RefusalView>(id),
{
}

/// A rejection is reported in these words, with the parser's words or the
/// SPIFFE-ID whole in them.
pub proof fn law_rejections_in_words(text: Seq<char>)
    ensures
        rejection_message(RejectionView::Unreadable(text)) == "kakuin: x509 parse failed: "@ + text,
        rejection_message(RejectionView::NoSpiffeId) == "kakuin: no SPIFFE-ID in URI SAN"@,
        rejection_message(RejectionView::NotAllowed(text)) == "kakuin: peer SPIFFE-ID "@ + text
            + " not in allow-list"@,
{
}

/// The views of rejections, refusals, allow-lists and readings keep the kind
/// and the whole contents.
pub proof fn law_views_keep_kind_and_contents(
    text: String,
    e: TlsError,
    rejection: PeerRejection,
    list: SpiffeIdAllowList,
    cert: Certificate,
)
    ensures
        PeerRejection::Unreadable(text)@ == RejectionView::Unreadable(text@),
        PeerRejection::NoSpiffeId@ == RejectionView::NoSpiffeId,
        PeerRejection::NotAllowed(text)@ == RejectionView::NotAllowed(text@),
        VerifyError::Chain(e)@ == RefusalView::Chain(e),
        VerifyError::Peer(rejection)@ == RefusalView::Peer(rejection@),
        listed(None) is None,
        listed(Some(list)) == Some(list@),
        read_view(Err(text)) == Err::<Option<Seq<(Seq<u8>, Seq<u8>)>>, Seq<char>>(text@),
        read_view(Ok(cert)) == Ok::<Option<Seq<(Seq<u8>, Seq<u8>)>>, Seq<char>>(cert@),
{
}

} // verus!
