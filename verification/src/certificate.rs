//! The parts of an X.509 certificate that a SPIFFE-ID is read from.

use vstd::prelude::*;
use x509_cert::der::oid::ObjectIdentifier;
use x509_cert::der::Decode;
use x509_cert::ext::pkix::name::GeneralName as X509Name;
use x509_cert::ext::pkix::SubjectAltName;

use crate::text::has_prefix;

verus! {

/// A certificate extension.
pub struct Extension {
    /// The object identifier of the extension: the contents octets of its DER
    /// encoding.
    pub id: Vec<u8>,
    /// The extension's value: the contents of its octet string.
    pub value: Vec<u8>,
}

impl View for Extension {
    type V = (Seq<u8>, Seq<u8>);

    open spec fn view(&self) -> (Seq<u8>, Seq<u8>) {
        (self.id@, self.value@)
    }
}

/// What the search for a SPIFFE-ID reads of a certificate.
pub struct Certificate {
    /// The extensions in their order, if the certificate has any.
    pub extensions: Option<Vec<Extension>>,
}

impl View for Certificate {
    type V = Option<Seq<(Seq<u8>, Seq<u8>)>>;

    open spec fn view(&self) -> Option<Seq<(Seq<u8>, Seq<u8>)>> {
        match self.extensions {
            None => None,
            Some(list) => Some(extension_views(list@)),
        }
    }
}

/// The identifier and the value of each extension of a list.
pub open spec fn extension_views(list: Seq<Extension>) -> Seq<(Seq<u8>, Seq<u8>)> {
    list.map_values(|e: Extension| e@)
}

/// A subject alternative name. Only URIs are read.
pub enum GeneralName {
    /// A name of a form of its own.
    OtherName,
    /// A mail address.
    Rfc822Name,
    /// A host name.
    DnsName,
    /// A distinguished name.
    DirectoryName,
    /// An EDI party name.
    EdiPartyName,
    /// A URI.
    UniformResourceIdentifier(String),
    /// An IP address.
    IpAddress,
    /// An object identifier.
    RegisteredId,
}

/// A name is seen as its URI, or as nothing if it is of another form.
impl View for GeneralName {
    type V = Option<Seq<char>>;

    open spec fn view(&self) -> Option<Seq<char>> {
        match *self {
            GeneralName::UniformResourceIdentifier(uri) => Some(uri@),
            _ => None,
        }
    }
}

/// The URI of each name of a list.
pub open spec fn name_views(list: Seq<GeneralName>) -> Seq<Option<Seq<char>>> {
    list.map_values(|n: GeneralName| n@)
}

/// The extensions of a DER certificate, each with its identifier and value,
/// or the text of the error for bytes that are no certificate.
pub uninterp spec fn certificate_extensions(der: Seq<u8>) -> Result<
    Option<Seq<(Seq<u8>, Seq<u8>)>>,
    Seq<char>,
>;

/// The names in the value of a subject alternative name extension, each as
/// its URI or `None` for a name of another form; nothing if the value is
/// malformed.
pub uninterp spec fn subject_alt_names(value: Seq<u8>) -> Option<Seq<Option<Seq<char>>>>;

/// Calls `x509_cert::Certificate::from_der` and keeps the identifier and the
/// value of each extension. Which bytes are a certificate, with which
/// extensions, is left to [`certificate_extensions`].
#[verifier::external_body]
pub(crate) fn parse_certificate(der: &[u8]) -> (r: Result<Certificate, String>)
    ensures
        match certificate_extensions(der@) {
            Ok(extensions) => r matches Ok(cert) && cert@ == extensions,
            Err(m) => r matches Err(text) && text@ == m,
        },
{
    let cert = x509_cert::Certificate::from_der(der).map_err(|e| e.to_string())?;
    let extensions = cert.tbs_certificate.extensions.map(|list| {
        list.into_iter().map(|e| Extension {
            id: e.extn_id.as_bytes().to_vec(),
            value: e.extn_value.as_bytes().to_vec(),
        }).collect()
    });
    Ok(Certificate { extensions })
}

/// Calls `SubjectAltName::from_der` and keeps of each name its form and, of a
/// URI, the text. Which values are well-formed, with which names, is left to
/// [`subject_alt_names`].
#[verifier::external_body]
fn parse_subject_alt_names(value: &[u8]) -> (r: Option<Vec<GeneralName>>)
    ensures
        match subject_alt_names(value@) {
            Some(names) => r matches Some(list) && name_views(list@) == names,
            None => r is None,
        },
{
    let san = SubjectAltName::from_der(value).ok()?;
    Some(san.0.into_iter().map(|name| match name {
        X509Name::OtherName(_) => GeneralName::OtherName,
        X509Name::Rfc822Name(_) => GeneralName::Rfc822Name,
        X509Name::DnsName(_) => GeneralName::DnsName,
        X509Name::DirectoryName(_) => GeneralName::DirectoryName,
        X509Name::EdiPartyName(_) => GeneralName::EdiPartyName,
        X509Name::UniformResourceIdentifier(uri) =>
            GeneralName::UniformResourceIdentifier(uri.to_string()),
        X509Name::IpAddress(_) => GeneralName::IpAddress,
        X509Name::RegisteredId(_) => GeneralName::RegisteredId,
    }).collect())
}

/// The dotted form of an object identifier with four arcs.
pub open spec fn four_arcs(a: nat, b: nat, c: nat, d: nat) -> Seq<char> {
    crate::text::decimal(a) + "."@ + crate::text::decimal(b) + "."@ + crate::text::decimal(c)
        + "."@ + crate::text::decimal(d)
}

/// Calls `ObjectIdentifier::from_str` and hands out the contents octets of the
/// DER encoding. An identifier of four arcs, the last two below 128, has three
/// octets: the first two arcs share one, each of the others has its own. The
/// text is kept short because the parser's arithmetic on an arc of ten digits
/// may overflow. Nothing is said of identifiers of another length.
#[verifier::external_body]
fn parse_oid(dotted: &str) -> (r: Option<Vec<u8>>)
    requires
        dotted@.len() <= 9,
    ensures
        forall|a: nat, b: nat, c: nat, d: nat|
            dotted@ == #[trigger] four_arcs(a, b, c, d) && a <= 2 && b <= 39 && c < 128 && d < 128
                ==> optional_bytes(r) == Some(seq![(40 * a + b) as u8, c as u8, d as u8]),
{
    dotted.parse::<ObjectIdentifier>().ok().map(|oid| oid.as_bytes().to_vec())
}

/// The identifier of the subject alternative name extension, 2.5.29.17.
pub open spec fn san_oid() -> Seq<u8> {
    seq![0x55u8, 0x1du8, 0x11u8]
}

/// Whether a URI is a SPIFFE-ID.
pub open spec fn is_spiffe_uri(uri: Seq<char>) -> bool {
    "spiffe://"@.is_prefix_of(uri)
}

/// The first SPIFFE-ID among the URIs of a list of names.
pub open spec fn first_spiffe_uri(names: Seq<Option<Seq<char>>>) -> Option<Seq<char>>
    decreases names.len(),
{
    if names.len() == 0 {
        None
    } else if names[0] is Some && is_spiffe_uri(names[0]->0) {
        names[0]
    } else {
        first_spiffe_uri(names.drop_first())
    }
}

/// The first SPIFFE-ID that one extension holds. Extensions of another kind,
/// and malformed ones, hold none.
pub open spec fn spiffe_id_of_extension(ext: (Seq<u8>, Seq<u8>)) -> Option<Seq<char>> {
    if ext.0 == san_oid() {
        match subject_alt_names(ext.1) {
            Some(names) => first_spiffe_uri(names),
            None => None,
        }
    } else {
        None
    }
}

/// The first SPIFFE-ID that a list of extensions holds.
pub open spec fn spiffe_id_of_extensions(list: Seq<(Seq<u8>, Seq<u8>)>) -> Option<Seq<char>>
    decreases list.len(),
{
    if list.len() == 0 {
        None
    } else if spiffe_id_of_extension(list[0]) is Some {
        spiffe_id_of_extension(list[0])
    } else {
        spiffe_id_of_extensions(list.drop_first())
    }
}

/// The SPIFFE-ID of a certificate with these extensions.
pub open spec fn spiffe_id_of(extensions: Option<Seq<(Seq<u8>, Seq<u8>)>>) -> Option<Seq<char>> {
    match extensions {
        None => None,
        Some(list) => spiffe_id_of_extensions(list),
    }
}

/// Whether `id` is a SPIFFE-ID and stands as name `j` of extension `i`, which
/// is a well-formed subject alternative name extension.
pub open spec fn stands_at(list: Seq<(Seq<u8>, Seq<u8>)>, i: int, j: int, id: Seq<char>) -> bool {
    &&& 0 <= i < list.len()
    &&& list[i].0 == san_oid()
    &&& subject_alt_names(list[i].1) matches Some(names)
    &&& 0 <= j < names.len()
    &&& names[j] == Some(id)
    &&& is_spiffe_uri(id)
}

/// The search in one list of names finds the first SPIFFE-ID.
proof fn lemma_first_uri(names: Seq<Option<Seq<char>>>)
    ensures
        match first_spiffe_uri(names) {
            Some(id) => exists|j: int|
                {
                    &&& 0 <= j < names.len()
                    &&& #[trigger] names[j] == Some(id)
                    &&& is_spiffe_uri(id)
                    &&& forall|k: int|
                        0 <= k < j ==> !(#[trigger] names[k] is Some && is_spiffe_uri(names[k]->0))
                },
            None => forall|k: int|
                0 <= k < names.len() ==> !(#[trigger] names[k] is Some && is_spiffe_uri(
                    names[k]->0,
                )),
        },
    decreases names.len(),
{
    if names.len() > 0 && !(names[0] is Some && is_spiffe_uri(names[0]->0)) {
        let rest = names.drop_first();
        lemma_first_uri(rest);
        match first_spiffe_uri(rest) {
            Some(id) => {
                let j = choose|j: int|
                    {
                        &&& 0 <= j < rest.len()
                        &&& #[trigger] rest[j] == Some(id)
                        &&& is_spiffe_uri(id)
                        &&& forall|k: int|
                            0 <= k < j ==> !(#[trigger] rest[k] is Some && is_spiffe_uri(
                                rest[k]->0,
                            ))
                    };
                assert forall|k: int| 0 <= k < j + 1 implies !(#[trigger] names[k] is Some
                    && is_spiffe_uri(names[k]->0)) by {
                    if k > 0 {
                        assert(names[k] == rest[k - 1]);
                    }
                }
                assert(names[j + 1] == Some(id));
            },
            None => {
                assert forall|k: int| 0 <= k < names.len() implies !(#[trigger] names[k] is Some
                    && is_spiffe_uri(names[k]->0)) by {
                    if k > 0 {
                        assert(names[k] == rest[k - 1]);
                    }
                }
            },
        }
    }
}

/// The identity of a certificate is the first SPIFFE-ID in it: the one found
/// stands in the certificate, and no other stands in an earlier extension or
/// earlier in the same one. None is found only where none stands.
pub proof fn law_identity_is_the_first_spiffe_id(list: Seq<(Seq<u8>, Seq<u8>)>)
    ensures
        match spiffe_id_of(Some(list)) {
            Some(id) => exists|i: int, j: int|
                {
                    &&& #[trigger] stands_at(list, i, j, id)
                    &&& forall|p: int, q: int, other: Seq<char>| #[trigger]
                        stands_at(list, p, q, other) ==> i < p || (i == p && j <= q)
                },
            None => forall|p: int, q: int, other: Seq<char>|
                !#[trigger] stands_at(list, p, q, other),
        },
    decreases list.len(),
{
    if list.len() > 0 {
        let rest = list.drop_first();
        if spiffe_id_of_extension(list[0]) is Some {
            let id = spiffe_id_of_extension(list[0])->0;
            let names = subject_alt_names(list[0].1)->0;
            lemma_first_uri(names);
            let j = choose|j: int|
                {
                    &&& 0 <= j < names.len()
                    &&& #[trigger] names[j] == Some(id)
                    &&& is_spiffe_uri(id)
                    &&& forall|k: int|
                        0 <= k < j ==> !(#[trigger] names[k] is Some && is_spiffe_uri(names[k]->0))
                };
            assert(stands_at(list, 0, j, id));
            assert forall|p: int, q: int, other: Seq<char>| #[trigger]
                stands_at(list, p, q, other) implies 0 < p || (0 == p && j <= q) by {
                if p == 0 {
                    assert(names[q] == Some(other));
                }
            }
        } else {
            law_identity_is_the_first_spiffe_id(rest);
            if list[0].0 == san_oid() && subject_alt_names(list[0].1) is Some {
                lemma_first_uri(subject_alt_names(list[0].1)->0);
            }
            assert forall|p: int, q: int, other: Seq<char>| #[trigger]
                stands_at(list, p, q, other) implies p > 0 && stands_at(rest, p - 1, q, other) by {
                if p == 0 {
                    assert(subject_alt_names(list[0].1)->0[q] == Some(other));
                }
            }
            if spiffe_id_of_extensions(rest) is Some {
                let id = spiffe_id_of_extensions(rest)->0;
                let (i, j) = choose|i: int, j: int|
                    {
                        &&& #[trigger] stands_at(rest, i, j, id)
                        &&& forall|p: int, q: int, other: Seq<char>| #[trigger]
                            stands_at(rest, p, q, other) ==> i < p || (i == p && j <= q)
                    };
                assert(stands_at(list, i + 1, j, id));
            }
        }
    }
}

/// An optional string, seen as its characters.
pub open spec fn optional_text(s: Option<String>) -> Option<Seq<char>> {
    match s {
        None => None,
        Some(s) => Some(s@),
    }
}

/// An optional byte string, seen as its bytes.
pub open spec fn optional_bytes(b: Option<Vec<u8>>) -> Option<Seq<u8>> {
    match b {
        None => None,
        Some(b) => Some(b@),
    }
}

/// The URI of a name, if it is one.
pub fn general_name_to_uri(name: &GeneralName) -> (r: Option<String>)
    ensures
        optional_text(r) == name@,
{
    match name {
        GeneralName::UniformResourceIdentifier(uri) => Some(uri.clone()),
        _ => None,
    }
}

/// The first SPIFFE-ID among the URIs of `names`.
pub fn find_spiffe_uri(names: &Vec<GeneralName>) -> (r: Option<String>)
    ensures
        optional_text(r) == first_spiffe_uri(name_views(names@)),
{
    let ghost views = name_views(names@);
    let mut i: usize = 0;
    proof {
        assert(views.skip(0) =~= views);
    }
    while i < names.len()
        invariant
            i <= names@.len(),
            views == name_views(names@),
            first_spiffe_uri(views) == first_spiffe_uri(views.skip(i as int)),
        decreases names@.len() - i,
    {
        proof {
            assert(views.skip(i as int).drop_first() =~= views.skip(i + 1));
            assert(views.skip(i as int)[0] == names@[i as int]@);
        }
        if let Some(uri) = general_name_to_uri(&names[i]) {
            if has_prefix(uri.as_str(), "spiffe://") {
                return Some(uri);
            }
        }
        i += 1;
    }
    None
}

/// Whether two byte strings are equal.
fn same_bytes(a: &Vec<u8>, b: &Vec<u8>) -> (r: bool)
    ensures
        r == (a@ == b@),
{
    if a.len() != b.len() {
        return false;
    }
    let mut i: usize = 0;
    while i < a.len()
        invariant
            i <= a@.len(),
            a@.len() == b@.len(),
            forall|j: int| 0 <= j < i ==> a@[j] == b@[j],
        decreases a@.len() - i,
    {
        if a[i] != b[i] {
            return false;
        }
        i += 1;
    }
    proof {
        assert(a@ =~= b@);
    }
    true
}

/// The SPIFFE-ID of a certificate: the first URI that begins with
/// `spiffe://` in its subject alternative name extensions. A malformed
/// extension is passed over.
pub fn extract_spiffe_id(cert: &Certificate) -> (r: Option<String>)
    ensures
        optional_text(r) == spiffe_id_of(cert@),
{
    proof {
        reveal_strlit("2.5.29.17");
        reveal_strlit(".");
        reveal_with_fuel(crate::text::decimal, 2);
        assert("2.5.29.17"@ =~= four_arcs(2, 5, 29, 17));
    }
    let san_id = match parse_oid("2.5.29.17") {
        Some(id) => id,
        None => {
            return None;
        },
    };
    let list = match &cert.extensions {
        Some(list) => list,
        None => {
            return None;
        },
    };
    let ghost views = extension_views(list@);
    let mut i: usize = 0;
    proof {
        assert(views.skip(0) =~= views);
    }
    while i < list.len()
        invariant
            i <= list@.len(),
            views == extension_views(list@),
            san_id@ == san_oid(),
            spiffe_id_of_extensions(views) == spiffe_id_of_extensions(views.skip(i as int)),
            cert@ == Some(views),
        decreases list@.len() - i,
    {
        proof {
            assert(views.skip(i as int).drop_first() =~= views.skip(i + 1));
            assert(views.skip(i as int)[0] == list@[i as int]@);
        }
        if same_bytes(&list[i].id, &san_id) {
            if let Some(names) = parse_subject_alt_names(list[i].value.as_slice()) {
                let found = find_spiffe_uri(&names);
                if found.is_some() {
                    return found;
                }
            }
        }
        i += 1;
    }
    None
}

/// Whether a name is no URI with the scheme of SPIFFE-IDs.
pub open spec fn lacks_scheme(name: Option<Seq<char>>) -> bool {
    name matches Some(uri) ==> uri.len() < 9 || uri.take(9) != "spiffe://"@
}

/// The scheme, as the first nine characters of a text.
proof fn lemma_scheme(uri: Seq<char>)
    ensures
        "spiffe://"@.len() == 9,
        is_spiffe_uri(uri) == !lacks_scheme(Some(uri)),
{
    reveal_strlit("spiffe://");
    if uri.len() >= 9 {
        if is_spiffe_uri(uri) {
            assert(uri.take(9) =~= "spiffe://"@);
        } else if uri.take(9) == "spiffe://"@ {
            assert("spiffe://"@ =~= uri.subrange(0, 9));
        }
    }
}

/// Any URI with the SPIFFE scheme is found, whatever follows the scheme and
/// however long it is.
pub proof fn law_spiffe_uri_of_any_length_is_found(rest: Seq<char>)
    ensures
        first_spiffe_uri(seq![Some("spiffe://"@ + rest)]) == Some("spiffe://"@ + rest),
{
    law_other_names_are_passed_over(Seq::empty(), rest, Seq::empty());
    assert(Seq::<Option<Seq<char>>>::empty() + seq![Some("spiffe://"@ + rest)] + Seq::<
        Option<Seq<char>>,
    >::empty() =~= seq![Some("spiffe://"@ + rest)]);
}

/// Names without the SPIFFE scheme are passed over, as many as there are; the
/// first URI with it is found whole, whatever comes after it.
pub proof fn law_other_names_are_passed_over(
    before: Seq<Option<Seq<char>>>,
    rest: Seq<char>,
    after: Seq<Option<Seq<char>>>,
)
    requires
        forall|k: int| 0 <= k < before.len() ==> lacks_scheme(#[trigger] before[k]),
    ensures
        first_spiffe_uri(before + seq![Some("spiffe://"@ + rest)] + after) == Some(
            "spiffe://"@ + rest,
        ),
    decreases before.len(),
{
    let uri = "spiffe://"@ + rest;
    let names = before + seq![Some(uri)] + after;
    lemma_scheme(uri);
    if before.len() == 0 {
        assert(uri.take(9) =~= "spiffe://"@);
        assert(names[0] == Some(uri));
    } else {
        let shorter = before.drop_first();
        assert(lacks_scheme(before[0]));
        assert(names[0] == before[0]);
        if names[0] is Some {
            lemma_scheme(names[0]->0);
        }
        assert forall|k: int| 0 <= k < shorter.len() implies lacks_scheme(#[trigger] shorter[k]) by {
            assert(shorter[k] == before[k + 1]);
        }
        law_other_names_are_passed_over(shorter, rest, after);
        assert(names.drop_first() =~= shorter + seq![Some(uri)] + after);
    }
}

/// Only a URI with the SPIFFE scheme is ever found, and only one that is among
/// the names. None is found exactly if no name has the scheme.
pub proof fn law_only_spiffe_uris_are_found(names: Seq<Option<Seq<char>>>)
    ensures
        first_spiffe_uri(names) matches Some(id) ==> {
            &&& id.len() >= 9
            &&& id.take(9) == "spiffe://"@
            &&& names.contains(Some(id))
        },
        first_spiffe_uri(names) is None <==> forall|k: int|
            0 <= k < names.len() ==> lacks_scheme(#[trigger] names[k]),
{
    lemma_first_uri(names);
    match first_spiffe_uri(names) {
        Some(id) => {
            let j = choose|j: int|
                0 <= j < names.len() && #[trigger] names[j] == Some(id) && is_spiffe_uri(id);
            lemma_scheme(id);
            assert(!lacks_scheme(names[j]));
        },
        None => {
            assert forall|k: int| 0 <= k < names.len() implies lacks_scheme(#[trigger] names[k]) by {
                if names[k] is Some {
                    lemma_scheme(names[k]->0);
                }
            }
        },
    }
}

/// Whether an extension says nothing of a SPIFFE-ID: its identifier is not
/// that of subject alternative names, its value is malformed, or no name in it
/// has the SPIFFE scheme.
pub open spec fn is_silent(ext: (Seq<u8>, Seq<u8>)) -> bool {
    ext.0 == seq![0x55u8, 0x1du8, 0x11u8] ==> match subject_alt_names(ext.1) {
        None => true,
        Some(names) => forall|k: int|
            0 <= k < names.len() ==> lacks_scheme(#[trigger] names[k]),
    }
}

/// A silent extension gives no SPIFFE-ID.
proof fn lemma_silent_extension(ext: (Seq<u8>, Seq<u8>))
    ensures
        spiffe_id_of_extension(ext) is None <==> is_silent(ext),
{
    if subject_alt_names(ext.1) is Some {
        law_only_spiffe_uris_are_found(subject_alt_names(ext.1)->0);
    }
}

/// The identity of a certificate is read from the first subject alternative
/// name extension that has a URI with the SPIFFE scheme, and there it is the
/// first such URI, whole. Silent extensions before it, other names before the
/// URI, and whatever follows either make no difference.
pub proof fn law_identity_is_read_past_everything_else(
    before: Seq<(Seq<u8>, Seq<u8>)>,
    value: Seq<u8>,
    names_before: Seq<Option<Seq<char>>>,
    rest: Seq<char>,
    names_after: Seq<Option<Seq<char>>>,
    after: Seq<(Seq<u8>, Seq<u8>)>,
)
    requires
        forall|k: int| 0 <= k < before.len() ==> is_silent(#[trigger] before[k]),
        forall|k: int| 0 <= k < names_before.len() ==> lacks_scheme(#[trigger] names_before[k]),
        subject_alt_names(value) == Some(
            names_before + seq![Some("spiffe://"@ + rest)] + names_after,
        ),
    ensures
        spiffe_id_of(Some(before + seq![(seq![0x55u8, 0x1du8, 0x11u8], value)] + after)) == Some(
            "spiffe://"@ + rest,
        ),
    decreases before.len(),
{
    let own = (seq![0x55u8, 0x1du8, 0x11u8], value);
    let list = before + seq![own] + after;
    if before.len() == 0 {
        law_other_names_are_passed_over(names_before, rest, names_after);
        assert(list[0] == own);
    } else {
        let shorter = before.drop_first();
        assert(is_silent(before[0]));
        assert(list[0] == before[0]);
        lemma_silent_extension(list[0]);
        assert forall|k: int| 0 <= k < shorter.len() implies is_silent(#[trigger] shorter[k]) by {
            assert(shorter[k] == before[k + 1]);
        }
        law_identity_is_read_past_everything_else(
            shorter,
            value,
            names_before,
            rest,
            names_after,
            after,
        );
        assert(list.drop_first() =~= shorter + seq![own] + after);
    }
}

/// A certificate has no identity exactly if it has no extensions or all of
/// them are silent.
pub proof fn law_no_identity_where_all_is_silent(list: Seq<(Seq<u8>, Seq<u8>)>)
    ensures
        spiffe_id_of(None) is None,
        spiffe_id_of(Some(list)) is None <==> forall|k: int|
            0 <= k < list.len() ==> is_silent(#[trigger] list[k]),
    decreases list.len(),
{
    if list.len() > 0 {
        let shorter = list.drop_first();
        lemma_silent_extension(list[0]);
        law_no_identity_where_all_is_silent(shorter);
        if spiffe_id_of(Some(list)) is None {
            assert forall|k: int| 0 <= k < list.len() implies is_silent(#[trigger] list[k]) by {
                if k > 0 {
                    assert(list[k] == shorter[k - 1]);
                }
            }
        } else if forall|k: int| 0 <= k < list.len() ==> is_silent(#[trigger] list[k]) {
            assert(is_silent(list[0]));
            assert forall|k: int| 0 <= k < shorter.len() implies is_silent(#[trigger] shorter[k]) by {
                assert(shorter[k] == list[k + 1]);
            }
        }
    }
}

/// The identity of a certificate always has the SPIFFE scheme, and stands
/// among the names of one of its subject alternative name extensions.
pub proof fn law_identity_stands_in_the_certificate(list: Seq<(Seq<u8>, Seq<u8>)>)
    ensures
        spiffe_id_of(Some(list)) matches Some(id) ==> {
            &&& id.len() >= 9
            &&& id.take(9) == "spiffe://"@
            &&& exists|i: int|
                {
                    &&& 0 <= i < list.len()
                    &&& (#[trigger] list[i]).0 == seq![0x55u8, 0x1du8, 0x11u8]
                    &&& subject_alt_names(list[i].1) matches Some(names)
                    &&& names.contains(Some(id))
                }
        },
{
    law_identity_is_the_first_spiffe_id(list);
    if spiffe_id_of(Some(list)) is Some {
        let id = spiffe_id_of(Some(list))->0;
        let (i, j) = choose|i: int, j: int| #[trigger] stands_at(list, i, j, id);
        lemma_scheme(id);
        let names = subject_alt_names(list[i].1)->0;
        assert(names[j] == Some(id));
        assert(list[i].0 == seq![0x55u8, 0x1du8, 0x11u8]);
    }
}

/// The views of extensions, certificates and names show what they hold: the
/// whole identifier and value of each extension, and the whole URI of each
/// name that is one.
pub proof fn law_views_show_what_is_held(
    ext: Extension,
    list: Vec<Extension>,
    uri: String,
    names: Seq<GeneralName>,
)
    ensures
        ext@ == (ext.id@, ext.value@),
        (Certificate { extensions: None })@ is None,
        (Certificate { extensions: Some(list) })@ == Some(extension_views(list@)),
        extension_views(list@).len() == list@.len(),
        forall|i: int|
            0 <= i < list@.len() ==> #[trigger] extension_views(list@)[i] == (
                list@[i].id@,
                list@[i].value@,
            ),
        GeneralName::UniformResourceIdentifier(uri)@ == Some(uri@),
        GeneralName::OtherName@ is None,
        GeneralName::Rfc822Name@ is None,
        GeneralName::DnsName@ is None,
        GeneralName::DirectoryName@ is None,
        GeneralName::EdiPartyName@ is None,
        GeneralName::IpAddress@ is None,
        GeneralName::RegisteredId@ is None,
        name_views(names).len() == names.len(),
        forall|i: int| 0 <= i < names.len() ==> #[trigger] name_views(names)[i] == names[i]@,
{
}

/// Optional texts and byte strings are seen whole.
pub proof fn law_optional_views(s: String, b: Vec<u8>)
    ensures
        optional_text(None) is None,
        optional_text(Some(s)) == Some(s@),
        optional_bytes(None) is None,
        optional_bytes(Some(b)) == Some(b@),
{
}

} // verus!
