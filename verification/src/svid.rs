//! X.509 SVIDs as the workload API delivers them, and their decoding.

use vstd::prelude::*;
use vstd::slice::slice_to_vec;

use crate::der::consume_one_der;
use crate::error::{Error, ErrorView};

verus! {

/// An X.509 SVID: a workload's identity, with what it takes to prove it.
#[derive(Clone)]
pub struct X509Svid {
    /// The SPIFFE-ID of the workload.
    pub spiffe_id: String,
    /// The certificate chain, leaf first: concatenated DER certificates.
    pub cert_chain_der: Vec<u8>,
    /// The private key of the leaf, in PKCS#8 DER.
    pub private_key_der: Vec<u8>,
    /// The roots of the trust domain: concatenated DER certificates.
    pub bundle_der: Vec<u8>,
    /// A hint on how the identity is meant to be used.
    pub hint: String,
}

/// A private key in PKCS#8 DER.
pub struct Pkcs8Key {
    /// The DER encoding.
    pub der: Vec<u8>,
}

/// The bytes of each certificate of a list.
pub open spec fn byte_strings(certs: Seq<Vec<u8>>) -> Seq<Seq<u8>> {
    certs.map_values(|c: Vec<u8>| c@)
}

/// The certificates of a chain, leaf first, or why the chain is refused.
pub open spec fn chain_of(der: Seq<u8>) -> Result<Seq<Seq<u8>>, ErrorView> {
    match crate::der::der_sequence(der) {
        Err(m) => Err(ErrorView::X509(m)),
        Ok(certs) => if certs.len() == 0 {
            Err(ErrorView::InvalidChain("empty chain"@))
        } else {
            Ok(certs)
        },
    }
}

/// The private key, or why it is refused.
pub open spec fn key_of(der: Seq<u8>) -> Result<Seq<u8>, ErrorView> {
    if der.len() == 0 {
        Err(ErrorView::InvalidKey("empty key"@))
    } else {
        Ok(der)
    }
}

/// Splits a certificate chain, which the workload API delivers as one run of
/// concatenated DER certificates, leaf first.
pub fn decode_cert_chain(der: &[u8]) -> (r: Result<Vec<Vec<u8>>, Error>)
    ensures
        match r {
            Ok(certs) => chain_of(der@) == Ok::<Seq<Seq<u8>>, ErrorView>(byte_strings(certs@)),
            Err(e) => chain_of(der@) == Err::<Seq<Seq<u8>>, ErrorView>(e@),
        },
{
    let mut out: Vec<Vec<u8>> = Vec::new();
    let mut rest: &[u8] = der;
    proof {
        assert(byte_strings(out@) =~= Seq::empty());
        assert(crate::der::der_sequence(der@) matches Ok(tail) ==> Seq::<Seq<u8>>::empty() + tail
            =~= tail);
    }
    while rest.len() > 0
        invariant
            match crate::der::der_sequence(rest@) {
                Ok(tail) => crate::der::der_sequence(der@) == Ok::<Seq<Seq<u8>>, Seq<char>>(
                    byte_strings(out@) + tail,
                ),
                Err(m) => crate::der::der_sequence(der@) == Err::<Seq<Seq<u8>>, Seq<char>>(m),
            },
        decreases rest@.len(),
    {
        let ghost before = byte_strings(out@);
        match consume_one_der(rest) {
            Err(e) => {
                return Err(e);
            },
            Ok((next, consumed)) => {
                proof {
                    assert(rest@.skip(consumed@.len() as int) =~= next@);
                    assert(rest@.take(consumed@.len() as int) =~= consumed@);
                }
                out.push(slice_to_vec(consumed));
                proof {
                    assert(byte_strings(out@) =~= before.push(consumed@));
                    if crate::der::der_sequence(next@) is Ok {
                        let tail = crate::der::der_sequence(next@)->Ok_0;
                        assert(before + (seq![consumed@] + tail) =~= byte_strings(out@) + tail);
                    }
                }
                rest = next;
            },
        }
    }
    proof {
        assert(rest@ =~= Seq::empty());
        assert(byte_strings(out@) + Seq::<Seq<u8>>::empty() =~= byte_strings(out@));
    }
    if out.len() == 0 {
        return Err(Error::InvalidChain("empty chain".to_owned()));
    }
    Ok(out)
}

/// Takes the private key of an SVID, which must not be empty.
pub fn decode_private_key(der: &[u8]) -> (r: Result<Pkcs8Key, Error>)
    ensures
        match r {
            Ok(key) => key_of(der@) == Ok::<Seq<u8>, ErrorView>(key.der@),
            Err(e) => key_of(der@) == Err::<Seq<u8>, ErrorView>(e@),
        },
{
    if der.len() == 0 {
        return Err(Error::InvalidKey("empty key".to_owned()));
    }
    Ok(Pkcs8Key { der: slice_to_vec(der) })
}

/// A chain comes back as it was put together: certificates in DER, one after
/// another, are decoded to the same certificates in the same order.
pub proof fn law_chain_is_decoded_as_concatenated(certs: Seq<Seq<u8>>)
    requires
        certs.len() > 0,
        forall|i: int| 0 <= i < certs.len() ==> crate::der::is_one_der(#[trigger] certs[i]),
    ensures
        chain_of(certs.flatten()) == Ok::<Seq<Seq<u8>>, ErrorView>(certs),
{
    crate::der::law_join_then_split(certs);
}

/// Decoding a chain loses nothing: there is at least one certificate, and the
/// certificates one after another are the chain again.
pub proof fn law_decoded_chain_is_the_whole_chain(der: Seq<u8>)
    ensures
        chain_of(der) matches Ok(certs) ==> certs.len() > 0 && certs.flatten() == der,
{
    crate::der::law_split_then_join(der);
}

/// The view of a list of byte strings has the bytes of each, in order.
pub proof fn law_byte_strings_are_those_of_the_list(certs: Seq<Vec<u8>>)
    ensures
        byte_strings(certs).len() == certs.len(),
        forall|i: int| 0 <= i < certs.len() ==> #[trigger] byte_strings(certs)[i] == certs[i]@,
{
}

/// A chain of at least one DER structure is accepted, and what comes of it are
/// these structures, in order and unchanged.
pub proof fn law_chain_of_structures_is_accepted(certs: Seq<Seq<u8>>)
    requires
        certs.len() > 0,
        forall|i: int| 0 <= i < certs.len() ==> crate::der::is_tlv(#[trigger] certs[i]),
    ensures
        chain_of(certs.flatten()) == Ok::<Seq<Seq<u8>>, ErrorView>(certs),
{
    crate::der::law_sequence_is_its_structures(certs);
}

/// A chain without a byte is refused as empty.
pub proof fn law_chain_without_a_byte_is_refused(der: Seq<u8>)
    requires
        der.len() == 0,
    ensures
        chain_of(der) == Err::<Seq<Seq<u8>>, ErrorView>(ErrorView::InvalidChain("empty chain"@)),
{
}

/// A chain with something unreadable after its first structures is refused,
/// with the message that belongs to what cannot be read.
pub proof fn law_chain_with_unreadable_tail_is_refused(
    certs: Seq<Seq<u8>>,
    tail: Seq<u8>,
    m: Seq<char>,
)
    requires
        forall|i: int| 0 <= i < certs.len() ==> crate::der::is_tlv(#[trigger] certs[i]),
        tail.len() > 0,
        crate::der::der_extent(tail) == Err::<nat, Seq<char>>(m),
    ensures
        chain_of(certs.flatten() + tail) == Err::<Seq<Seq<u8>>, ErrorView>(ErrorView::X509(m)),
{
    crate::der::law_first_unreadable_structure_is_reported(certs, tail, m);
}

/// Every key that is not empty is accepted and kept as it is, whatever its
/// length and contents; an empty one is refused.
pub proof fn law_any_key_but_an_empty_one_is_kept(der: Seq<u8>)
    ensures
        der.len() > 0 ==> key_of(der) == Ok::<Seq<u8>, ErrorView>(der),
        der.len() == 0 ==> key_of(der) == Err::<Seq<u8>, ErrorView>(
            ErrorView::InvalidKey("empty key"@),
        ),
{
}

} // verus!
