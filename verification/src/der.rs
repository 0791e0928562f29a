//! Splitting a run of concatenated DER structures.

use vstd::prelude::*;
use vstd::slice::slice_subrange;

use crate::error::{Error, ErrorView};
use crate::text::{decimal_text, enclose, join};

verus! {

/// The number that `octets` write in base 256, most significant first.
pub open spec fn big_endian(octets: Seq<u8>) -> nat
    decreases octets.len(),
{
    if octets.len() == 0 {
        0
    } else {
        big_endian(octets.drop_last()) * 256 + octets.last() as nat
    }
}

/// The message for input too short to hold a tag and a length.
pub open spec fn truncated_der(have: nat) -> Seq<char> {
    "truncated DER ("@ + crate::text::decimal(have) + " bytes)"@
}

/// The message for a length of an unsupported number of octets.
pub open spec fn unsupported_octets(n: nat) -> Seq<char> {
    "unsupported length octets: "@ + crate::text::decimal(n)
}

/// The message for a body that is longer than the input.
pub open spec fn truncated_body(need: nat, have: nat) -> Seq<char> {
    "truncated DER body: need "@ + crate::text::decimal(need) + ", have "@
        + crate::text::decimal(have)
}

/// How many bytes the first DER structure of `bytes` claims, tag and length
/// included, or the message that says why its header cannot be read.
pub open spec fn claimed_len(bytes: Seq<u8>) -> Result<nat, Seq<char>> {
    if bytes.len() < 2 {
        Err(truncated_der(bytes.len()))
    } else if bytes[1] < 0x80 {
        Ok(2 + bytes[1] as nat)
    } else {
        let n = (bytes[1] - 0x80) as nat;
        if n == 0 || n > 4 {
            Err(unsupported_octets(n))
        } else if bytes.len() < 2 + n {
            Err("truncated length"@)
        } else {
            Ok(2 + n + big_endian(bytes.subrange(2, 2 + n as int)))
        }
    }
}

/// The length of the first DER structure of `bytes`, or the message that says
/// why there is none.
pub open spec fn der_extent(bytes: Seq<u8>) -> Result<nat, Seq<char>> {
    match claimed_len(bytes) {
        Err(m) => Err(m),
        Ok(total) => if bytes.len() < total {
            Err(truncated_body(total, bytes.len()))
        } else {
            Ok(total)
        },
    }
}

/// The structures that `bytes` is the concatenation of, or the message that
/// says why the first unreadable one cannot be read.
pub open spec fn der_sequence(bytes: Seq<u8>) -> Result<Seq<Seq<u8>>, Seq<char>>
    decreases bytes.len(),
{
    if bytes.len() == 0 {
        Ok(Seq::empty())
    } else {
        match der_extent(bytes) {
            Err(m) => Err(m),
            Ok(n) => match der_sequence(bytes.skip(n as int)) {
                Err(m) => Err(m),
                Ok(rest) => Ok(seq![bytes.take(n as int)] + rest),
            },
        }
    }
}

/// Whether `bytes` is exactly one DER structure.
pub open spec fn is_one_der(bytes: Seq<u8>) -> bool {
    der_extent(bytes) == Ok::<nat, Seq<char>>(bytes.len())
}

/// The first structure does not depend on what follows it.
pub(crate) proof fn lemma_extent_of_prefix(first: Seq<u8>, rest: Seq<u8>)
    requires
        is_one_der(first),
    ensures
        der_extent(first + rest) == Ok::<nat, Seq<char>>(first.len()),
{
    if first[1] >= 0x80 {
        let n = first[1] - 0x80;
        assert((first + rest).subrange(2, 2 + n) =~= first.subrange(2, 2 + n));
    }
}

/// The structure at the start of `bytes`, cut out, is one structure.
proof fn lemma_extent_cut(bytes: Seq<u8>)
    requires
        der_extent(bytes) is Ok,
    ensures
        2 <= der_extent(bytes)->Ok_0 <= bytes.len(),
        is_one_der(bytes.take(der_extent(bytes)->Ok_0 as int)),
{
    let total = der_extent(bytes)->Ok_0;
    if bytes[1] >= 0x80 {
        let n = bytes[1] - 0x80;
        assert(bytes.take(total as int).subrange(2, 2 + n) =~= bytes.subrange(2, 2 + n));
    }
}

/// Splitting loses nothing: the structures found are each one DER structure,
/// and put one after another they are the input again.
pub proof fn law_split_then_join(bytes: Seq<u8>)
    ensures
        der_sequence(bytes) matches Ok(parts) ==> {
            &&& parts.flatten() == bytes
            &&& forall|i: int| 0 <= i < parts.len() ==> is_one_der(#[trigger] parts[i])
        },
    decreases bytes.len(),
{
    if der_sequence(bytes) is Ok {
        let parts = der_sequence(bytes)->Ok_0;
        if bytes.len() == 0 {
            assert(parts.flatten() =~= bytes);
        } else {
            lemma_extent_cut(bytes);
            let n = der_extent(bytes)->Ok_0 as int;
            law_split_then_join(bytes.skip(n));
            let rest = der_sequence(bytes.skip(n))->Ok_0;
            assert(parts.drop_first() =~= rest);
            assert(parts.first() + parts.drop_first().flatten() =~= bytes);
            assert forall|i: int| 0 <= i < parts.len() implies is_one_der(#[trigger] parts[i]) by {
                if i > 0 {
                    assert(parts[i] == rest[i - 1]);
                }
            }
        }
    }
}

/// Joining is undone by splitting: any DER structures put one after another
/// are found again, in order and unchanged.
pub proof fn law_join_then_split(parts: Seq<Seq<u8>>)
    requires
        forall|i: int| 0 <= i < parts.len() ==> is_one_der(#[trigger] parts[i]),
    ensures
        der_sequence(parts.flatten()) == Ok::<Seq<Seq<u8>>, Seq<char>>(parts),
    decreases parts.len(),
{
    if parts.len() == 0 {
        assert(parts =~= Seq::empty());
    } else {
        let first = parts.first();
        let rest = parts.drop_first();
        assert(is_one_der(parts[0]));
        assert forall|i: int| 0 <= i < rest.len() implies is_one_der(#[trigger] rest[i]) by {
            assert(rest[i] == parts[i + 1]);
        }
        law_join_then_split(rest);
        let whole = parts.flatten();
        lemma_extent_of_prefix(first, rest.flatten());
        assert(whole == first + rest.flatten());
        assert(whole.skip(first.len() as int) =~= rest.flatten());
        assert(whole.take(first.len() as int) =~= first);
        assert(seq![first] + rest =~= parts);
    }
}

/// Reads `n` length octets that start at `bytes[2]`.
fn read_length(bytes: &[u8], n: usize) -> (r: u64)
    requires
        n <= 4,
        2 + n <= bytes@.len(),
    ensures
        r == big_endian(bytes@.subrange(2, 2 + n)),
        r <= 0xffff_ffff,
{
    let mut len: u64 = 0;
    let mut i: usize = 0;
    proof {
        assert(bytes@.subrange(2, 2) =~= Seq::<u8>::empty());
    }
    while i < n
        invariant
            i <= n <= 4,
            2 + n <= bytes@.len(),
            len == big_endian(bytes@.subrange(2, 2 + i)),
            i == 0 ==> len == 0,
            i == 1 ==> len <= 0xff,
            i == 2 ==> len <= 0xffff,
            i == 3 ==> len <= 0xff_ffff,
            i == 4 ==> len <= 0xffff_ffff,
        decreases n - i,
    {
        proof {
            assert(bytes@.subrange(2, 2 + i + 1).drop_last() =~= bytes@.subrange(2, 2 + i));
        }
        len = len * 256 + bytes[2 + i] as u64;
        i += 1;
    }
    len
}

/// Walks one DER-encoded structure (tag, length, value) at the start of
/// `bytes`. Returns what remains after it, and the structure itself.
pub fn consume_one_der(bytes: &[u8]) -> (r: Result<(&[u8], &[u8]), Error>)
    ensures
        match r {
            Ok((rest, consumed)) => {
                &&& der_extent(bytes@) == Ok::<nat, Seq<char>>(consumed@.len())
                &&& bytes@ == consumed@ + rest@
            },
            Err(e) => {
                &&& der_extent(bytes@) matches Err(m)
                &&& e@ == ErrorView::X509(m)
            },
        },
{
    let have: usize = bytes.len();
    if have < 2 {
        return Err(
            Error::X509(enclose("truncated DER (", decimal_text(have as u64).as_str(), " bytes)")),
        );
    }
    let len_byte: u8 = bytes[1];
    let total: u64 = if len_byte < 0x80 {
        2 + len_byte as u64
    } else {
        let n: usize = (len_byte - 0x80) as usize;
        if n == 0 || n > 4 {
            return Err(
                Error::X509(join("unsupported length octets: ", decimal_text(n as u64).as_str())),
            );
        }
        if have < 2 + n {
            return Err(Error::X509("truncated length".to_owned()));
        }
        2 + n as u64 + read_length(bytes, n)
    };
    if (have as u64) < total {
        let need = enclose("truncated DER body: need ", decimal_text(total).as_str(), ", have ");
        return Err(
            Error::X509(join(need.as_str(), decimal_text(have as u64).as_str())),
        );
    }
    let end: usize = total as usize;
    proof {
        assert(bytes@ =~= bytes@.subrange(0, end as int) + bytes@.subrange(end as int, have as int));
    }
    Ok((slice_subrange(bytes, end, have), slice_subrange(bytes, 0, end)))
}

/// Whether `piece` is a tag, a length and as many bytes as the length says. The
/// length is one octet below 128, or one to four octets in base 256 that
/// follow an octet with their number.
pub open spec fn is_tlv(piece: Seq<u8>) -> bool {
    let len = piece.len();
    ||| len >= 2 && piece[1] < 0x80 && len == 2 + piece[1]
    ||| len >= 3 && piece[1] == 0x81 && len == 3 + piece[2]
    ||| len >= 4 && piece[1] == 0x82 && len == 4 + 0x100 * piece[2] + piece[3]
    ||| len >= 5 && piece[1] == 0x83 && len == 5 + 0x1_0000 * piece[2] + 0x100 * piece[3] + piece[4]
    ||| len >= 6 && piece[1] == 0x84 && len == 6 + 0x100_0000 * piece[2] + 0x1_0000 * piece[3]
        + 0x100 * piece[4] + piece[5]
}

/// Up to four octets, written out.
proof fn lemma_big_endian_written_out(o: Seq<u8>)
    ensures
        o.len() == 1 ==> big_endian(o) == o[0],
        o.len() == 2 ==> big_endian(o) == 0x100 * o[0] + o[1],
        o.len() == 3 ==> big_endian(o) == 0x1_0000 * o[0] + 0x100 * o[1] + o[2],
        o.len() == 4 ==> big_endian(o) == 0x100_0000 * o[0] + 0x1_0000 * o[1] + 0x100 * o[2] + o[3],
{
    reveal_with_fuel(big_endian, 5);
}

/// A structure that stands at the start of the input is found, with its tag,
/// its length and as many bytes as the length says. What follows it makes no
/// difference.
pub proof fn law_structure_is_found_where_it_stands(piece: Seq<u8>, rest: Seq<u8>)
    requires
        is_tlv(piece),
    ensures
        der_extent(piece + rest) == Ok::<nat, Seq<char>>(piece.len()),
{
    let bytes = piece + rest;
    if bytes[1] >= 0x80 {
        let n = bytes[1] - 0x80;
        let octets = bytes.subrange(2, 2 + n);
        lemma_big_endian_written_out(octets);
        assert(n >= 1 ==> octets[0] == piece[2]);
        assert(n >= 2 ==> octets[1] == piece[3]);
        assert(n >= 3 ==> octets[2] == piece[4]);
        assert(n >= 4 ==> octets[3] == piece[5]);
    }
}

/// Nothing else is found: a structure that is reported lies within the input,
/// and it is a tag, a length and as many bytes as the length says.
pub proof fn law_only_structures_are_found(bytes: Seq<u8>)
    ensures
        der_extent(bytes) matches Ok(n) ==> n <= bytes.len() && is_tlv(bytes.take(n as int)),
{
    if der_extent(bytes) is Ok && bytes[1] >= 0x80 {
        let n = bytes[1] - 0x80;
        let octets = bytes.subrange(2, 2 + n);
        lemma_big_endian_written_out(octets);
        assert(n >= 1 ==> octets[0] == bytes[2]);
        assert(n >= 2 ==> octets[1] == bytes[3]);
        assert(n >= 3 ==> octets[2] == bytes[4]);
        assert(n >= 4 ==> octets[3] == bytes[5]);
    }
}

/// A body of fewer than 128 bytes after a tag and the short form of its
/// length is found whole, whatever follows it.
pub proof fn law_short_form_is_read(tag: u8, body: Seq<u8>, rest: Seq<u8>)
    requires
        body.len() < 128,
    ensures
        der_extent(seq![tag, body.len() as u8] + body + rest) == Ok::<nat, Seq<char>>(
            2 + body.len(),
        ),
{
    law_structure_is_found_where_it_stands(seq![tag, body.len() as u8] + body, rest);
}

/// A body after a tag and one length octet is found whole.
pub proof fn law_one_length_octet_is_read(tag: u8, a: u8, body: Seq<u8>, rest: Seq<u8>)
    requires
        body.len() == a,
    ensures
        der_extent(seq![tag, 0x81u8, a] + body + rest) == Ok::<nat, Seq<char>>(3 + body.len()),
{
    law_structure_is_found_where_it_stands(seq![tag, 0x81u8, a] + body, rest);
}

/// A body after a tag and two length octets is found whole.
pub proof fn law_two_length_octets_are_read(tag: u8, a: u8, b: u8, body: Seq<u8>, rest: Seq<u8>)
    requires
        body.len() == 256 * a + b,
    ensures
        der_extent(seq![tag, 0x82u8, a, b] + body + rest) == Ok::<nat, Seq<char>>(4 + body.len()),
{
    law_structure_is_found_where_it_stands(seq![tag, 0x82u8, a, b] + body, rest);
}

/// A body after a tag and three length octets is found whole.
pub proof fn law_three_length_octets_are_read(
    tag: u8,
    a: u8,
    b: u8,
    c: u8,
    body: Seq<u8>,
    rest: Seq<u8>,
)
    requires
        body.len() == 65536 * a + 256 * b + c,
    ensures
        der_extent(seq![tag, 0x83u8, a, b, c] + body + rest) == Ok::<nat, Seq<char>>(
            5 + body.len(),
        ),
{
    law_structure_is_found_where_it_stands(seq![tag, 0x83u8, a, b, c] + body, rest);
}

/// A body after a tag and four length octets is found whole.
pub proof fn law_four_length_octets_are_read(
    tag: u8,
    a: u8,
    b: u8,
    c: u8,
    d: u8,
    body: Seq<u8>,
    rest: Seq<u8>,
)
    requires
        body.len() == 16777216 * a + 65536 * b + 256 * c + d,
    ensures
        der_extent(seq![tag, 0x84u8, a, b, c, d] + body + rest) == Ok::<nat, Seq<char>>(
            6 + body.len(),
        ),
{
    law_structure_is_found_where_it_stands(seq![tag, 0x84u8, a, b, c, d] + body, rest);
}

/// The DER encoding of a body under a tag: the length in as few octets as will
/// do.
pub open spec fn encode(tag: u8, body: Seq<u8>) -> Seq<u8> {
    let n = body.len();
    if n < 0x80 {
        seq![tag, n as u8] + body
    } else if n < 0x100 {
        seq![tag, 0x81u8, n as u8] + body
    } else if n < 0x1_0000 {
        seq![tag, 0x82u8, (n / 0x100) as u8, (n % 0x100) as u8] + body
    } else if n < 0x100_0000 {
        seq![
            tag,
            0x83u8,
            (n / 0x1_0000) as u8,
            (n / 0x100 % 0x100) as u8,
            (n % 0x100) as u8,
        ] + body
    } else {
        seq![
            tag,
            0x84u8,
            (n / 0x100_0000) as u8,
            (n / 0x1_0000 % 0x100) as u8,
            (n / 0x100 % 0x100) as u8,
            (n % 0x100) as u8,
        ] + body
    }
}

/// What a DER encoder writes is read back whole, whatever follows it.
pub proof fn law_encoded_structure_is_read_back(tag: u8, body: Seq<u8>, rest: Seq<u8>)
    requires
        body.len() < 0x1_0000_0000,
    ensures
        is_tlv(encode(tag, body)),
        der_extent(encode(tag, body) + rest) == Ok::<nat, Seq<char>>(encode(tag, body).len()),
{
    let n = body.len();
    assert(n / 0x100 / 0x100 == n / 0x1_0000);
    assert(n / 0x1_0000 / 0x100 == n / 0x100_0000);
    law_structure_is_found_where_it_stands(encode(tag, body), rest);
}

/// Input of fewer than two bytes is refused, and the message gives its length.
pub proof fn law_too_short_input_is_reported(bytes: Seq<u8>)
    requires
        bytes.len() < 2,
    ensures
        der_extent(bytes) == Err::<nat, Seq<char>>(
            "truncated DER ("@ + crate::text::decimal(bytes.len()) + " bytes)"@,
        ),
{
}

/// A length without octets, or of more than four, is refused, and the message
/// gives the number of octets.
pub proof fn law_unsupported_length_is_reported(bytes: Seq<u8>)
    requires
        bytes.len() >= 2,
        bytes[1] == 0x80 || bytes[1] > 0x84,
    ensures
        der_extent(bytes) == Err::<nat, Seq<char>>(
            "unsupported length octets: "@ + crate::text::decimal((bytes[1] - 128) as nat),
        ),
{
}

/// Input that ends within the length octets is refused.
pub proof fn law_truncated_length_is_reported(bytes: Seq<u8>)
    requires
        bytes.len() >= 2,
        0x81 <= bytes[1] <= 0x84,
        bytes.len() < bytes[1] - 126,
    ensures
        der_extent(bytes) == Err::<nat, Seq<char>>("truncated length"@),
{
}

/// A structure that is cut off within its body is refused, and the message
/// gives the length of the whole and of what is there.
pub proof fn law_truncated_body_is_reported(piece: Seq<u8>, have: nat)
    requires
        is_tlv(piece),
        have < piece.len(),
        piece[1] < 0x80 ==> have >= 2,
        piece[1] >= 0x80 ==> have >= piece[1] - 126,
    ensures
        der_extent(piece.take(have as int)) == Err::<nat, Seq<char>>(
            "truncated DER body: need "@ + crate::text::decimal(piece.len()) + ", have "@
                + crate::text::decimal(have),
        ),
{
    let bytes = piece.take(have as int);
    if bytes[1] >= 0x80 {
        let n = bytes[1] - 0x80;
        let octets = bytes.subrange(2, 2 + n);
        lemma_big_endian_written_out(octets);
        assert(n >= 1 ==> octets[0] == piece[2]);
        assert(n >= 2 ==> octets[1] == piece[3]);
        assert(n >= 3 ==> octets[2] == piece[4]);
        assert(n >= 4 ==> octets[3] == piece[5]);
    }
}

/// Structures one after another are all found, in order, and then the input is
/// treated as what follows them would be by itself.
pub proof fn law_sequence_continues_after_its_structures(parts: Seq<Seq<u8>>, tail: Seq<u8>)
    requires
        forall|i: int| 0 <= i < parts.len() ==> is_tlv(#[trigger] parts[i]),
    ensures
        match der_sequence(tail) {
            Ok(more) => der_sequence(parts.flatten() + tail) == Ok::<Seq<Seq<u8>>, Seq<char>>(
                parts + more,
            ),
            Err(m) => der_sequence(parts.flatten() + tail) == Err::<Seq<Seq<u8>>, Seq<char>>(m),
        },
    decreases parts.len(),
{
    if parts.len() == 0 {
        assert(parts.flatten() + tail =~= tail);
        assert(der_sequence(tail) matches Ok(more) ==> parts + more =~= more);
    } else {
        let first = parts.first();
        let rest = parts.drop_first();
        assert(is_tlv(parts[0]));
        assert forall|i: int| 0 <= i < rest.len() implies is_tlv(#[trigger] rest[i]) by {
            assert(rest[i] == parts[i + 1]);
        }
        law_sequence_continues_after_its_structures(rest, tail);
        let whole = parts.flatten() + tail;
        assert(parts.flatten() == first + rest.flatten());
        assert(whole =~= first + (rest.flatten() + tail));
        law_structure_is_found_where_it_stands(first, rest.flatten() + tail);
        assert(whole.skip(first.len() as int) =~= rest.flatten() + tail);
        assert(whole.take(first.len() as int) =~= first);
        assert(der_sequence(tail) matches Ok(more) ==> seq![first] + (rest + more) =~= parts
            + more);
    }
}

/// Structures one after another, and nothing else, are all found, in order and
/// unchanged.
pub proof fn law_sequence_is_its_structures(parts: Seq<Seq<u8>>)
    requires
        forall|i: int| 0 <= i < parts.len() ==> is_tlv(#[trigger] parts[i]),
    ensures
        der_sequence(parts.flatten()) == Ok::<Seq<Seq<u8>>, Seq<char>>(parts),
{
    law_sequence_continues_after_its_structures(parts, Seq::empty());
    assert(parts.flatten() + Seq::<u8>::empty() =~= parts.flatten());
    assert(parts + Seq::<Seq<u8>>::empty() =~= parts);
}

/// After structures that can be read, the message is that of the first one
/// that cannot.
pub proof fn law_first_unreadable_structure_is_reported(
    parts: Seq<Seq<u8>>,
    tail: Seq<u8>,
    m: Seq<char>,
)
    requires
        forall|i: int| 0 <= i < parts.len() ==> is_tlv(#[trigger] parts[i]),
        tail.len() > 0,
        der_extent(tail) == Err::<nat, Seq<char>>(m),
    ensures
        der_sequence(parts.flatten() + tail) == Err::<Seq<Seq<u8>>, Seq<char>>(m),
{
    law_sequence_continues_after_its_structures(parts, tail);
}

} // verus!
