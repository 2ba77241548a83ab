//! Numbers, lengths, elements, texts and instants as octets.

use vstd::prelude::*;

use crate::asn1;
use crate::asn1::Asn1Error;
use crate::mms::binary_time;
use crate::mms::error::{MmsError, MmsErrorView};
use crate::mms::pdu::ber;
use crate::mms::pdu::ber::Element;
use crate::mms::pdu::confirmed;
use crate::mms::pdu::information_report;
use crate::mms::pdu::integer;
use crate::text;

verus! {

/// Octets are read most significant first: one more octet at the end multiplies what was
/// read by 256 and adds the octet.
pub proof fn law_unsigned_value(s: Seq<u8>, b: u8)
    ensures
        asn1::uint(Seq::<u8>::empty()) == 0,
        asn1::uint(s.push(b)) == asn1::uint(s) * 256 + b,
{
    assert(s.push(b).drop_last() =~= s);
}

/// Octets read as two's complement: a single octet counts from -128 to 127, and one more
/// octet at the end multiplies what was read by 256 and adds the octet.
pub proof fn law_signed_value(s: Seq<u8>, b: u8)
    ensures
        integer::sint(seq![b]) == (if b < 128 {
            b as int
        } else {
            b - 256
        }),
        s.len() > 0 ==> integer::sint(s.push(b)) == integer::sint(s) * 256 + b,
{
    reveal_with_fuel(asn1::uint, 2);
    reveal_with_fuel(integer::pow256, 2);
    assert(seq![b].drop_last() =~= Seq::<u8>::empty());
    assert(s.push(b).drop_last() =~= s);
    if s.len() > 0 {
        assert(s.push(b)[0] == s[0]);
        assert(integer::pow256(s.push(b).len()) == 256 * integer::pow256(s.len()));
    }
}

/// A number is written in the fewest octets that hold it as two's complement: where there
/// are two or more, the first is not a mere extension of the sign.
pub proof fn law_shortest_octets(v: int)
    ensures
        integer::sint(integer::sint_octets(v)) == v,
        integer::sint_octets(v).len() >= 1,
        integer::sint_octets(v).len() >= 2 ==> !(integer::sint_octets(v)[0] == 0x00
            && integer::sint_octets(v)[1] < 0x80) && !(integer::sint_octets(v)[0] == 0xff
            && integer::sint_octets(v)[1] >= 0x80),
        v >= 0 ==> integer::uint_octets(v as nat) == integer::sint_octets(v),
    decreases (if v < 0 { -v } else { v }),
{
    integer::law_sint_round_trip(v);
    if !(-128 <= v < 128) {
        let head = integer::sint_octets(v / 256);
        integer::law_sint_round_trip(v / 256);
        law_shortest_octets(v / 256);
        if head.len() == 1 {
            assert(head =~= seq![head[0]]);
            law_signed_value(Seq::empty(), head[0]);
        }
    }
}

/// An unsigned 64-bit number below 2^63 is written as a number that is not negative, and a
/// larger one in eight octets; reading either as unsigned gives the number back.
pub proof fn law_unsigned_octets(v: u64)
    ensures
        v < 0x8000_0000_0000_0000 ==> integer::unsigned_octets(v) == integer::sint_octets(v as int),
        v >= 0x8000_0000_0000_0000 ==> integer::unsigned_octets(v).len() == 8,
        asn1::uint(integer::unsigned_octets(v)) == v,
{
    integer::law_unsigned_round_trip(v);
    law_shortest_octets(v as int);
    if v >= 0x8000_0000_0000_0000 {
        integer::lemma_pow256_values();
        integer::lemma_uint_octets_min(v as nat, 7);
    }
}

/// A number is read from one to `max` octets, as unsigned or as two's complement.
pub proof fn law_number_contents(s: Seq<u8>, max: nat)
    ensures
        1 <= s.len() <= max ==> integer::unsigned_at(s, max) == Ok::<nat, MmsError>(asn1::uint(s))
            && integer::signed_at(s, max) == Ok::<int, MmsError>(integer::sint(s)),
        !(1 <= s.len() <= max) ==> integer::unsigned_at(s, max) == Err::<nat, MmsError>(
            MmsError::InvalidLength,
        ) && integer::signed_at(s, max) == Err::<int, MmsError>(MmsError::InvalidLength),
{
}

/// A number is written in a fixed count of octets, which read back as the number.
pub proof fn law_fixed_width(v: u64)
    ensures
        v <= 0xff ==> integer::fixed_octets(v as nat, 1) == seq![v as u8],
        v <= 0xffff ==> integer::fixed_octets(v as nat, 2) == seq![
            (v / 256) as u8,
            (v % 256) as u8,
        ],
        v <= 0xffff_ffff ==> integer::fixed_octets(v as nat, 4) == seq![
            (v / 0x100_0000) as u8,
            (v / 0x1_0000 % 256) as u8,
            (v / 0x100 % 256) as u8,
            (v % 256) as u8,
        ],
        integer::fixed_octets(v as nat, 8).len() == 8,
        asn1::uint(integer::fixed_octets(v as nat, 8)) == v,
{
    integer::lemma_pow256_values();
    integer::law_fixed_round_trip(v as nat, 8);
    reveal_with_fuel(integer::fixed_octets, 5);
    assert(v <= 0xffff_ffff ==> integer::fixed_octets(v as nat, 4) =~= seq![
        (v / 0x100_0000) as u8,
        (v / 0x1_0000 % 256) as u8,
        (v / 0x100 % 256) as u8,
        (v % 256) as u8,
    ]);
}

/// A length below 128 is its own octet; one of eight bits follows 0x81, and one of sixteen
/// follows 0x82. Of a larger one the low sixteen bits are written.
pub proof fn law_length_forms(n: nat)
    ensures
        n < 128 ==> asn1::length_octets(n) == seq![n as u8],
        128 <= n <= 0xff ==> asn1::length_octets(n) == seq![0x81u8, n as u8],
        0x100 <= n <= 0xffff ==> asn1::length_octets(n) == seq![
            0x82u8,
            (n / 256) as u8,
            (n % 256) as u8,
        ],
        n > 0xffff ==> asn1::length_octets(n) == seq![
            0x82u8,
            (n / 256 % 256) as u8,
            (n % 256) as u8,
        ],
{
}

/// How a length is read: an octet below 0x80 is the length, and 0x81 to 0x84 say how many
/// octets of length follow, most significant first. No other first octet is a length, and
/// a field that ends early is truncated.
pub proof fn law_length_fields(first: u8, field: Seq<u8>, rest: Seq<u8>)
    ensures
        asn1::length_at(Seq::<u8>::empty()) == Err::<(nat, nat), Asn1Error>(
            Asn1Error::TruncatedInput,
        ),
        first < 0x80 ==> asn1::length_at(seq![first] + rest) == Ok::<(nat, nat), Asn1Error>(
            (first as nat, 1),
        ),
        0x81 <= first <= 0x84 && field.len() == first - 0x80 ==> asn1::length_at(
            seq![first] + field + rest,
        ) == Ok::<(nat, nat), Asn1Error>((asn1::uint(field), 1 + field.len())),
        0x81 <= first <= 0x84 && field.len() < first - 0x80 ==> asn1::length_at(
            seq![first] + field,
        ) == Err::<(nat, nat), Asn1Error>(Asn1Error::TruncatedInput),
        first == 0x80 || first > 0x84 ==> asn1::length_at(seq![first] + rest) == Err::<
            (nat, nat),
            Asn1Error,
        >(Asn1Error::LengthTooLong { octets: (first - 0x80) as usize }),
{
    if 0x81 <= first <= 0x84 && field.len() == first - 0x80 {
        let s = seq![first] + field + rest;
        assert(s.subrange(1, 1 + (first - 0x80)) =~= field);
    }
}

/// An element is its tag, the octets of its length, and its content.
pub proof fn law_element_octets(tag: u8, val: Seq<u8>)
    ensures
        val.len() < 128 ==> ber::tlv(tag, val) == seq![tag, val.len() as u8] + val,
        128 <= val.len() <= 0xff ==> ber::tlv(tag, val) == seq![tag, 0x81, val.len() as u8] + val,
        0x100 <= val.len() <= 0xffff ==> ber::tlv(tag, val) == seq![
            tag,
            0x82,
            (val.len() / 256) as u8,
            (val.len() % 256) as u8,
        ] + val,
        ber::short_tlv(tag, val) == seq![tag, (val.len() % 256) as u8] + val,
{
    assert(val.len() < 128 ==> ber::tlv(tag, val) =~= seq![tag, val.len() as u8] + val);
}

/// An element is read by its length field, in whichever form the field is written: the
/// content is the octets that the field counts, and the element ends there. Too few
/// octets are a truncated PDU.
pub proof fn law_element_reads(tag: u8, field: Seq<u8>, val: Seq<u8>, rest: Seq<u8>, n: nat)
    requires
        asn1::length_at(field) == Ok::<(nat, nat), Asn1Error>((n, field.len())),
    ensures
        val.len() == n ==> ber::element_at(seq![tag] + field + val + rest) == Ok::<
            Element,
            MmsError,
        >(Element { tag, val, size: 1 + field.len() + n }),
        val.len() < n ==> ber::element_at(seq![tag] + field + val) == Err::<Element, MmsError>(
            MmsError::TruncatedPdu,
        ),
{
    reveal(ber::element_at);
    let tail = val + rest;
    let s = seq![tag] + field + val + rest;
    let t = seq![tag] + field + val;
    assert(s.skip(1) =~= field + tail);
    assert(t.skip(1) =~= field + val);
    if field[0] >= 0x80 {
        let octets = field[0] - 0x80;
        assert((field + tail).subrange(1, 1 + octets) =~= field.subrange(1, 1 + octets));
        assert((field + val).subrange(1, 1 + octets) =~= field.subrange(1, 1 + octets));
    }
    if val.len() == n {
        let start = (1 + field.len()) as int;
        assert(s.subrange(start, start + n) =~= val);
    }
}

/// What is refused at the start of an element: no octets at all, a length field that ends
/// early, and a length field that is none.
pub proof fn law_element_faults(tag: u8, field: Seq<u8>)
    ensures
        ber::element_at(Seq::<u8>::empty()) == Err::<Element, MmsError>(MmsError::TruncatedPdu),
        asn1::length_at(field) matches Err(e) ==> ber::element_at(seq![tag] + field) == Err::<
            Element,
            MmsError,
        >(
            match e {
                Asn1Error::TruncatedInput => MmsError::TruncatedPdu,
                Asn1Error::LengthTooLong { .. } => MmsError::InvalidLength,
            },
        ),
{
    reveal(ber::element_at);
    assert((seq![tag] + field).skip(1) =~= field);
}

/// An element under another tag than the one that was to be there is refused, with both
/// tags in the error.
pub proof fn law_expected_tag(s: Seq<u8>, tag: u8)
    ensures
        s.len() == 0 ==> ber::tagged_at(s, tag) == Err::<Element, MmsError>(MmsError::TruncatedPdu),
        s.len() > 0 && s[0] == tag ==> ber::tagged_at(s, tag) == ber::element_at(s),
        s.len() > 0 && s[0] != tag ==> ber::tagged_at(s, tag) == Err::<Element, MmsError>(
            MmsError::InvalidTag { expected: tag, actual: s[0] },
        ),
{
}

/// Text goes over the wire as UTF-8, and bytes are text exactly where they are UTF-8.
pub proof fn law_text_octets(chars: Seq<char>, bytes: Seq<u8>)
    ensures
        text::utf8(chars) == vstd::utf8::encode_utf8(chars),
        text::text_at(vstd::utf8::encode_utf8(chars)) == Some(chars),
        text::text_at(bytes) is Some <==> vstd::utf8::valid_utf8(bytes),
        text::text_at(bytes) matches Some(t) ==> vstd::utf8::encode_utf8(t) == bytes,
{
    text::lemma_text_round_trip(chars);
    if text::text_at(bytes) is Some {
        text::lemma_text_encodes_back(bytes);
    }
}

/// Six octets name an instant: four of milliseconds since midnight, then two of days
/// since 1984-01-01, which is 441 763 200 000 milliseconds after 1970-01-01.
pub proof fn law_instant_read(s: Seq<u8>)
    requires
        s.len() == 6,
    ensures
        binary_time::time6_at(s) == 441_763_200_000 + (s[4] * 256 + s[5]) * 86_400_000 + (((s[0]
            * 256 + s[1]) * 256 + s[2]) * 256 + s[3]),
{
    reveal_with_fuel(asn1::uint, 5);
    assert(s.take(4).drop_last() =~= s.take(3));
    assert(s.take(3).drop_last() =~= s.take(2));
    assert(s.take(2).drop_last() =~= s.take(1));
    assert(s.take(1).drop_last() =~= Seq::empty());
    assert(s.skip(4).drop_last() =~= seq![s[4]]);
    assert(seq![s[4]].drop_last() =~= Seq::empty());
}

/// An instant is written as the milliseconds since midnight in four octets and the days
/// since 1984-01-01 in two, most significant octet first. An instant before that day is
/// written as the day itself, and one after the last day as the end of the last day.
#[verifier::rlimit(40)]
pub proof fn law_instant_written(days: nat, ms: nat, epoch_ms: u64)
    requires
        days <= 0xffff,
        ms < 86_400_000,
    ensures
        epoch_ms == 441_763_200_000 + days * 86_400_000 + ms ==> binary_time::time6_octets(
            epoch_ms,
        ) == seq![
            (ms / 0x100_0000) as u8,
            (ms / 0x1_0000 % 256) as u8,
            (ms / 0x100 % 256) as u8,
            (ms % 256) as u8,
            (days / 256) as u8,
            (days % 256) as u8,
        ],
        epoch_ms < 441_763_200_000 ==> binary_time::time6_octets(epoch_ms) == seq![
            0u8,
            0,
            0,
            0,
            0,
            0,
        ],
        epoch_ms >= 441_763_200_000 + 65_536 * 86_400_000 ==> binary_time::time6_octets(epoch_ms)
            == seq![0x05u8, 0x26, 0x5b, 0xff, 0xff, 0xff],
{
    binary_time::law_binary_time_saturates(epoch_ms);
    law_fixed_width(86_399_999);
    law_fixed_width(0xffff);
    law_fixed_width(ms as u64);
    law_fixed_width(days as u64);
    if epoch_ms == 441_763_200_000 + days * 86_400_000 + ms {
        let since = (epoch_ms - 441_763_200_000) as nat;
        assert(since % 86_400_000 == ms);
        assert(since / 86_400_000 == days);
    }
    if epoch_ms >= 441_763_200_000 + 65_536 * 86_400_000 {
        let since = 65_536 * 86_400_000 - 1;
        assert(since % 86_400_000 == 86_399_999);
        assert(since / 86_400_000 == 0xffff);
        assert(binary_time::time6_octets(epoch_ms) =~= seq![
            0x05u8,
            0x26,
            0x5b,
            0xff,
            0xff,
            0xff,
        ]);
    }
}


/// A 32-bit number is read from one to four octets, or from five of which the first is
/// zero.
pub proof fn law_number32_contents(s: Seq<u8>)
    ensures
        integer::uint32_at(s) == (if 1 <= s.len() <= 4 || (s.len() == 5 && s[0] == 0) {
            Ok::<u32, MmsError>(asn1::uint(s) as u32)
        } else {
            Err(MmsError::InvalidLength)
        }),
        1 <= s.len() <= 4 || (s.len() == 5 && s[0] == 0) ==> asn1::uint(s) <= u32::MAX,
{
    integer::lemma_pow256_values();
    if 1 <= s.len() <= 4 {
        integer::lemma_uint_bound(s);
        integer::lemma_pow256_mono(s.len(), 4);
    } else if s.len() == 5 && s[0] == 0 {
        integer::lemma_uint_split_first(s);
        integer::lemma_uint_bound(s.skip(1));
    }
}

/// A result agrees with what was to be read exactly where both are a value and the value
/// has this view, or both are the same error.
pub proof fn law_results_agree<T: View>(r: Result<T, MmsError>, want: Result<T::V, MmsError>)
    ensures
        ber::agrees(r, want) <==> match (r, want) {
            (Ok(x), Ok(v)) => x@ == v,
            (Err(x), Err(e)) => x == e,
            _ => false,
        },
{
}

/// As `law_results_agree`, where how many octets the value takes must be the same too.
pub proof fn law_sized_results_agree<T: View>(
    r: Result<(T, usize), MmsError>,
    want: Result<(T::V, nat), MmsError>,
)
    ensures
        ber::agrees_at(r, want) <==> match (r, want) {
            (Ok((x, m)), Ok((v, n))) => x@ == v && m == n,
            (Err(x), Err(e)) => x == e,
            _ => false,
        },
{
}

/// As `law_results_agree`, where the invoke id must be the same too.
pub proof fn law_identified_results_agree<T: View>(
    r: Result<(u32, T), MmsError>,
    want: Result<(u32, T::V), MmsError>,
)
    ensures
        confirmed::agrees_with_id(r, want) <==> match (r, want) {
            (Ok((i, x)), Ok((id, v))) => i == id && x@ == v,
            (Err(x), Err(e)) => x == e,
            _ => false,
        },
{
}

/// As `law_results_agree`, where an error must have this view.
pub proof fn law_report_results_agree<T: View>(
    r: Result<T, MmsError>,
    want: Result<T::V, MmsErrorView>,
)
    ensures
        information_report::agrees_report(r, want) <==> match (r, want) {
            (Ok(x), Ok(v)) => x@ == v,
            (Err(x), Err(e)) => x@ == e,
            _ => false,
        },
{
}


/// An element with a length of one octet is that many octets, of any count up to 255, and
/// too few of them are a truncated PDU.
pub proof fn law_short_elements(tag: u8, n: u8, val: Seq<u8>, rest: Seq<u8>)
    ensures
        val.len() == n ==> ber::short_element_at(seq![tag, n] + val + rest) == Ok::<
            Element,
            MmsError,
        >(Element { tag, val, size: 2 + val.len() }),
        val.len() < n ==> ber::short_element_at(seq![tag, n] + val) == Err::<Element, MmsError>(
            MmsError::TruncatedPdu,
        ),
        ber::short_element_at(seq![tag]) == Err::<Element, MmsError>(MmsError::TruncatedPdu),
{
    if val.len() == n {
        let s = seq![tag, n] + val + rest;
        assert(s.subrange(2, 2 + s[1]) =~= val);
    }
}

} // verus!
