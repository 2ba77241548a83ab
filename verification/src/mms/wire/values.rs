//! The values of variables, and the outcomes of accesses, as octets.

use vstd::prelude::*;

use crate::asn1;
use crate::mms::error::MmsError;
use crate::mms::pdu::access::{AccessResult, AccessResultView, DataAccessError, WriteOutcome};
use crate::mms::pdu::ber;
use crate::mms::pdu::data;
use crate::mms::pdu::data::{MmsData, MmsDataView};
use crate::mms::pdu::integer;
use crate::text;

verus! {

/// The tag and content of every kind of value.
pub proof fn law_value_octets(d: MmsData)
    ensures
        d@.octets() == (match d {
            MmsData::Boolean(true) => seq![0x83u8, 0x01, 0xff],
            MmsData::Boolean(false) => seq![0x83u8, 0x01, 0x00],
            MmsData::BitString { padding, data } => ber::tlv(0x84, seq![padding] + data@),
            MmsData::Integer(v) => ber::tlv(0x85, integer::sint_octets(v as int)),
            MmsData::Unsigned(v) => ber::tlv(0x86, integer::unsigned_octets(v)),
            MmsData::Float32(bits) => ber::tlv(0x87, seq![0x08u8]
                + integer::fixed_octets(bits as nat, 4)),
            MmsData::Float64(bits) => ber::tlv(0x87, seq![0x0bu8]
                + integer::fixed_octets(bits as nat, 8)),
            MmsData::OctetString(b) => ber::tlv(0x89, b@),
            MmsData::VisibleString(t) => ber::tlv(0x8a, vstd::utf8::encode_utf8(t@)),
            MmsData::GeneralizedTime(t) => ber::tlv(0x8b, vstd::utf8::encode_utf8(t@)),
            MmsData::BinaryTime(b) => ber::tlv(0x8c, b@),
            MmsData::BooleanArray { padding, data } => ber::tlv(0x8e, seq![padding] + data@),
            MmsData::MmsString(t) => ber::tlv(0x90, vstd::utf8::encode_utf8(t@)),
            MmsData::UtcTime(a) => ber::tlv(0x91, a@),
            MmsData::Array(items) => ber::tlv(0xa1, data::all_octets(data::data_views(items@))),
            MmsData::Structure(items) => ber::tlv(0xa2, data::all_octets(data::data_views(items@))),
        }),
{
    match d {
        MmsData::Boolean(v) => {
            assert(d@.octets() =~= seq![0x83u8, 0x01, if v { 0xffu8 } else { 0x00 }]);
        },
        _ => {},
    }
}

/// The first octet of an encoded value is the tag of its kind.
pub proof fn law_value_first_octet(d: MmsData)
    ensures
        d@.octets()[0] == (match d {
            MmsData::Boolean(_) => 0x83u8,
            MmsData::BitString { .. } => 0x84,
            MmsData::Integer(_) => 0x85,
            MmsData::Unsigned(_) => 0x86,
            MmsData::Float32(_) => 0x87,
            MmsData::Float64(_) => 0x87,
            MmsData::OctetString(_) => 0x89,
            MmsData::VisibleString(_) => 0x8a,
            MmsData::GeneralizedTime(_) => 0x8b,
            MmsData::BinaryTime(_) => 0x8c,
            MmsData::BooleanArray { .. } => 0x8e,
            MmsData::MmsString(_) => 0x90,
            MmsData::UtcTime(_) => 0x91,
            MmsData::Array(_) => 0xa1,
            MmsData::Structure(_) => 0xa2,
        }),
{
}

/// The members of an array or structure are encoded one after the other, in order.
pub proof fn law_members_in_order(a: Seq<MmsData>, x: MmsData, b: Seq<MmsData>)
    ensures
        data::all_octets(data::data_views(Seq::<MmsData>::empty())) == Seq::<u8>::empty(),
        data::all_octets(data::data_views(a.push(x) + b))
            == data::all_octets(data::data_views(a)) + x@.octets()
            + data::all_octets(data::data_views(b)),
    decreases b.len(),
{
    if b.len() == 0 {
        assert(a.push(x) + b =~= a.push(x));
        assert(data::data_views(a.push(x)).drop_last() =~= data::data_views(a));
    } else {
        let rest = b.drop_last();
        let y = b.last();
        law_members_in_order(a, x, rest);
        assert(data::data_views(a.push(x) + b).drop_last() =~= data::data_views(a.push(x) + rest));
        assert(data::data_views(b).drop_last() =~= data::data_views(rest));
        assert(data::data_views(a.push(x) + b).last() == y.model());
        assert(data::all_octets(data::data_views(a.push(x) + b))
            =~= data::all_octets(data::data_views(a)) + x@.octets()
            + data::all_octets(data::data_views(b)));
    }
}

/// The kind and the content of a value are what its view holds.
pub proof fn law_value_view(d: MmsData)
    ensures
        match d {
            MmsData::Boolean(v) => d@ == MmsDataView::Boolean(v),
            MmsData::BitString { padding, data } => d@ == (MmsDataView::BitString {
                padding,
                data: data@,
            }),
            MmsData::Integer(v) => d@ == MmsDataView::Integer(v),
            MmsData::Unsigned(v) => d@ == MmsDataView::Unsigned(v),
            MmsData::Float32(v) => d@ == MmsDataView::Float32(v),
            MmsData::Float64(v) => d@ == MmsDataView::Float64(v),
            MmsData::OctetString(b) => d@ == MmsDataView::OctetString(b@),
            MmsData::VisibleString(t) => d@ == MmsDataView::VisibleString(t@),
            MmsData::GeneralizedTime(t) => d@ == MmsDataView::GeneralizedTime(t@),
            MmsData::BinaryTime(b) => d@ == MmsDataView::BinaryTime(b@),
            MmsData::BooleanArray { padding, data } => d@ == (MmsDataView::BooleanArray {
                padding,
                data: data@,
            }),
            MmsData::MmsString(t) => d@ == MmsDataView::MmsString(t@),
            MmsData::UtcTime(a) => d@ == MmsDataView::UtcTime(a),
            MmsData::Array(items) => d@ is Array && d@->Array_0.len() == items.len() && (forall|
                i: int,
            |
                0 <= i < items.len() ==> #[trigger] d@->Array_0[i] == items[i]@),
            MmsData::Structure(items) => d@ is Structure && d@->Structure_0.len() == items.len()
                && (forall|i: int|
                0 <= i < items.len() ==> #[trigger] d@->Structure_0[i] == items[i]@),
        },
{
}

/// One to eight octets decode to a signed number under the tag 0x85 and to an unsigned one
/// under 0x86; other counts are refused.
pub proof fn law_numbers_decode(val: Seq<u8>, rest: Seq<u8>, depth: int, max: u8)
    requires
        val.len() <= 0xffff,
        depth <= max,
    ensures
        1 <= val.len() <= 8 ==> {
            &&& i64::MIN <= integer::sint(val) <= i64::MAX
            &&& asn1::uint(val) <= u64::MAX
            &&& MmsDataView::parse(ber::tlv(0x85, val) + rest, depth, max) == Ok::<
                (MmsDataView, nat),
                MmsError,
            >((MmsDataView::Integer(integer::sint(val) as i64), 2 + val.len()))
            &&& MmsDataView::parse(ber::tlv(0x86, val) + rest, depth, max) == Ok::<
                (MmsDataView, nat),
                MmsError,
            >((MmsDataView::Unsigned(asn1::uint(val) as u64), 2 + val.len()))
        },
        val.len() == 0 || val.len() > 8 ==> {
            &&& MmsDataView::parse(ber::tlv(0x85, val) + rest, depth, max) == Err::<
                (MmsDataView, nat),
                MmsError,
            >(MmsError::InvalidLength)
            &&& MmsDataView::parse(ber::tlv(0x86, val) + rest, depth, max) == Err::<
                (MmsDataView, nat),
                MmsError,
            >(MmsError::InvalidLength)
        },
{
    ber::law_element_round_trip(0x85, val, rest);
    ber::law_element_round_trip(0x86, val, rest);
    if 1 <= val.len() <= 8 {
        integer::lemma_uint_bound(val);
        integer::lemma_uint_top(val);
        integer::lemma_pow256_values();
        integer::lemma_pow256_mono(val.len(), 8);
        assert(integer::pow256(val.len()) <= 0x1_0000_0000_0000_0000);
    }
}

/// A boolean is true for every first octet but zero, and needs one octet.
pub proof fn law_boolean_decodes(val: Seq<u8>, rest: Seq<u8>, depth: int, max: u8)
    requires
        val.len() <= 0xffff,
        depth <= max,
    ensures
        MmsDataView::parse(ber::tlv(0x83, val) + rest, depth, max) == (if val.len() == 0 {
            Err::<(MmsDataView, nat), MmsError>(MmsError::InvalidLength)
        } else {
            Ok((MmsDataView::Boolean(val[0] != 0), ber::tlv(0x83, val).len()))
        }),
{
    ber::law_element_round_trip(0x83, val, rest);
}

/// A bit string or a boolean array opens with the octet that counts the unused bits.
pub proof fn law_bits_decode(padding: u8, bits: Seq<u8>, rest: Seq<u8>, depth: int, max: u8)
    requires
        bits.len() < 0xffff,
        depth <= max,
    ensures
        MmsDataView::parse(ber::tlv(0x84, seq![padding] + bits) + rest, depth, max) == Ok::<
            (MmsDataView, nat),
            MmsError,
        >(
            (
                MmsDataView::BitString { padding, data: bits },
                ber::tlv(0x84, seq![padding] + bits).len(),
            ),
        ),
        MmsDataView::parse(ber::tlv(0x8e, seq![padding] + bits) + rest, depth, max) == Ok::<
            (MmsDataView, nat),
            MmsError,
        >(
            (
                MmsDataView::BooleanArray { padding, data: bits },
                ber::tlv(0x8e, seq![padding] + bits).len(),
            ),
        ),
        MmsDataView::parse(ber::tlv(0x84, Seq::empty()) + rest, depth, max) == Err::<
            (MmsDataView, nat),
            MmsError,
        >(MmsError::InvalidLength),
        MmsDataView::parse(ber::tlv(0x8e, Seq::empty()) + rest, depth, max) == Err::<
            (MmsDataView, nat),
            MmsError,
        >(MmsError::InvalidLength),
{
    let val = seq![padding] + bits;
    ber::law_element_round_trip(0x84, val, rest);
    ber::law_element_round_trip(0x8e, val, rest);
    ber::law_element_round_trip(0x84, Seq::empty(), rest);
    ber::law_element_round_trip(0x8e, Seq::empty(), rest);
    assert(val.skip(1) =~= bits);
}

/// A floating point value is one octet of exponent width and the bits of the number: four
/// octets make a single-precision float and eight a double-precision one.
pub proof fn law_floats_decode(width: u8, bits: Seq<u8>, rest: Seq<u8>, depth: int, max: u8)
    requires
        bits.len() < 0xffff,
        depth <= max,
    ensures
        bits.len() == 4 ==> asn1::uint(bits) <= u32::MAX && MmsDataView::parse(
            ber::tlv(0x87, seq![width] + bits) + rest,
            depth,
            max,
        ) == Ok::<(MmsDataView, nat), MmsError>(
            (MmsDataView::Float32(asn1::uint(bits) as u32), 7),
        ),
        bits.len() == 8 ==> asn1::uint(bits) <= u64::MAX && MmsDataView::parse(
            ber::tlv(0x87, seq![width] + bits) + rest,
            depth,
            max,
        ) == Ok::<(MmsDataView, nat), MmsError>(
            (MmsDataView::Float64(asn1::uint(bits) as u64), 11),
        ),
        bits.len() != 4 && bits.len() != 8 ==> MmsDataView::parse(
            ber::tlv(0x87, seq![width] + bits) + rest,
            depth,
            max,
        ) == Err::<(MmsDataView, nat), MmsError>(
            MmsError::InvalidFloatSize { actual: (1 + bits.len()) as usize },
        ),
{
    let val = seq![width] + bits;
    ber::law_element_round_trip(0x87, val, rest);
    assert(val.skip(1) =~= bits);
    integer::lemma_uint_bound(bits);
    integer::lemma_pow256_values();
}

/// Octet strings, texts and times are their content. A text that is not UTF-8, a binary
/// time of neither four nor six octets, and a UTC time of other than eight are refused.
pub proof fn law_strings_decode(val: Seq<u8>, rest: Seq<u8>, depth: int, max: u8)
    requires
        val.len() <= 0xffff,
        depth <= max,
    ensures
        ({
            let n = ber::tlv(0x89, val).len();
            let utf8_fault = Err::<(MmsDataView, nat), MmsError>(MmsError::InvalidUtf8);
            &&& MmsDataView::parse(ber::tlv(0x89, val) + rest, depth, max) == Ok::<
                (MmsDataView, nat),
                MmsError,
            >((MmsDataView::OctetString(val), n))
            &&& MmsDataView::parse(ber::tlv(0x8a, val) + rest, depth, max)
                == (match text::text_at(val) {
                Some(t) => Ok((MmsDataView::VisibleString(t), n)),
                None => utf8_fault,
            })
            &&& MmsDataView::parse(ber::tlv(0x8b, val) + rest, depth, max)
                == (match text::text_at(val) {
                Some(t) => Ok((MmsDataView::GeneralizedTime(t), n)),
                None => utf8_fault,
            })
            &&& MmsDataView::parse(ber::tlv(0x90, val) + rest, depth, max)
                == (match text::text_at(val) {
                Some(t) => Ok((MmsDataView::MmsString(t), n)),
                None => utf8_fault,
            })
            &&& MmsDataView::parse(ber::tlv(0x8c, val) + rest, depth, max) == (if val.len() == 4
                || val.len() == 6 {
                Ok((MmsDataView::BinaryTime(val), n))
            } else {
                Err::<(MmsDataView, nat), MmsError>(MmsError::InvalidLength)
            })
        }),
{
    ber::law_element_round_trip(0x89, val, rest);
    ber::law_element_round_trip(0x8a, val, rest);
    ber::law_element_round_trip(0x8b, val, rest);
    ber::law_element_round_trip(0x90, val, rest);
    ber::law_element_round_trip(0x8c, val, rest);
}

/// A UTC time is the eight octets under the tag 0x91; another count is refused.
pub proof fn law_utc_time_decodes(val: Seq<u8>, rest: Seq<u8>, depth: int, max: u8)
    requires
        val.len() <= 0xffff,
        depth <= max,
    ensures
        val.len() == 8 ==> (MmsDataView::parse(ber::tlv(0x91, val) + rest, depth, max) matches Ok(
            (MmsDataView::UtcTime(a), n),
        ) && a@ == val && n == 10),
        val.len() != 8 ==> MmsDataView::parse(ber::tlv(0x91, val) + rest, depth, max) == Err::<
            (MmsDataView, nat),
            MmsError,
        >(MmsError::InvalidUtcTimeLength { actual: val.len() as usize }),
{
    ber::law_element_round_trip(0x91, val, rest);
    if val.len() == 8 {
        assert(data::octets8(val)@ =~= val);
    }
}

/// A tag that no kind of value has is refused, and so is a value below the ceiling.
pub proof fn law_no_value(tag: u8, val: Seq<u8>, rest: Seq<u8>, depth: int, max: u8)
    requires
        val.len() <= 0xffff,
    ensures
        depth <= max && !(0x83 <= tag <= 0x87) && !(0x89 <= tag <= 0x8c) && tag != 0x8e && tag
            != 0x90 && tag != 0x91 && tag != 0xa1 && tag != 0xa2 ==> MmsDataView::parse(
            ber::tlv(tag, val) + rest,
            depth,
            max,
        ) == Err::<(MmsDataView, nat), MmsError>(MmsError::UnknownDataTag(tag)),
        max < depth <= 255 ==> MmsDataView::parse(ber::tlv(tag, val) + rest, depth, max) == Err::<
            (MmsDataView, nat),
            MmsError,
        >(MmsError::NestingLevelExceeded { max, got: depth as u8 }),
{
    ber::law_element_round_trip(tag, val, rest);
}

/// An array under the tag 0xa1, or a structure under 0xa2, without content is empty.
pub proof fn law_empty_list_decodes(rest: Seq<u8>, depth: int, max: u8)
    requires
        depth <= max,
    ensures
        MmsDataView::parse(seq![0xa1u8, 0x00] + rest, depth, max) == Ok::<
            (MmsDataView, nat),
            MmsError,
        >((MmsDataView::Array(Seq::empty()), 2)),
        MmsDataView::parse(seq![0xa2u8, 0x00] + rest, depth, max) == Ok::<
            (MmsDataView, nat),
            MmsError,
        >((MmsDataView::Structure(Seq::empty()), 2)),
{
    let none = Seq::<u8>::empty();
    ber::law_element_round_trip(0xa1, none, rest);
    ber::law_element_round_trip(0xa2, none, rest);
    assert(ber::tlv(0xa1, none) =~= seq![0xa1u8, 0x00]);
    assert(ber::tlv(0xa2, none) =~= seq![0xa2u8, 0x00]);
}

/// Reading a row of values and then one more puts the one more at the end.
proof fn lemma_list_append(s: Seq<u8>, e: Seq<u8>, depth: int, max: u8, acc: Seq<MmsDataView>)
    requires
        depth <= max,
        data::data_list_at(s, depth, max, acc) is Ok,
        MmsDataView::parse(e, depth, max) matches Ok((v, n)) && n == e.len(),
    ensures
        data::data_list_at(s + e, depth, max, acc) == Ok::<Seq<MmsDataView>, MmsError>(
            data::data_list_at(s, depth, max,
                acc)->Ok_0.push(MmsDataView::parse(e, depth, max)->Ok_0.0),
        ),
    decreases s.len(),
{
    broadcast use ber::group_element_sizes;

    if s.len() == 0 {
        assert(s + e =~= e);
        let t = ber::element_at(e)->Ok_0;
        assert(e.skip(t.size as int) =~= Seq::<u8>::empty());
        reveal_with_fuel(data::data_list_at, 2);
    } else {
        let t = ber::element_at(s)->Ok_0;
        ber::lemma_element_prefix(s, e);
        let v = MmsDataView::of_element(t.tag, t.val, depth, max)->Ok_0;
        lemma_list_append(s.skip(t.size as int), e, depth, max, acc.push(v));
    }
}

/// One more value at the end of the content of an array or structure is one more member
/// at its end.
pub proof fn law_member_decodes(c: Seq<u8>, e: Seq<u8>, rest: Seq<u8>, depth: int, max: u8)
    requires
        (c + e).len() <= 0xffff,
        depth < max,
        MmsDataView::parse(e, depth + 1, max) matches Ok((v, n)) && n == e.len(),
    ensures
        ({
            let x = MmsDataView::parse(e, depth + 1, max)->Ok_0.0;
            &&& MmsDataView::parse(ber::tlv(0xa1, c), depth, max) matches Ok((a, _)) ==> (a matches
                MmsDataView::Array(items) && MmsDataView::parse(
                ber::tlv(0xa1, c + e) + rest,
                depth,
                max,
            ) == Ok::<(MmsDataView, nat), MmsError>(
                (MmsDataView::Array(items.push(x)), ber::tlv(0xa1, c + e).len()),
            ))
            &&& MmsDataView::parse(ber::tlv(0xa2, c), depth, max) matches Ok((a, _)) ==> (a matches
                MmsDataView::Structure(items) && MmsDataView::parse(
                ber::tlv(0xa2, c + e) + rest,
                depth,
                max,
            ) == Ok::<(MmsDataView, nat), MmsError>(
                (MmsDataView::Structure(items.push(x)), ber::tlv(0xa2, c + e).len()),
            ))
        }),
{
    ber::lemma_element_alone(0xa1, c);
    ber::lemma_element_alone(0xa2, c);
    ber::law_element_round_trip(0xa1, c + e, rest);
    ber::law_element_round_trip(0xa2, c + e, rest);
    if data::data_list_at(c, depth + 1, max, Seq::empty()) is Ok {
        lemma_list_append(c, e, depth + 1, max, Seq::empty());
    }
}

/// An array or structure at the ceiling may be empty; whatever it holds is one level too
/// deep.
pub proof fn law_deepest_list(c: Seq<u8>, rest: Seq<u8>, max: u8)
    requires
        0 < c.len() <= 0xffff,
        max < 255,
    ensures
        MmsDataView::parse(ber::tlv(0xa1, c) + rest, max as int, max) == Err::<
            (MmsDataView, nat),
            MmsError,
        >(MmsError::NestingLevelExceeded { max, got: (max + 1) as u8 }),
        MmsDataView::parse(ber::tlv(0xa2, c) + rest, max as int, max) == Err::<
            (MmsDataView, nat),
            MmsError,
        >(MmsError::NestingLevelExceeded { max, got: (max + 1) as u8 }),
{
    ber::law_element_round_trip(0xa1, c, rest);
    ber::law_element_round_trip(0xa2, c, rest);
}

/// Values in a row are read in order, each from where the one before it ended.
pub proof fn law_values_in_a_row(
    v: MmsDataView,
    e: Seq<u8>,
    c: Seq<u8>,
    depth: int,
    max: u8,
    acc: Seq<MmsDataView>,
)
    requires
        e.len() > 0,
        MmsDataView::parse(e + c, depth, max) == Ok::<(MmsDataView, nat), MmsError>((v, e.len())),
    ensures
        data::data_list_at(Seq::<u8>::empty(), depth, max, acc) == Ok::<
            Seq<MmsDataView>,
            MmsError,
        >(acc),
        data::data_list_at(e + c, depth, max, acc) == data::data_list_at(
            c,
            depth,
            max,
            acc.push(v),
        ),
{
    assert((e + c).skip(e.len() as int) =~= c);
}

/// The codes of the reasons why an access fails.
pub proof fn law_access_codes(code: u8)
    ensures
        DataAccessError::of_code(0) == Ok::<DataAccessError, MmsError>(
            DataAccessError::ObjectInvalidated,
        ),
        DataAccessError::of_code(1) == Ok::<DataAccessError, MmsError>(
            DataAccessError::HardwareFault,
        ),
        DataAccessError::of_code(2) == Ok::<DataAccessError, MmsError>(
            DataAccessError::TemporarilyUnavailable,
        ),
        DataAccessError::of_code(3) == Ok::<DataAccessError, MmsError>(
            DataAccessError::ObjectAccessDenied,
        ),
        DataAccessError::of_code(4) == Ok::<DataAccessError, MmsError>(
            DataAccessError::ObjectUndefined,
        ),
        DataAccessError::of_code(5) == Ok::<DataAccessError, MmsError>(
            DataAccessError::InvalidAddress,
        ),
        DataAccessError::of_code(6) == Ok::<DataAccessError, MmsError>(
            DataAccessError::TypeUnsupported,
        ),
        DataAccessError::of_code(7) == Ok::<DataAccessError, MmsError>(
            DataAccessError::TypeInconsistent,
        ),
        DataAccessError::of_code(8) == Ok::<DataAccessError, MmsError>(
            DataAccessError::ObjectAttributeInconsistent,
        ),
        DataAccessError::of_code(9) == Ok::<DataAccessError, MmsError>(
            DataAccessError::ObjectAccessUnsupported,
        ),
        DataAccessError::of_code(10) == Ok::<DataAccessError, MmsError>(
            DataAccessError::ObjectNonExistent,
        ),
        DataAccessError::of_code(11) == Ok::<DataAccessError, MmsError>(
            DataAccessError::ObjectValueInvalid,
        ),
        code > 11 ==> DataAccessError::of_code(code) == Err::<DataAccessError, MmsError>(
            MmsError::UnknownDataAccessError(code),
        ),
        DataAccessError::of_code(code) matches Ok(e) ==> e.wire_code() == code,
{
}

/// A read that succeeded is the value itself; one that failed is the code under the tag
/// 0x80.
pub proof fn law_access_result_octets(a: AccessResult)
    ensures
        a@.octets() == (match a {
            AccessResult::Success(d) => d@.octets(),
            AccessResult::Failure(e) => seq![0x80u8, 0x01, e.wire_code()],
        }),
        match a {
            AccessResult::Success(d) => a@ == AccessResultView::Success(d@),
            AccessResult::Failure(e) => a@ == AccessResultView::Failure(e),
        },
{
    if let AccessResult::Failure(e) = a {
        assert(a@.octets() =~= seq![0x80u8, 0x01, e.wire_code()]);
    }
}

/// An element under the tag 0x80 decodes to the failure that its first octet is the code
/// of; anything else is a value within 32 levels of nesting.
pub proof fn law_access_result_decodes(val: Seq<u8>, rest: Seq<u8>, s: Seq<u8>)
    requires
        val.len() <= 0xffff,
    ensures
        AccessResultView::parse(ber::tlv(0x80, val) + rest) == (if val.len() == 0 {
            Err::<(AccessResultView, nat), MmsError>(MmsError::InvalidLength)
        } else {
            match DataAccessError::of_code(val[0]) {
                Ok(e) => Ok((AccessResultView::Failure(e), ber::tlv(0x80, val).len())),
                Err(e) => Err(e),
            }
        }),
        s.len() == 0 || s[0] != 0x80 ==> AccessResultView::parse(s) == (match MmsDataView::parse(
            s,
            0,
            32,
        ) {
            Ok((d, n)) => Ok::<(AccessResultView, nat),
                MmsError>((AccessResultView::Success(d), n)),
            Err(e) => Err(e),
        }),
{
    ber::law_element_round_trip(0x80, val, rest);
}

/// A write that succeeded is the empty element 0x81; one that failed is its code under the
/// tag 0x80.
pub proof fn law_write_outcome_octets(e: DataAccessError)
    ensures
        WriteOutcome::Success.octets() == seq![0x81u8, 0x00],
        WriteOutcome::Failure(e).octets() == seq![0x80u8, 0x01, e.wire_code()],
{
}

/// An element under 0x81 decodes to a write that succeeded, one of one to four octets
/// under 0x80 to the failure that its first octet is the code of, and any other tag is
/// refused.
pub proof fn law_write_outcome_decodes(tag: u8, val: Seq<u8>, rest: Seq<u8>)
    requires
        val.len() <= 0xffff,
    ensures
        WriteOutcome::parse(ber::tlv(0x81, val) + rest) == Ok::<(WriteOutcome, nat), MmsError>(
            (WriteOutcome::Success, ber::tlv(0x81, val).len()),
        ),
        WriteOutcome::parse(ber::tlv(0x80, val) + rest) == (if val.len() == 0 || val.len() > 4 {
            Err::<(WriteOutcome, nat), MmsError>(MmsError::InvalidLength)
        } else {
            match DataAccessError::of_code(val[0]) {
                Ok(e) => Ok((WriteOutcome::Failure(e), ber::tlv(0x80, val).len())),
                Err(e) => Err(e),
            }
        }),
        tag != 0x80 && tag != 0x81 ==> WriteOutcome::parse(ber::tlv(tag, val) + rest) == Err::<
            (WriteOutcome, nat),
            MmsError,
        >(MmsError::UnknownWriteOutcomeTag(tag)),
        WriteOutcome::parse(Seq::<u8>::empty()) == Err::<(WriteOutcome, nat), MmsError>(
            MmsError::TruncatedPdu,
        ),
{
    ber::law_element_round_trip(0x80, val, rest);
    asn1::law_length_round_trip(val.len(), val + rest);
    let s = ber::tlv(0x81, val) + rest;
    assert(s.skip(1) =~= asn1::length_octets(val.len()) + (val + rest));
}

/// Floats are compared as numbers. The bits of a NaN, which is a number to nothing, have
/// every bit of the exponent set and some bit of the fraction; the two zeros are equal,
/// and other numbers are equal where their bits are.
pub proof fn law_float_equality(a: u32, b: u32, x: u64, y: u64)
    ensures
        MmsDataView::Float32(a).equals(MmsDataView::Float32(b)) <==> {
            &&& !(a / 0x80_0000 % 256 == 255 && a % 0x80_0000 != 0)
            &&& !(b / 0x80_0000 % 256 == 255 && b % 0x80_0000 != 0)
            &&& (a == b || ((a == 0 || a == 0x8000_0000) && (b == 0 || b == 0x8000_0000)))
        },
        MmsDataView::Float64(x).equals(MmsDataView::Float64(y)) <==> {
            &&& !(x / 0x10_0000_0000_0000 % 2048 == 2047 && x % 0x10_0000_0000_0000 != 0)
            &&& !(y / 0x10_0000_0000_0000 % 2048 == 2047 && y % 0x10_0000_0000_0000 != 0)
            &&& (x == y || ((x == 0 || x == 0x8000_0000_0000_0000) && (y == 0 || y
                == 0x8000_0000_0000_0000)))
        },
        !MmsDataView::Float32(a).equals(MmsDataView::Float64(x)),
{
}

/// Values are equal only where they are of one kind: lists where they are as long and
/// equal one by one, floats as numbers, and all others where they hold the same.
#[verifier::rlimit(40)]
pub proof fn law_value_equality(a: MmsData, b: MmsData)
    ensures
        a@.equals(b@) <==> match (a, b) {
            (MmsData::Boolean(x), MmsData::Boolean(y)) => x == y,
            (MmsData::Integer(x), MmsData::Integer(y)) => x == y,
            (MmsData::Unsigned(x), MmsData::Unsigned(y)) => x == y,
            (MmsData::Float32(x), MmsData::Float32(y)) => data::singles_equal(x, y),
            (MmsData::Float64(x), MmsData::Float64(y)) => data::doubles_equal(x, y),
            (MmsData::OctetString(x), MmsData::OctetString(y)) => x@ == y@,
            (MmsData::VisibleString(x), MmsData::VisibleString(y)) => x@ == y@,
            (MmsData::GeneralizedTime(x), MmsData::GeneralizedTime(y)) => x@ == y@,
            (MmsData::BinaryTime(x), MmsData::BinaryTime(y)) => x@ == y@,
            (MmsData::MmsString(x), MmsData::MmsString(y)) => x@ == y@,
            (MmsData::UtcTime(x), MmsData::UtcTime(y)) => x@ == y@,
            (
                MmsData::BitString { padding: p, data: x },
                MmsData::BitString { padding: q, data: y },
            ) => p == q && x@ == y@,
            (
                MmsData::BooleanArray { padding: p, data: x },
                MmsData::BooleanArray { padding: q, data: y },
            ) => p == q && x@ == y@,
            (MmsData::Array(x), MmsData::Array(y)) => x.len() == y.len() && (forall|i: int|
                0 <= i < x.len() ==> (#[trigger] x[i]@).equals(y[i]@)),
            (MmsData::Structure(x), MmsData::Structure(y)) => x.len() == y.len() && (forall|i: int|
                0 <= i < x.len() ==> (#[trigger] x[i]@).equals(y[i]@)),
            _ => false,
        },
{
    match (a, b) {
        (MmsData::Array(x), MmsData::Array(y)) => {
            let u = data::data_views(x@);
            let v = data::data_views(y@);
            assert(forall|i: int| 0 <= i < x.len() ==> #[trigger] x[i]@ == u[i]);
            assert(forall|i: int| 0 <= i < x.len() ==> #[trigger] u[i] == x[i]@);
            assert(forall|i: int| 0 <= i < y.len() ==> #[trigger] v[i] == y[i]@);
        },
        (MmsData::Structure(x), MmsData::Structure(y)) => {
            let u = data::data_views(x@);
            let v = data::data_views(y@);
            assert(forall|i: int| 0 <= i < x.len() ==> #[trigger] x[i]@ == u[i]);
            assert(forall|i: int| 0 <= i < x.len() ==> #[trigger] u[i] == x[i]@);
            assert(forall|i: int| 0 <= i < y.len() ==> #[trigger] v[i] == y[i]@);
        },
        (MmsData::UtcTime(x), MmsData::UtcTime(y)) => {
            assert(x@ == y@ ==> x =~= y);
        },
        _ => {},
    }
}

} // verus!
