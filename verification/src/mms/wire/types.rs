//! The types of variables, and the services that read variables and their types, as
//! octets.

use vstd::prelude::*;

use crate::asn1;
use crate::mms::error::MmsError;
use crate::mms::pdu::access::{AccessResult, AccessResultView};
use crate::mms::pdu::ber;
use crate::mms::pdu::get_var_access_attrs;
use crate::mms::pdu::get_var_access_attrs::{
    AttributesFields,
    AttributesView,
    GetVariableAccessAttributesRequest,
    GetVariableAccessAttributesResponse,
};
use crate::mms::pdu::integer;
use crate::mms::pdu::object_name::ObjectNameView;
use crate::mms::pdu::read;
use crate::mms::pdu::read::{
    ReadRequest,
    ReadRequestFields,
    ReadRequestView,
    ReadResponse,
    ReadResponseFields,
    ReadResponseView,
};
use crate::mms::pdu::type_specification;
use crate::mms::pdu::type_specification::{
    ArrayFields,
    ComponentFields,
    StructComponent,
    StructComponentView,
    TypeSpecification,
    TypeSpecificationView,
};
use crate::mms::pdu::variable_access::VariableAccessView;
use crate::mms::wire::basics;
use crate::text;

verus! {

broadcast use ber::group_element_sizes;

/// The tag and content of every kind of type. A type with a tag of its own cannot be
/// encoded.
#[verifier::rlimit(40)]
pub proof fn law_type_octets(t: TypeSpecification)
    ensures
        match t {
            TypeSpecification::Boolean => t@.octets() == seq![0x83u8, 0x00],
            TypeSpecification::BitString { bits } => t@.octets() == ber::tlv(
                0x84,
                integer::sint_octets(bits as int),
            ),
            TypeSpecification::Integer { width_bits } => t@.octets() == seq![
                0x85u8,
                0x01,
                width_bits,
            ],
            TypeSpecification::Unsigned { width_bits } => t@.octets() == seq![
                0x86u8,
                0x01,
                width_bits,
            ],
            TypeSpecification::FloatingPoint { format_width, exponent_width } => t@.octets()
                == seq![0xa7u8, 0x06, 0x02, 0x01, format_width, 0x02, 0x01, exponent_width],
            TypeSpecification::OctetString { max_octets } => t@.octets() == ber::tlv(
                0x89,
                integer::sint_octets(max_octets as int),
            ),
            TypeSpecification::VisibleString { max_chars } => t@.octets() == ber::tlv(
                0x8a,
                integer::sint_octets(max_chars as int),
            ),
            TypeSpecification::MmsString { max_chars } => t@.octets() == ber::tlv(
                0x90,
                integer::sint_octets(max_chars as int),
            ),
            TypeSpecification::UtcTime => t@.octets() == seq![0x91u8, 0x00],
            TypeSpecification::BinaryTime { use_long_form: true } => t@.octets() == seq![
                0x8cu8,
                0x01,
                0xff,
            ],
            TypeSpecification::BinaryTime { use_long_form: false } => t@.octets() == seq![
                0x8cu8,
                0x01,
                0x00,
            ],
            TypeSpecification::Array { element_count, element_type } => t@.octets() == ber::tlv(
                0xa1,
                ber::tlv(0x81, integer::sint_octets(element_count as int)) + ber::tlv(
                    0xa2,
                    element_type@.octets(),
                ),
            ) && t@.unknown() == element_type@.unknown(),
            TypeSpecification::Structure { components } => t@.octets() == ber::tlv(
                0xa2,
                ber::tlv(0xa1,
                    type_specification::component_octets(
                    type_specification::component_views(components@))),
            ) && t@.unknown()
                == type_specification::first_unknown(
                type_specification::component_views(components@)),
            TypeSpecification::Unknown(tag) => t@.unknown() == Some(tag),
        },
        !(t is Array) && !(t is Structure) && !(t is Unknown) ==> t@.unknown() is None,
{
    let none = Seq::<u8>::empty();
    assert(ber::tlv(0x83, none) =~= seq![0x83u8, 0x00]);
    assert(ber::tlv(0x91, none) =~= seq![0x91u8, 0x00]);
    match t {
        TypeSpecification::Integer { width_bits } => {
            assert(t@.octets() =~= seq![0x85u8, 0x01, width_bits]);
        },
        TypeSpecification::Unsigned { width_bits } => {
            assert(t@.octets() =~= seq![0x86u8, 0x01, width_bits]);
        },
        TypeSpecification::FloatingPoint { format_width, exponent_width } => {
            assert(t@.octets() =~= seq![
                0xa7u8,
                0x06,
                0x02,
                0x01,
                format_width,
                0x02,
                0x01,
                exponent_width,
            ]);
        },
        TypeSpecification::BinaryTime { use_long_form } => {
            assert(t@.octets() =~= seq![
                0x8cu8,
                0x01,
                if use_long_form {
                    0xffu8
                } else {
                    0x00
                },
            ]);
        },
        TypeSpecification::Array { element_count, .. } => {
            basics::law_shortest_octets(element_count as int);
        },
        _ => {},
    }
}

/// The kind of a type, and what it says of it, are what its view holds.
#[verifier::rlimit(40)]
pub proof fn law_type_view(t: TypeSpecification)
    ensures
        match t {
            TypeSpecification::Boolean => t@ == TypeSpecificationView::Boolean,
            TypeSpecification::BitString { bits } => t@ == (TypeSpecificationView::BitString {
                bits,
            }),
            TypeSpecification::Integer { width_bits } => t@ == (TypeSpecificationView::Integer {
                width_bits,
            }),
            TypeSpecification::Unsigned { width_bits } => t@ == (TypeSpecificationView::Unsigned {
                width_bits,
            }),
            TypeSpecification::FloatingPoint { format_width, exponent_width } => t@
                == (TypeSpecificationView::FloatingPoint { format_width, exponent_width }),
            TypeSpecification::OctetString { max_octets } => t@
                == (TypeSpecificationView::OctetString { max_octets }),
            TypeSpecification::VisibleString { max_chars } => t@
                == (TypeSpecificationView::VisibleString { max_chars }),
            TypeSpecification::MmsString { max_chars } => t@ == (TypeSpecificationView::MmsString {
                max_chars,
            }),
            TypeSpecification::UtcTime => t@ == TypeSpecificationView::UtcTime,
            TypeSpecification::BinaryTime { use_long_form } => t@
                == (TypeSpecificationView::BinaryTime { use_long_form }),
            TypeSpecification::Array { element_count, element_type } => t@
                == (TypeSpecificationView::Array {
                element_count,
                element_type: Box::new(element_type@),
            }),
            TypeSpecification::Structure { components } => t@ is Structure
                && t@->components.len() == components.len() && (forall|i: int|
                0 <= i < components.len() ==> #[trigger] t@->components[i]
                    == (StructComponentView {
                    name: components[i].name@,
                    type_spec: components[i].type_spec@,
                })),
            TypeSpecification::Unknown(tag) => t@ == TypeSpecificationView::Unknown(tag),
        },
{
    match t {
        TypeSpecification::Array { element_count, element_type } => {
            assert(t@ == (TypeSpecificationView::Array {
                element_count,
                element_type: Box::new(element_type.model()),
            }));
        },
        TypeSpecification::Structure { components } => {
            assert(t@->components == type_specification::component_views(components@));
        },
        _ => {},
    }
}

/// The components of a structure are written one after the other, in order: each a
/// sequence 0x30 of the name under 0x80 and the type within 0xa1. The first tag that
/// cannot be encoded is that of the first component that holds one.
#[verifier::rlimit(40)]
pub proof fn law_components_in_order(
    a: Seq<StructComponent>,
    x: StructComponent,
    b: Seq<StructComponent>,
)
    ensures
        type_specification::component_octets(
            type_specification::component_views(Seq::<StructComponent>::empty()))
            == Seq::<u8>::empty(),
        type_specification::component_octets(type_specification::component_views(a.push(x) + b))
            == type_specification::component_octets(type_specification::component_views(a))
            + ber::tlv(
            0x30,
            ber::tlv(0x80, vstd::utf8::encode_utf8(x.name@))
                + ber::tlv(0xa1, x.type_spec@.octets()),
        ) + type_specification::component_octets(type_specification::component_views(b)),
        type_specification::first_unknown(
            type_specification::component_views(Seq::<StructComponent>::empty())) is None,
        type_specification::first_unknown(type_specification::component_views(a.push(x) + b))
            == (match type_specification::first_unknown(type_specification::component_views(a)) {
            Some(tag) => Some(tag),
            None => match x.type_spec@.unknown() {
                Some(tag) => Some(tag),
                None => type_specification::first_unknown(type_specification::component_views(b)),
            },
        }),
    decreases b.len(),
{
    let one = ber::tlv(
        0x30,
        ber::tlv(0x80, vstd::utf8::encode_utf8(x.name@)) + ber::tlv(0xa1, x.type_spec@.octets()),
    );
    assert(x@.octets() == one);
    if b.len() == 0 {
        assert(a.push(x) + b =~= a.push(x));
        assert(type_specification::component_views(a.push(x)).drop_last()
            =~= type_specification::component_views(a));
        assert(type_specification::component_views(a.push(x)).last() == x@);
        assert(type_specification::component_views(b) =~= Seq::empty());
        assert(type_specification::component_octets(type_specification::component_views(b))
            =~= Seq::empty());
        assert(type_specification::component_octets(type_specification::component_views(a.push(x)))
            == type_specification::component_octets(type_specification::component_views(a))
            + one);
        assert(type_specification::component_octets(type_specification::component_views(a)) + one
            + type_specification::component_octets(type_specification::component_views(b))
            =~= type_specification::component_octets(type_specification::component_views(a)) + one);
    } else {
        let rest = b.drop_last();
        law_components_in_order(a, x, rest);
        assert(type_specification::component_views(a.push(x) + b).drop_last()
            =~= type_specification::component_views(a.push(x) + rest));
        assert(type_specification::component_views(b).drop_last()
            =~= type_specification::component_views(rest));
        assert(type_specification::component_octets(
            type_specification::component_views(a.push(x) + b))
            =~= type_specification::component_octets(
            type_specification::component_views(a.push(x) + rest),
        ) + b.last()@.octets());
        assert(type_specification::component_octets(type_specification::component_views(b))
            =~= type_specification::component_octets(type_specification::component_views(rest))
            + b.last()@.octets());
        assert(type_specification::component_octets(
            type_specification::component_views(a.push(x) + b))
            =~= type_specification::component_octets(
            type_specification::component_views(a),
        ) + one + type_specification::component_octets(type_specification::component_views(b)));
    }
}

/// What the simple types decode to, below the ceiling: a boolean and a UTC time by their
/// tag alone, and a bit width or a form by its first octet.
pub proof fn law_simple_types_decode(val: Seq<u8>, tag: u8, rest: Seq<u8>, depth: int, max: int)
    requires
        val.len() <= 0xffff,
        depth < max,
    ensures
        ({
            let n = ber::tlv(tag, val).len();
            let short = Err::<(TypeSpecificationView, nat), MmsError>(MmsError::InvalidLength);
            let got = TypeSpecificationView::parse(ber::tlv(tag, val) + rest, depth, max);
            &&& tag == 0x83 ==> got == Ok::<(TypeSpecificationView, nat), MmsError>(
                (TypeSpecificationView::Boolean, n),
            )
            &&& tag == 0x91 ==> got == Ok::<(TypeSpecificationView, nat), MmsError>(
                (TypeSpecificationView::UtcTime, n),
            )
            &&& tag == 0x85 ==> got == (if val.len() == 0 {
                short
            } else {
                Ok((TypeSpecificationView::Integer { width_bits: val[0] }, n))
            })
            &&& tag == 0x86 ==> got == (if val.len() == 0 {
                short
            } else {
                Ok((TypeSpecificationView::Unsigned { width_bits: val[0] }, n))
            })
            &&& tag == 0x8c ==> got == (if val.len() == 0 {
                short
            } else {
                Ok((TypeSpecificationView::BinaryTime { use_long_form: val[0] != 0 }, n))
            })
            &&& tag != 0xa1 && tag != 0xa2 && !(0x83 <= tag <= 0x86) && tag != 0xa7 && !(0x89
                <= tag <= 0x8a) && tag != 0x8c && tag != 0x90 && tag != 0x91 ==> got == Ok::<
                (TypeSpecificationView, nat),
                MmsError,
            >((TypeSpecificationView::Unknown(tag), n))
        }),
{
    ber::law_element_round_trip(tag, val, rest);
}

/// What the sized types decode to, below the ceiling: the size is a signed number of one
/// to four octets.
pub proof fn law_sized_types_decode(val: Seq<u8>, rest: Seq<u8>, depth: int, max: int)
    requires
        val.len() <= 0xffff,
        depth < max,
    ensures
        1 <= val.len() <= 4 ==> {
            let v = integer::sint(val) as i32;
            let n = 2 + val.len();
            &&& i32::MIN <= integer::sint(val) <= i32::MAX
            &&& TypeSpecificationView::parse(ber::tlv(0x84, val) + rest, depth, max) == Ok::<
                (TypeSpecificationView, nat),
                MmsError,
            >((TypeSpecificationView::BitString { bits: v }, n))
            &&& TypeSpecificationView::parse(ber::tlv(0x89, val) + rest, depth, max) == Ok::<
                (TypeSpecificationView, nat),
                MmsError,
            >((TypeSpecificationView::OctetString { max_octets: v }, n))
            &&& TypeSpecificationView::parse(ber::tlv(0x8a, val) + rest, depth, max) == Ok::<
                (TypeSpecificationView, nat),
                MmsError,
            >((TypeSpecificationView::VisibleString { max_chars: v }, n))
            &&& TypeSpecificationView::parse(ber::tlv(0x90, val) + rest, depth, max) == Ok::<
                (TypeSpecificationView, nat),
                MmsError,
            >((TypeSpecificationView::MmsString { max_chars: v }, n))
        },
        val.len() == 0 || val.len() > 4 ==> {
            let refused = Err::<(TypeSpecificationView, nat), MmsError>(MmsError::InvalidLength);
            &&& TypeSpecificationView::parse(ber::tlv(0x84, val) + rest, depth, max) == refused
            &&& TypeSpecificationView::parse(ber::tlv(0x89, val) + rest, depth, max) == refused
            &&& TypeSpecificationView::parse(ber::tlv(0x8a, val) + rest, depth, max) == refused
            &&& TypeSpecificationView::parse(ber::tlv(0x90, val) + rest, depth, max) == refused
        },
{
    ber::law_element_round_trip(0x84, val, rest);
    ber::law_element_round_trip(0x89, val, rest);
    ber::law_element_round_trip(0x8a, val, rest);
    ber::law_element_round_trip(0x90, val, rest);
    if 1 <= val.len() <= 4 {
        integer::lemma_uint_bound(val);
        integer::lemma_uint_top(val);
        integer::lemma_pow256_values();
        integer::lemma_pow256_mono(val.len(), 4);
    }
}

/// A floating point type is two integers of one octet, the width of the format before
/// that of the exponent.
pub proof fn law_float_type_decodes(format: u8, exponent: u8, rest: Seq<u8>, depth: int, max: int)
    requires
        depth < max,
    ensures
        TypeSpecificationView::parse(
            seq![0xa7u8, 0x06, 0x02, 0x01, format, 0x02, 0x01, exponent] + rest,
            depth,
            max,
        ) == Ok::<(TypeSpecificationView, nat), MmsError>(
            (
                TypeSpecificationView::FloatingPoint {
                    format_width: format,
                    exponent_width: exponent,
                },
                8,
            ),
        ),
{
    let val = seq![0x02u8, 0x01, format, 0x02, 0x01, exponent];
    ber::law_element_round_trip(0xa7, val, rest);
    assert(ber::tlv(0xa7, val) =~= seq![0xa7u8, 0x06, 0x02, 0x01, format, 0x02, 0x01, exponent]);
}

/// What is refused in a floating point type, and a type at the ceiling.
pub proof fn law_type_faults(
    format: u8,
    exponent: u8,
    tag: u8,
    n: u8,
    s: Seq<u8>,
    rest: Seq<u8>,
    depth: int,
    max: int,
)
    ensures
        depth >= max && max <= 255 && 0 <= depth <= 255 ==> TypeSpecificationView::parse(
            s,
            depth,
            max,
        ) == Err::<(TypeSpecificationView, nat), MmsError>(
            MmsError::NestingLevelExceeded { max: max as u8, got: depth as u8 },
        ),
        depth < max && tag != 0x02 ==> TypeSpecificationView::parse(
            seq![0xa7u8, 0x06, tag, 0x01, format, 0x02, 0x01, exponent] + rest,
            depth,
            max,
        ) == Err::<(TypeSpecificationView, nat), MmsError>(
            MmsError::InvalidTag { expected: 0x02, actual: tag },
        ),
        depth < max && n != 1 && n <= 4 ==> TypeSpecificationView::parse(
            seq![0xa7u8, 0x06, 0x02, n, format, 0x02, 0x01, exponent] + rest,
            depth,
            max,
        ) == Err::<(TypeSpecificationView, nat), MmsError>(MmsError::InvalidLength),
        depth < max && n < 6 && s.len() == n ==> TypeSpecificationView::parse(
            seq![0xa7u8, n] + s + rest,
            depth,
            max,
        ) == Err::<(TypeSpecificationView, nat), MmsError>(MmsError::TruncatedPdu),
{
    let one = seq![tag, 0x01, format, 0x02, 0x01, exponent];
    let two = seq![0x02u8, n, format, 0x02, 0x01, exponent];
    ber::law_element_round_trip(0xa7, one, rest);
    ber::law_element_round_trip(0xa7, two, rest);
    assert(ber::tlv(0xa7, one) =~= seq![0xa7u8, 0x06, tag, 0x01, format, 0x02, 0x01, exponent]);
    assert(ber::tlv(0xa7, two) =~= seq![0xa7u8, 0x06, 0x02, n, format, 0x02, 0x01, exponent]);
    if s.len() == n && n < 6 {
        ber::law_element_round_trip(0xa7, s, rest);
        assert(ber::tlv(0xa7, s) =~= seq![0xa7u8, n] + s);
    }
}

/// What an array decodes to: the count under 0x81, and the type of its elements, read one
/// level down, within 0xa2. Without one of them the array is truncated.
#[verifier::rlimit(40)]
pub proof fn law_array_type_decodes(
    count: Seq<u8>,
    e: Seq<u8>,
    t: TypeSpecificationView,
    n: nat,
    rest: Seq<u8>,
    depth: int,
    max: int,
)
    requires
        1 <= count.len() <= 4,
        e.len() <= 0x7000,
        depth < max,
        TypeSpecificationView::parse(e, depth + 1, max) == Ok::<
            (TypeSpecificationView, nat),
            MmsError,
        >((t, n)),
    ensures
        TypeSpecificationView::parse(
            ber::tlv(0xa1, ber::tlv(0x81, count) + ber::tlv(0xa2, e)) + rest,
            depth,
            max,
        ) == Ok::<(TypeSpecificationView, nat), MmsError>(
            (
                TypeSpecificationView::Array {
                    element_count: asn1::uint(count) as u32,
                    element_type: Box::new(t),
                },
                ber::tlv(0xa1, ber::tlv(0x81, count) + ber::tlv(0xa2, e)).len(),
            ),
        ),
        TypeSpecificationView::parse(ber::tlv(0xa1, ber::tlv(0x81, count)) + rest, depth, max)
            == Err::<
            (TypeSpecificationView, nat),
            MmsError,
        >(MmsError::TruncatedPdu),
        TypeSpecificationView::parse(ber::tlv(0xa1, ber::tlv(0xa2, e)) + rest, depth, max) == Err::<
            (TypeSpecificationView, nat),
            MmsError,
        >(MmsError::TruncatedPdu),
{
    let steps = type_specification::array_fields(depth + 1, max);
    let start: ArrayFields = (None, None);
    let counted: ArrayFields = (Some(asn1::uint(count) as u32), None);
    ber::law_element_round_trip(0xa1, ber::tlv(0x81, count) + ber::tlv(0xa2, e), rest);
    ber::lemma_fold_tlv(0x81, count, ber::tlv(0xa2, e), start, steps);
    ber::lemma_fold_last(0xa2, e, counted, steps);
    ber::law_element_round_trip(0xa1, ber::tlv(0x81, count), rest);
    ber::lemma_fold_last(0x81, count, start, steps);
    ber::law_element_round_trip(0xa1, ber::tlv(0xa2, e), rest);
    ber::lemma_fold_last(0xa2, e, start, steps);
    assert(steps(start, 0x81, count) == Ok::<ArrayFields, MmsError>(counted));
    assert(steps(counted, 0xa2, e) == Ok::<ArrayFields, MmsError>((counted.0, Some(t))));
    assert(steps(start, 0xa2, e) == Ok::<ArrayFields, MmsError>((None, Some(t))));
}

/// One more field of an array that decodes sets the count (0x81) or the type of the
/// elements (0xa2), and a field with another tag changes nothing.
pub proof fn law_array_type_field(
    c: Seq<u8>,
    count: u32,
    t: TypeSpecificationView,
    tag: u8,
    val: Seq<u8>,
    rest: Seq<u8>,
    depth: int,
    max: int,
)
    requires
        c.len() <= 0x7000,
        val.len() <= 0x7000,
        depth < max,
        TypeSpecificationView::parse(ber::tlv(0xa1, c), depth, max) == Ok::<
            (TypeSpecificationView, nat),
            MmsError,
        >(
            (
                TypeSpecificationView::Array { element_count: count, element_type: Box::new(t) },
                ber::tlv(0xa1, c).len(),
            ),
        ),
    ensures
        ({
            let got = TypeSpecificationView::parse(
                ber::tlv(0xa1, c + ber::tlv(tag, val)) + rest,
                depth,
                max,
            );
            let n = ber::tlv(0xa1, c + ber::tlv(tag, val)).len();
            &&& tag == 0x81 && 1 <= val.len() <= 4 ==> got == Ok::<
                (TypeSpecificationView, nat),
                MmsError,
            >(
                (
                    TypeSpecificationView::Array {
                        element_count: asn1::uint(val) as u32,
                        element_type: Box::new(t),
                    },
                    n,
                ),
            )
            &&& tag == 0xa2 ==> got == (match TypeSpecificationView::parse(val, depth + 1, max) {
                Ok((other, _)) => Ok::<(TypeSpecificationView, nat), MmsError>(
                    (
                        TypeSpecificationView::Array {
                            element_count: count,
                            element_type: Box::new(other),
                        },
                        n,
                    ),
                ),
                Err(e) => Err(e),
            })
            &&& tag != 0x81 && tag != 0xa2 ==> got == Ok::<(TypeSpecificationView, nat), MmsError>(
                (
                    TypeSpecificationView::Array {
                        element_count: count,
                        element_type: Box::new(t),
                    },
                    n,
                ),
            )
        }),
{
    let steps = type_specification::array_fields(depth + 1, max);
    let start: ArrayFields = (None, None);
    ber::lemma_element_alone(0xa1, c);
    ber::law_element_round_trip(0xa1, c + ber::tlv(tag, val), rest);
    ber::lemma_fold_append(c, tag, val, start, steps);
    let f: ArrayFields = (Some(count), Some(t));
    assert(ber::fold(c, start, steps) == Ok::<ArrayFields, MmsError>(f));
    assert(steps(f, tag, val) == type_specification::array_field(f, tag, val, depth + 1, max));
    if tag == 0xa2 {
        assert(type_specification::array_field(f, 0xa2, val, depth + 1, max) == (
        match TypeSpecificationView::parse(val, depth + 1, max) {
            Ok((other, _)) => Ok::<ArrayFields, MmsError>((Some(count), Some(other))),
            Err(e) => Err(e),
        }));
    }
}

/// One more field of a structure that decodes sets its components (0xa1), and a field with
/// another tag changes nothing.
pub proof fn law_structure_type_field(
    c: Seq<u8>,
    components: Seq<StructComponentView>,
    tag: u8,
    val: Seq<u8>,
    rest: Seq<u8>,
    depth: int,
    max: int,
)
    requires
        c.len() <= 0x7000,
        val.len() <= 0x7000,
        depth < max,
        TypeSpecificationView::parse(ber::tlv(0xa2, c), depth, max) == Ok::<
            (TypeSpecificationView, nat),
            MmsError,
        >((TypeSpecificationView::Structure { components }, ber::tlv(0xa2, c).len())),
    ensures
        ({
            let got = TypeSpecificationView::parse(
                ber::tlv(0xa2, c + ber::tlv(tag, val)) + rest,
                depth,
                max,
            );
            let n = ber::tlv(0xa2, c + ber::tlv(tag, val)).len();
            &&& tag == 0xa1 ==> got == (match type_specification::component_list_at(
                val,
                depth + 1,
                max,
                Seq::empty(),
            ) {
                Ok(list) => Ok::<(TypeSpecificationView, nat), MmsError>(
                    (TypeSpecificationView::Structure { components: list }, n),
                ),
                Err(e) => Err(e),
            })
            &&& tag != 0xa1 ==> got == Ok::<(TypeSpecificationView, nat), MmsError>(
                (TypeSpecificationView::Structure { components }, n),
            )
        }),
{
    let steps = type_specification::structure_fields(depth + 1, max);
    ber::lemma_element_alone(0xa2, c);
    ber::law_element_round_trip(0xa2, c + ber::tlv(tag, val), rest);
    ber::lemma_fold_append(c, tag, val, None, steps);
    let f = ber::fold(c, None, steps)->Ok_0;
    assert(steps(f, tag, val) == type_specification::structure_field(f, tag, val, depth + 1, max));
}

/// What a structure decodes to: the components within 0xa1, read one level down, and none
/// where there is no such element.
pub proof fn law_structure_type_decodes(c: Seq<u8>, rest: Seq<u8>, depth: int, max: int)
    requires
        c.len() <= 0x7000,
        depth < max,
    ensures
        TypeSpecificationView::parse(ber::tlv(0xa2, ber::tlv(0xa1, c)) + rest, depth, max) == (
        match type_specification::component_list_at(c, depth + 1, max, Seq::empty()) {
            Ok(components) => Ok::<(TypeSpecificationView, nat), MmsError>(
                (TypeSpecificationView::Structure { components },
                    ber::tlv(0xa2, ber::tlv(0xa1, c)).len()),
            ),
            Err(e) => Err(e),
        }),
        TypeSpecificationView::parse(seq![0xa2u8, 0x00] + rest, depth, max) == Ok::<
            (TypeSpecificationView, nat),
            MmsError,
        >((TypeSpecificationView::Structure { components: Seq::empty() }, 2)),
{
    let none = Seq::<u8>::empty();
    let steps = type_specification::structure_fields(depth + 1, max);
    ber::law_element_round_trip(0xa2, ber::tlv(0xa1, c), rest);
    ber::lemma_fold_last(0xa1, c, None, steps);
    assert(steps(None, 0xa1, c) == type_specification::structure_field(
        None,
        0xa1,
        c,
        depth + 1,
        max,
    ));
    ber::law_element_round_trip(0xa2, none, rest);
    assert(ber::tlv(0xa2, none) =~= seq![0xa2u8, 0x00]);
}

/// Components are read in order, each a sequence 0x30 of the name under 0x80 and the type
/// within 0xa1. Without one of them the component is truncated.
#[verifier::rlimit(40)]
pub proof fn law_components_decode(
    name: Seq<u8>,
    e: Seq<u8>,
    t: TypeSpecificationView,
    n: nat,
    c: Seq<u8>,
    acc: Seq<StructComponentView>,
    depth: int,
    max: int,
)
    requires
        name.len() <= 0x7000,
        e.len() <= 0x7000,
        text::text_at(name) is Some,
        TypeSpecificationView::parse(e, depth, max) == Ok::<(TypeSpecificationView, nat), MmsError>(
            (t, n),
        ),
    ensures
        type_specification::component_list_at(Seq::<u8>::empty(), depth, max, acc) == Ok::<
            Seq<StructComponentView>,
            MmsError,
        >(acc),
        type_specification::component_list_at(
            ber::tlv(0x30, ber::tlv(0x80, name) + ber::tlv(0xa1, e)) + c, depth, max, acc)
            == type_specification::component_list_at(
            c,
            depth,
            max,
            acc.push(StructComponentView { name: text::text_at(name)->0, type_spec: t }),
        ),
        type_specification::component_list_at(ber::tlv(0x30, ber::tlv(0x80, name))
            + c, depth, max, acc) == Err::<
            Seq<StructComponentView>,
            MmsError,
        >(MmsError::TruncatedPdu),
        type_specification::component_list_at(ber::tlv(0x30, ber::tlv(0xa1, e))
            + c, depth, max, acc) == Err::<
            Seq<StructComponentView>,
            MmsError,
        >(MmsError::TruncatedPdu),
{
    let steps = type_specification::component_fields(depth, max);
    let start: ComponentFields = (None, None);
    let named: ComponentFields = (text::text_at(name), None);
    let content = ber::tlv(0x80, name) + ber::tlv(0xa1, e);
    ber::law_element_round_trip(0x30, content, c);
    ber::lemma_fold_tlv(0x80, name, ber::tlv(0xa1, e), start, steps);
    ber::lemma_fold_last(0xa1, e, named, steps);
    ber::law_element_round_trip(0x30, ber::tlv(0x80, name), c);
    ber::lemma_fold_last(0x80, name, start, steps);
    ber::law_element_round_trip(0x30, ber::tlv(0xa1, e), c);
    ber::lemma_fold_last(0xa1, e, start, steps);
    assert(steps(start, 0x80, name) == Ok::<ComponentFields, MmsError>(named));
    assert(steps(named, 0xa1, e) == Ok::<ComponentFields, MmsError>((named.0, Some(t))));
    assert(type_specification::component_of(content, depth, max) == Ok::<
        StructComponentView,
        MmsError,
    >(StructComponentView { name: text::text_at(name)->0, type_spec: t }));
    assert(type_specification::component_of(ber::tlv(0x80, name), depth, max) == Err::<
        StructComponentView,
        MmsError,
    >(MmsError::TruncatedPdu));
    assert(steps(start, 0xa1, e) == Ok::<ComponentFields, MmsError>((None, Some(t))));
    assert(type_specification::component_of(ber::tlv(0xa1, e), depth, max) == Err::<
        StructComponentView,
        MmsError,
    >(MmsError::TruncatedPdu));
}

/// A request for the type of a variable holds its name within 0xa0, and an answer the
/// flag under 0x80 and the type within 0xa2; both go under 0xa6.
pub proof fn law_attributes_octets(
    q: GetVariableAccessAttributesRequest,
    r: GetVariableAccessAttributesResponse,
)
    ensures
        get_var_access_attrs::request_octets(q@)
            == ber::tlv(0xa6, ber::tlv(0xa0, q.object_name@.octets())),
        q@ == q.object_name@,
        r@.octets() == ber::tlv(
            0xa6,
            (if r.mms_deletable {
                seq![0x80u8, 0x01, 0xff]
            } else {
                seq![0x80u8, 0x01, 0x00]
            }) + ber::tlv(0xa2, r.type_specification@.octets()),
        ),
        r@ == (AttributesView {
            mms_deletable: r.mms_deletable,
            type_specification: r.type_specification@,
        }),
{
    assert(ber::tlv(0x80, seq![0xffu8]) =~= seq![0x80u8, 0x01, 0xff]);
    assert(ber::tlv(0x80, seq![0x00u8]) =~= seq![0x80u8, 0x01, 0x00]);
}

/// What a request for a type decodes to: the name within 0xa0. An address, or anything
/// else, in its place is refused.
pub proof fn law_attributes_request_decodes(name: Seq<u8>, tag: u8, rest: Seq<u8>)
    requires
        name.len() <= 0x7000,
    ensures
        get_var_access_attrs::request_at(ber::tlv(0xa6, ber::tlv(0xa0, name)) + rest) == (
        match ObjectNameView::parse(name) {
            Ok((v, _)) => Ok::<ObjectNameView, MmsError>(v),
            Err(e) => Err(e),
        }),
        tag != 0xa0 ==> get_var_access_attrs::request_at(ber::tlv(0xa6, ber::tlv(tag, name)) + rest)
            == Err::<ObjectNameView, MmsError>(MmsError::InvalidPdu),
{
    ber::law_element_round_trip(0xa6, ber::tlv(0xa0, name), rest);
    ber::law_element_round_trip(0xa6, ber::tlv(tag, name), rest);
    ber::lemma_element_alone(0xa0, name);
    ber::lemma_element_alone(tag, name);
}

/// What an answer with the type decodes to: the flag under 0x80, which is set by any first
/// octet but zero, and the type within 0xa2. Without one of them it is truncated.
pub proof fn law_attributes_response_decodes(
    flag: Seq<u8>,
    e: Seq<u8>,
    t: TypeSpecificationView,
    n: nat,
    max: u8,
    rest: Seq<u8>,
)
    requires
        flag.len() <= 0x7000,
        e.len() <= 0x7000,
        TypeSpecificationView::parse(e, 0, max as int) == Ok::<
            (TypeSpecificationView, nat),
            MmsError,
        >((t, n)),
    ensures
        AttributesView::parse(ber::tlv(0xa6, ber::tlv(0x80, flag) + ber::tlv(0xa2, e)) + rest, max)
            == (
        if flag.len() == 0 {
            Err::<AttributesView, MmsError>(MmsError::InvalidLength)
        } else {
            Ok(AttributesView { mms_deletable: flag[0] != 0, type_specification: t })
        }),
        flag.len() > 0
            ==> AttributesView::parse(ber::tlv(0xa6, ber::tlv(0x80, flag)) + rest, max) == Err::<
            AttributesView,
            MmsError,
        >(MmsError::TruncatedPdu),
        AttributesView::parse(ber::tlv(0xa6, ber::tlv(0xa2, e)) + rest, max) == Err::<
            AttributesView,
            MmsError,
        >(MmsError::TruncatedPdu),
{
    let steps = get_var_access_attrs::attributes_fields(max);
    let start: AttributesFields = (None, None);
    ber::law_element_round_trip(0xa6, ber::tlv(0x80, flag) + ber::tlv(0xa2, e), rest);
    ber::lemma_fold_tlv(0x80, flag, ber::tlv(0xa2, e), start, steps);
    ber::law_element_round_trip(0xa6, ber::tlv(0x80, flag), rest);
    ber::lemma_fold_last(0x80, flag, start, steps);
    ber::law_element_round_trip(0xa6, ber::tlv(0xa2, e), rest);
    ber::lemma_fold_last(0xa2, e, start, steps);
    if flag.len() > 0 {
        let flagged: AttributesFields = (Some(flag[0] != 0), None);
        ber::lemma_fold_last(0xa2, e, flagged, steps);
        assert(steps(flagged, 0xa2, e) == Ok::<AttributesFields, MmsError>((flagged.0, Some(t))));
    }
    assert(steps(start, 0xa2, e) == Ok::<AttributesFields, MmsError>((None, Some(t))));
}

/// One more field of an answer with a type sets the flag (0x80) or the type (0xa2), and a
/// field with another tag changes nothing.
pub proof fn law_attributes_response_field(
    c: Seq<u8>,
    r: AttributesView,
    tag: u8,
    val: Seq<u8>,
    max: u8,
    rest: Seq<u8>,
)
    requires
        c.len() <= 0x7000,
        val.len() <= 0x7000,
        AttributesView::parse(ber::tlv(0xa6, c), max) == Ok::<AttributesView, MmsError>(r),
    ensures
        ({
            let got = AttributesView::parse(ber::tlv(0xa6, c + ber::tlv(tag, val)) + rest, max);
            &&& tag == 0x80 ==> got == (if val.len() == 0 {
                Err::<AttributesView, MmsError>(MmsError::InvalidLength)
            } else {
                Ok(AttributesView { mms_deletable: val[0] != 0, ..r })
            })
            &&& tag == 0xa2 ==> got == (match TypeSpecificationView::parse(val, 0, max as int) {
                Ok((t, _)) => Ok::<AttributesView, MmsError>(
                    AttributesView { type_specification: t, ..r },
                ),
                Err(e) => Err(e),
            })
            &&& tag != 0x80 && tag != 0xa2 ==> got == Ok::<AttributesView, MmsError>(r)
        }),
{
    let steps = get_var_access_attrs::attributes_fields(max);
    let start: AttributesFields = (None, None);
    ber::lemma_element_alone(0xa6, c);
    ber::law_element_round_trip(0xa6, c + ber::tlv(tag, val), rest);
    ber::lemma_fold_append(c, tag, val, start, steps);
}

/// A request to read holds the variables within 0xa1, after an octet 0x01 under 0x80
/// where they are to come back with the results. The answer holds the results within
/// 0xa1, after the variables within 0xa0 where they come back.
pub proof fn law_read_octets(q: ReadRequest, r: ReadResponse)
    ensures
        q@.octets() == ber::tlv(
            0xa4,
            (if q.specification_with_result {
                seq![0x80u8, 0x01, 0x01]
            } else {
                Seq::<u8>::empty()
            }) + ber::tlv(0xa1, q.variable_access_spec@.octets()),
        ),
        q@ == (ReadRequestView {
            specification_with_result: q.specification_with_result,
            variable_access_spec: q.variable_access_spec@,
        }),
        r@.octets() == ber::tlv(
            0xa4,
            (match r.variable_access_spec {
                Some(v) => ber::tlv(0xa0, v@.octets()),
                None => Seq::<u8>::empty(),
            }) + ber::tlv(0xa1, read::result_octets(read::result_views(r.list_of_access_result@))),
        ),
        match r.variable_access_spec {
            Some(v) => r@.variable_access_spec == Some(v@),
            None => r@.variable_access_spec is None,
        },
        r@.list_of_access_result.len() == r.list_of_access_result.len(),
        forall|i: int|
            0 <= i < r.list_of_access_result.len() ==> #[trigger] r@.list_of_access_result[i]
                == r.list_of_access_result[i]@,
{
    let none = Seq::<u8>::empty();
    assert(ber::tlv(0x80, seq![0x01u8]) =~= seq![0x80u8, 0x01, 0x01]);
    let spec = ber::tlv(0xa1, q.variable_access_spec@.octets());
    assert(none + spec =~= spec);
    let results = ber::tlv(0xa1, read::result_octets(read::result_views(r.list_of_access_result@)));
    assert(none + results =~= results);
}

/// Results are written one after the other, in order.
pub proof fn law_results_in_order(a: Seq<AccessResult>, x: AccessResult, b: Seq<AccessResult>)
    ensures
        read::result_octets(read::result_views(Seq::<AccessResult>::empty())) == Seq::<u8>::empty(),
        read::result_octets(read::result_views(a.push(x) + b))
            == read::result_octets(read::result_views(a)) + x@.octets()
            + read::result_octets(read::result_views(b)),
    decreases b.len(),
{
    if b.len() == 0 {
        assert(a.push(x) + b =~= a.push(x));
        assert(read::result_views(a.push(x)).drop_last() =~= read::result_views(a));
    } else {
        let rest = b.drop_last();
        law_results_in_order(a, x, rest);
        assert(read::result_views(a.push(x) + b).drop_last()
            =~= read::result_views(a.push(x) + rest));
        assert(read::result_views(b).drop_last() =~= read::result_views(rest));
        assert(read::result_octets(read::result_views(a.push(x) + b))
            =~= read::result_octets(read::result_views(a))
            + x@.octets() + read::result_octets(read::result_views(b)));
    }
}

/// Results are read in order, each from where the one before it ended.
pub proof fn law_results_decode(
    result: AccessResultView,
    e: Seq<u8>,
    c: Seq<u8>,
    acc: Seq<AccessResultView>,
)
    requires
        e.len() > 0,
        AccessResultView::parse(e + c)
            == Ok::<(AccessResultView, nat), MmsError>((result, e.len())),
    ensures
        read::result_list_at(Seq::<u8>::empty(), acc) == Ok::<Seq<AccessResultView>, MmsError>(acc),
        read::result_list_at(e + c, acc) == read::result_list_at(c, acc.push(result)),
{
    assert((e + c).skip(e.len() as int) =~= c);
}

/// What a request to read decodes to: the variables within 0xa1, which must be there. One
/// more field sets the flag (0x80) or the variables (0xa1), and a field with another tag
/// changes nothing.
#[verifier::rlimit(40)]
pub proof fn law_read_request_decodes(
    v: Seq<u8>,
    c: Seq<u8>,
    r: ReadRequestView,
    tag: u8,
    val: Seq<u8>,
    rest: Seq<u8>,
)
    requires
        v.len() <= 0x7000,
        val.len() <= 0x7000,
        c.len() <= 0x7000,
        ReadRequestView::parse(ber::tlv(0xa4, c)) == Ok::<ReadRequestView, MmsError>(r),
    ensures
        ReadRequestView::parse(ber::tlv(0xa4, ber::tlv(0xa1, v)) + rest)
            == (match VariableAccessView::parse(
            v,
        ) {
            Ok((spec, _)) => Ok::<ReadRequestView, MmsError>(
                ReadRequestView { specification_with_result: false, variable_access_spec: spec },
            ),
            Err(e) => Err(e),
        }),
        val.len() > 0
            ==> ReadRequestView::parse(ber::tlv(0xa4, ber::tlv(0x80, val) + ber::tlv(0xa1, v))
            + rest)
            == (match VariableAccessView::parse(v) {
            Ok((spec, _)) => Ok::<ReadRequestView, MmsError>(
                ReadRequestView {
                    specification_with_result: val[0] != 0,
                    variable_access_spec: spec,
                },
            ),
            Err(e) => Err(e),
        }),
        val.len() > 0
            ==> ReadRequestView::parse(ber::tlv(0xa4, ber::tlv(0x80, val)) + rest) == Err::<
            ReadRequestView,
            MmsError,
        >(MmsError::TruncatedPdu),
        ReadRequestView::parse(ber::tlv(0xa4, c + ber::tlv(0x80, val)) + rest)
            == (if val.len() == 0 {
            Err::<ReadRequestView, MmsError>(MmsError::InvalidLength)
        } else {
            Ok(ReadRequestView { specification_with_result: val[0] != 0, ..r })
        }),
        ReadRequestView::parse(ber::tlv(0xa4, c + ber::tlv(0xa1, val)) + rest) == (
        match VariableAccessView::parse(val) {
            Ok((spec, _)) => Ok::<ReadRequestView, MmsError>(
                ReadRequestView { variable_access_spec: spec, ..r },
            ),
            Err(e) => Err(e),
        }),
        tag != 0x80 && tag != 0xa1
            ==> ReadRequestView::parse(ber::tlv(0xa4, c + ber::tlv(tag, val)) + rest)
            == Ok::<ReadRequestView, MmsError>(r),
{
    let steps = read::read_request_fields();
    let start: ReadRequestFields = (false, None);
    ber::law_element_round_trip(0xa4, ber::tlv(0xa1, v), rest);
    ber::lemma_fold_last(0xa1, v, start, steps);
    ber::law_element_round_trip(0xa4, ber::tlv(0x80, val), rest);
    ber::lemma_fold_last(0x80, val, start, steps);
    ber::law_element_round_trip(0xa4, ber::tlv(0x80, val) + ber::tlv(0xa1, v), rest);
    ber::lemma_fold_tlv(0x80, val, ber::tlv(0xa1, v), start, steps);
    if val.len() > 0 {
        let flagged: ReadRequestFields = (val[0] != 0, None);
        ber::lemma_fold_last(0xa1, v, flagged, steps);
        assert(steps(start, 0x80, val) == Ok::<ReadRequestFields, MmsError>(flagged));
    }
    ber::lemma_element_alone(0xa4, c);
    ber::law_element_round_trip(0xa4, c + ber::tlv(0x80, val), rest);
    ber::lemma_fold_append(c, 0x80, val, start, steps);
    ber::law_element_round_trip(0xa4, c + ber::tlv(0xa1, val), rest);
    ber::lemma_fold_append(c, 0xa1, val, start, steps);
    ber::law_element_round_trip(0xa4, c + ber::tlv(tag, val), rest);
    ber::lemma_fold_append(c, tag, val, start, steps);
}

/// What the answer to a read decodes to: the results within 0xa1, which must be there. One
/// more field sets the variables that come back (0xa0) or the results (0xa1), and a field
/// with another tag changes nothing.
#[verifier::rlimit(40)]
pub proof fn law_read_response_decodes(
    v: Seq<u8>,
    c: Seq<u8>,
    r: ReadResponseView,
    tag: u8,
    val: Seq<u8>,
    rest: Seq<u8>,
)
    requires
        v.len() <= 0x7000,
        val.len() <= 0x7000,
        c.len() <= 0x7000,
        ReadResponseView::parse(ber::tlv(0xa4, c)) == Ok::<ReadResponseView, MmsError>(r),
    ensures
        ReadResponseView::parse(ber::tlv(0xa4, ber::tlv(0xa1, val)) + rest)
            == (match read::result_list_at(
            val,
            Seq::empty(),
        ) {
            Ok(results) => Ok::<ReadResponseView, MmsError>(
                ReadResponseView { variable_access_spec: None, list_of_access_result: results },
            ),
            Err(e) => Err(e),
        }),
        VariableAccessView::parse(v) is Ok ==> ReadResponseView::parse(
            ber::tlv(0xa4, ber::tlv(0xa0, v)) + rest,
        ) == Err::<ReadResponseView, MmsError>(MmsError::TruncatedPdu),
        VariableAccessView::parse(v) is Ok ==> ReadResponseView::parse(
            ber::tlv(0xa4, ber::tlv(0xa0, v) + ber::tlv(0xa1, val)) + rest,
        ) == (match read::result_list_at(val, Seq::empty()) {
            Ok(results) => Ok::<ReadResponseView, MmsError>(
                ReadResponseView {
                    variable_access_spec: Some(VariableAccessView::parse(v)->Ok_0.0),
                    list_of_access_result: results,
                },
            ),
            Err(e) => Err(e),
        }),
        ReadResponseView::parse(ber::tlv(0xa4, c + ber::tlv(0xa0, v)) + rest) == (
        match VariableAccessView::parse(v) {
            Ok((spec, _)) => Ok::<ReadResponseView, MmsError>(
                ReadResponseView { variable_access_spec: Some(spec), ..r },
            ),
            Err(e) => Err(e),
        }),
        ReadResponseView::parse(ber::tlv(0xa4, c + ber::tlv(0xa1, val)) + rest)
            == (match read::result_list_at(
            val,
            Seq::empty(),
        ) {
            Ok(results) => Ok::<ReadResponseView, MmsError>(
                ReadResponseView { list_of_access_result: results, ..r },
            ),
            Err(e) => Err(e),
        }),
        tag != 0xa0 && tag != 0xa1
            ==> ReadResponseView::parse(ber::tlv(0xa4, c + ber::tlv(tag, val)) + rest)
            == Ok::<ReadResponseView, MmsError>(r),
{
    let steps = read::read_response_fields();
    let start: ReadResponseFields = (None, None);
    ber::law_element_round_trip(0xa4, ber::tlv(0xa1, val), rest);
    ber::lemma_fold_last(0xa1, val, start, steps);
    ber::law_element_round_trip(0xa4, ber::tlv(0xa0, v), rest);
    ber::lemma_fold_last(0xa0, v, start, steps);
    ber::law_element_round_trip(0xa4, ber::tlv(0xa0, v) + ber::tlv(0xa1, val), rest);
    ber::lemma_fold_tlv(0xa0, v, ber::tlv(0xa1, val), start, steps);
    if let Ok((spec, _)) = VariableAccessView::parse(v) {
        let echoed: ReadResponseFields = (Some(spec), None);
        ber::lemma_fold_last(0xa1, val, echoed, steps);
        assert(steps(start, 0xa0, v) == Ok::<ReadResponseFields, MmsError>(echoed));
    }
    ber::lemma_element_alone(0xa4, c);
    ber::law_element_round_trip(0xa4, c + ber::tlv(0xa0, v), rest);
    ber::lemma_fold_append(c, 0xa0, v, start, steps);
    ber::law_element_round_trip(0xa4, c + ber::tlv(0xa1, val), rest);
    ber::lemma_fold_append(c, 0xa1, val, start, steps);
    ber::law_element_round_trip(0xa4, c + ber::tlv(tag, val), rest);
    ber::lemma_fold_append(c, tag, val, start, steps);
}

} // verus!
