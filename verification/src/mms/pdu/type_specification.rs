//! The TypeSpecification CHOICE.
//!
//! ## Wire tags
//!
//! | CONTEXT tag | Name            | Content |
//! |-------------|-----------------|---------|
//! | `[0]` EXP.  | typeName        | ObjectName, decode only |
//! | `[1]` IMP.  | array           | SEQUENCE{packed?, count, `[2]` EXP typespec} |
//! | `[2]` IMP.  | structure       | SEQUENCE{packed?, `[1]` IMP SEQ OF StructComponent} |
//! | `[3]` IMP.  | boolean         | NULL, empty content |
//! | `[4]` IMP.  | bitstring       | INTEGER, may be negative |
//! | `[5]` IMP.  | integer         | INTEGER Unsigned8 |
//! | `[6]` IMP.  | unsigned        | INTEGER Unsigned8 |
//! | `[7]` IMP.  | floatingpoint   | SEQUENCE{formatwidth, exponentwidth} |
//! | `[9]` IMP.  | octetstring     | INTEGER, may be negative |
//! | `[10]` IMP. | visiblestring   | INTEGER, may be negative |
//! | `[11]` IMP. | generalizedtime | NULL, decode only |
//! | `[12]` IMP. | binarytime      | BOOLEAN |
//! | `[13]` IMP. | bcd             | INTEGER, decode only |
//! | `[15]` IMP. | objId           | NULL, decode only |
//! | `[16]` IMP. | mMSString       | INTEGER, may be negative |
//! | `[17]` IMP. | utctime         | NULL, empty content |
//!
//! Decoding returns an error once the recursion depth reaches the ceiling, so deeply
//! nested input cannot exhaust the stack. A tag that is not supported decodes to
//! `Unknown(tag)`, which cannot be encoded again.

use bytes::BytesMut;
use vstd::prelude::*;

use crate::buffer;
use crate::mms::error::MmsError;
use crate::mms::pdu::ber;
use crate::mms::pdu::ber::{put_tlv, take_element, take_tagged, Tlv};
use crate::mms::pdu::data;
use crate::mms::pdu::integer;
use crate::mms::pdu::integer::{decode_signed_i32, decode_uint, sint_minimal, uint_minimal};
use crate::mms::pdu::object_name::ber_len_size;
use crate::text;

verus! {

broadcast use ber::group_element_sizes;

/// Local ceiling on TypeSpecification recursion during decode.
///
/// The effective ceiling is the smaller of this constant and the negotiated
/// dataStructureNestingLevel.
pub const MAX_TYPE_SPEC_DEPTH: u8 = 32;

/// One member of an MMS structure, the StructComponent SEQUENCE.
#[derive(Debug, PartialEq, Eq)]
pub struct StructComponent {
    /// Component name, a VisibleString.
    pub name: String,
    /// Component type, itself a TypeSpecification.
    pub type_spec: TypeSpecification,
}

/// The MMS TypeSpecification CHOICE.
///
/// A negative size denotes variable length.
#[derive(Debug, PartialEq, Eq)]
pub enum TypeSpecification {
    /// `[3]` boolean, encoded as NULL with empty content.
    Boolean,
    /// `[4]` bitstring; a negative value denotes variable length.
    BitString {
        /// Bit count; a negative value denotes variable length.
        bits: i32,
    },
    /// `[5]` integer, with the width in bits.
    Integer {
        /// Width of the integer in bits.
        width_bits: u8,
    },
    /// `[6]` unsigned, with the width in bits.
    Unsigned {
        /// Width of the unsigned integer in bits.
        width_bits: u8,
    },
    /// `[7]` floatingpoint, a SEQUENCE with formatwidth before exponentwidth.
    FloatingPoint {
        /// Total width in bits: 32 for float32, 64 for float64.
        format_width: u8,
        /// Exponent width in bits: 8 for float32, 11 for float64.
        exponent_width: u8,
    },
    /// `[9]` octetstring; a negative value denotes variable length.
    OctetString {
        /// Maximum octet count; a negative value denotes variable length.
        max_octets: i32,
    },
    /// `[10]` visiblestring; a negative value denotes variable length.
    VisibleString {
        /// Maximum character count; a negative value denotes variable length.
        max_chars: i32,
    },
    /// `[16]` mMSString; a negative value denotes variable length.
    MmsString {
        /// Maximum character count; a negative value denotes variable length.
        max_chars: i32,
    },
    /// `[17]` utctime, encoded as NULL with empty content.
    UtcTime,
    /// `[12]` binarytime; false selects the 4-byte form, true the 6-byte form.
    BinaryTime {
        /// False selects the 4-byte form, true the 6-byte form.
        use_long_form: bool,
    },
    /// `[1]` array, a SEQUENCE.
    Array {
        /// Number of elements.
        element_count: u32,
        /// Type shared by every element.
        element_type: Box<TypeSpecification>,
    },
    /// `[2]` structure, a SEQUENCE OF StructComponent.
    Structure {
        /// Component list.
        components: Vec<StructComponent>,
    },
    /// An unsupported TypeSpecification tag, passed through so the caller can log it,
    /// forward it, or reject the PDU. It cannot be encoded.
    Unknown(u8),
}

/// A structure member with its name as a text.
#[verifier::ext_equal]
pub struct StructComponentView {
    /// Component name.
    pub name: Seq<char>,
    /// Component type.
    pub type_spec: TypeSpecificationView,
}

/// A TypeSpecification with its names and components in view.
#[verifier::ext_equal]
pub enum TypeSpecificationView {
    /// boolean.
    Boolean,
    /// bitstring.
    BitString {
        /// Bit count.
        bits: i32,
    },
    /// integer.
    Integer {
        /// Width in bits.
        width_bits: u8,
    },
    /// unsigned.
    Unsigned {
        /// Width in bits.
        width_bits: u8,
    },
    /// floatingpoint.
    FloatingPoint {
        /// Total width in bits.
        format_width: u8,
        /// Exponent width in bits.
        exponent_width: u8,
    },
    /// octetstring.
    OctetString {
        /// Maximum octet count.
        max_octets: i32,
    },
    /// visiblestring.
    VisibleString {
        /// Maximum character count.
        max_chars: i32,
    },
    /// mMSString.
    MmsString {
        /// Maximum character count.
        max_chars: i32,
    },
    /// utctime.
    UtcTime,
    /// binarytime.
    BinaryTime {
        /// Whether the 6-byte form is selected.
        use_long_form: bool,
    },
    /// array.
    Array {
        /// Number of elements.
        element_count: u32,
        /// Type shared by every element.
        element_type: Box<TypeSpecificationView>,
    },
    /// structure.
    Structure {
        /// Component list.
        components: Seq<StructComponentView>,
    },
    /// An unsupported tag.
    Unknown(u8),
}

impl TypeSpecification {
    /// The type with its names and components in view.
    pub open spec fn model(self) -> TypeSpecificationView
        decreases self,
    {
        match self {
            TypeSpecification::Boolean => TypeSpecificationView::Boolean,
            TypeSpecification::BitString { bits } => TypeSpecificationView::BitString { bits },
            TypeSpecification::Integer { width_bits } => TypeSpecificationView::Integer {
                width_bits,
            },
            TypeSpecification::Unsigned { width_bits } => TypeSpecificationView::Unsigned {
                width_bits,
            },
            TypeSpecification::FloatingPoint {
                format_width,
                exponent_width,
            } => TypeSpecificationView::FloatingPoint { format_width, exponent_width },
            TypeSpecification::OctetString { max_octets } => TypeSpecificationView::OctetString {
                max_octets,
            },
            TypeSpecification::VisibleString { max_chars } => TypeSpecificationView::VisibleString {
                max_chars,
            },
            TypeSpecification::MmsString { max_chars } => TypeSpecificationView::MmsString {
                max_chars,
            },
            TypeSpecification::UtcTime => TypeSpecificationView::UtcTime,
            TypeSpecification::BinaryTime { use_long_form } => TypeSpecificationView::BinaryTime {
                use_long_form,
            },
            TypeSpecification::Array {
                element_count,
                element_type,
            } => TypeSpecificationView::Array {
                element_count,
                element_type: Box::new(element_type.model()),
            },
            TypeSpecification::Structure { components } => TypeSpecificationView::Structure {
                components: component_views(components@),
            },
            TypeSpecification::Unknown(tag) => TypeSpecificationView::Unknown(tag),
        }
    }
}

/// The views of structure members in a row.
pub open spec fn component_views(components: Seq<StructComponent>) -> Seq<StructComponentView>
    decreases components,
{
    Seq::new(
        components.len(),
        |i: int|
            if 0 <= i < components.len() {
                StructComponentView {
                    name: components[i].name@,
                    type_spec: components[i].type_spec.model(),
                }
            } else {
                arbitrary()
            },
    )
}

impl View for TypeSpecification {
    type V = TypeSpecificationView;

    open spec fn view(&self) -> TypeSpecificationView {
        self.model()
    }
}

impl View for StructComponent {
    type V = StructComponentView;

    open spec fn view(&self) -> StructComponentView {
        StructComponentView { name: self.name@, type_spec: self.type_spec.model() }
    }
}

/// The content of a floatingpoint: two one-octet INTEGERs, formatwidth first.
pub open spec fn floatingpoint_at(val: Seq<u8>) -> Result<TypeSpecificationView, MmsError> {
    if val.len() < 6 {
        Err(MmsError::TruncatedPdu)
    } else if val[0] != 0x02 || val[3] != 0x02 {
        Err(MmsError::InvalidTag { expected: 0x02, actual: val[0] })
    } else if 2 + val[1] > val.len() {
        Err(MmsError::TruncatedPdu)
    } else if val[1] != 1 {
        Err(MmsError::InvalidLength)
    } else if 5 + val[4] > val.len() {
        Err(MmsError::TruncatedPdu)
    } else if val[4] != 1 {
        Err(MmsError::InvalidLength)
    } else {
        Ok(TypeSpecificationView::FloatingPoint { format_width: val[2], exponent_width: val[5] })
    }
}

/// What has been read of an array: the element count and the element type.
pub type ArrayFields = (Option<u32>, Option<TypeSpecificationView>);

/// What has been read of a structure member: its name and its type.
pub type ComponentFields = (Option<Seq<char>>, Option<TypeSpecificationView>);

/// One field of an array; a later field replaces an earlier one, and others are skipped.
pub open spec fn array_field(acc: ArrayFields, tag: u8, val: Seq<u8>, depth: int, max: int) -> Result<
    ArrayFields,
    MmsError,
>
    decreases max - depth, 2int, 0nat,
{
    if tag == 0x81 {
        match integer::uint32_at(val) {
            Ok(n) => Ok((Some(n), acc.1)),
            Err(e) => Err(e),
        }
    } else if tag == 0xa2 {
        match TypeSpecificationView::parse(val, depth, max) {
            Ok((t, _)) => Ok((acc.0, Some(t))),
            Err(e) => Err(e),
        }
    } else {
        Ok(acc)
    }
}

/// `array_field` at this depth.
pub open spec fn array_fields(depth: int, max: int) -> spec_fn(ArrayFields, u8, Seq<u8>) -> Result<
    ArrayFields,
    MmsError,
>
    decreases max - depth, 3int, 0nat,
{
    |acc: ArrayFields, tag: u8, val: Seq<u8>| array_field(acc, tag, val, depth, max)
}

/// The content of an array, whose element type is read at this depth.
pub open spec fn array_at(val: Seq<u8>, depth: int, max: int) -> Result<
    TypeSpecificationView,
    MmsError,
>
    decreases max - depth, 4int, 0nat,
{
    match ber::fold(val, (None, None), array_fields(depth, max)) {
        Err(e) => Err(e),
        Ok((Some(element_count), Some(t))) => Ok(
            TypeSpecificationView::Array { element_count, element_type: Box::new(t) },
        ),
        Ok(_) => Err(MmsError::TruncatedPdu),
    }
}

/// One field of a structure member; a later field replaces an earlier one, and others are
/// skipped.
pub open spec fn component_field(
    acc: ComponentFields,
    tag: u8,
    val: Seq<u8>,
    depth: int,
    max: int,
) -> Result<ComponentFields, MmsError>
    decreases max - depth, 2int, 0nat,
{
    if tag == 0x80 {
        match data::text_field_at(val) {
            Ok(t) => Ok((Some(t), acc.1)),
            Err(e) => Err(e),
        }
    } else if tag == 0xa1 {
        match TypeSpecificationView::parse(val, depth, max) {
            Ok((t, _)) => Ok((acc.0, Some(t))),
            Err(e) => Err(e),
        }
    } else {
        Ok(acc)
    }
}

/// `component_field` at this depth.
pub open spec fn component_fields(depth: int, max: int) -> spec_fn(
    ComponentFields,
    u8,
    Seq<u8>,
) -> Result<ComponentFields, MmsError>
    decreases max - depth, 3int, 0nat,
{
    |acc: ComponentFields, tag: u8, val: Seq<u8>| component_field(acc, tag, val, depth, max)
}

/// The content of a structure member, whose type is read at this depth.
pub open spec fn component_of(val: Seq<u8>, depth: int, max: int) -> Result<
    StructComponentView,
    MmsError,
>
    decreases max - depth, 4int, 0nat,
{
    match ber::fold(val, (None, None), component_fields(depth, max)) {
        Err(e) => Err(e),
        Ok((Some(name), Some(type_spec))) => Ok(StructComponentView { name, type_spec }),
        Ok(_) => Err(MmsError::TruncatedPdu),
    }
}

/// The structure members that fill `s`, each a SEQUENCE, put after those of `acc`.
pub open spec fn component_list_at(
    s: Seq<u8>,
    depth: int,
    max: int,
    acc: Seq<StructComponentView>,
) -> Result<Seq<StructComponentView>, MmsError>
    decreases max - depth, 5int, s.len(),
{
    if s.len() == 0 {
        Ok(acc)
    } else {
        match ber::tagged_at(s, 0x30) {
            Err(e) => Err(e),
            Ok(e) => match component_of(e.val, depth, max) {
                Err(x) => Err(x),
                Ok(c) => {
                    proof {
                        ber::lemma_element_bounds(s);
                    }
                    component_list_at(s.skip(e.size as int), depth, max, acc.push(c))
                },
            },
        }
    }
}

/// One field of a structure; a later component list replaces an earlier one, and other
/// fields are skipped.
pub open spec fn structure_field(
    acc: Option<Seq<StructComponentView>>,
    tag: u8,
    val: Seq<u8>,
    depth: int,
    max: int,
) -> Result<Option<Seq<StructComponentView>>, MmsError>
    decreases max - depth, 6int, 0nat,
{
    if tag == 0xa1 {
        match component_list_at(val, depth, max, Seq::empty()) {
            Ok(list) => Ok(Some(list)),
            Err(e) => Err(e),
        }
    } else {
        Ok(acc)
    }
}

/// `structure_field` at this depth.
pub open spec fn structure_fields(depth: int, max: int) -> spec_fn(
    Option<Seq<StructComponentView>>,
    u8,
    Seq<u8>,
) -> Result<Option<Seq<StructComponentView>>, MmsError>
    decreases max - depth, 7int, 0nat,
{
    |acc: Option<Seq<StructComponentView>>, tag: u8, val: Seq<u8>|
        structure_field(acc, tag, val, depth, max)
}

/// The content of a structure, whose component types are read at this depth. Without a
/// component list the structure is empty.
pub open spec fn structure_at(val: Seq<u8>, depth: int, max: int) -> Result<
    TypeSpecificationView,
    MmsError,
>
    decreases max - depth, 8int, 0nat,
{
    match ber::fold(val, None, structure_fields(depth, max)) {
        Err(e) => Err(e),
        Ok(Some(components)) => Ok(TypeSpecificationView::Structure { components }),
        Ok(None) => Ok(TypeSpecificationView::Structure { components: Seq::empty() }),
    }
}

impl TypeSpecificationView {
    /// The type that an element with this tag and content is, at this depth.
    pub open spec fn of_element(tag: u8, val: Seq<u8>, depth: int, max: int) -> Result<
        TypeSpecificationView,
        MmsError,
    >
        decreases max - depth, 0int, 0nat,
        when depth < max
    {
        if tag == 0x83 {
            Ok(TypeSpecificationView::Boolean)
        } else if tag == 0x91 {
            Ok(TypeSpecificationView::UtcTime)
        } else if tag == 0x84 {
            match integer::signed_at(val, 4) {
                Ok(v) => Ok(TypeSpecificationView::BitString { bits: v as i32 }),
                Err(e) => Err(e),
            }
        } else if tag == 0x85 {
            if val.len() == 0 {
                Err(MmsError::InvalidLength)
            } else {
                Ok(TypeSpecificationView::Integer { width_bits: val[0] })
            }
        } else if tag == 0x86 {
            if val.len() == 0 {
                Err(MmsError::InvalidLength)
            } else {
                Ok(TypeSpecificationView::Unsigned { width_bits: val[0] })
            }
        } else if tag == 0xa7 {
            floatingpoint_at(val)
        } else if tag == 0x89 {
            match integer::signed_at(val, 4) {
                Ok(v) => Ok(TypeSpecificationView::OctetString { max_octets: v as i32 }),
                Err(e) => Err(e),
            }
        } else if tag == 0x8a {
            match integer::signed_at(val, 4) {
                Ok(v) => Ok(TypeSpecificationView::VisibleString { max_chars: v as i32 }),
                Err(e) => Err(e),
            }
        } else if tag == 0x90 {
            match integer::signed_at(val, 4) {
                Ok(v) => Ok(TypeSpecificationView::MmsString { max_chars: v as i32 }),
                Err(e) => Err(e),
            }
        } else if tag == 0x8c {
            if val.len() == 0 {
                Err(MmsError::InvalidLength)
            } else {
                Ok(TypeSpecificationView::BinaryTime { use_long_form: val[0] != 0 })
            }
        } else if tag == 0xa1 {
            array_at(val, depth + 1, max)
        } else if tag == 0xa2 {
            structure_at(val, depth + 1, max)
        } else {
            Ok(TypeSpecificationView::Unknown(tag))
        }
    }

    /// The type at the start of `s`, and how many octets it takes, read at this depth. A
    /// depth at the ceiling is refused.
    pub open spec fn parse(s: Seq<u8>, depth: int, max: int) -> Result<
        (TypeSpecificationView, nat),
        MmsError,
    >
        decreases max - depth, 1int, 0nat,
    {
        if depth >= max {
            Err(MmsError::NestingLevelExceeded { max: max as u8, got: depth as u8 })
        } else {
            match ber::element_at(s) {
                Err(e) => Err(e),
                Ok(e) => match TypeSpecificationView::of_element(e.tag, e.val, depth, max) {
                    Err(x) => Err(x),
                    Ok(t) => Ok((t, e.size)),
                },
            }
        }
    }
}

/// Decodes the content of a floatingpoint.
fn decode_floatingpoint(val: &[u8]) -> (r: Result<TypeSpecification, MmsError>)
    ensures
        ber::agrees(r, floatingpoint_at(val@)),
{
    if val.len() < 6 {
        return Err(MmsError::TruncatedPdu);
    }
    if val[0] != 0x02 || val[3] != 0x02 {
        return Err(MmsError::InvalidTag { expected: 0x02, actual: val[0] });
    }
    let fw_len: usize = val[1] as usize;
    if 2 + fw_len > val.len() {
        return Err(MmsError::TruncatedPdu);
    }
    if fw_len != 1 {
        return Err(MmsError::InvalidLength);
    }
    let ew_len: usize = val[4] as usize;
    if 5 + ew_len > val.len() {
        return Err(MmsError::TruncatedPdu);
    }
    if ew_len != 1 {
        return Err(MmsError::InvalidLength);
    }
    Ok(TypeSpecification::FloatingPoint { format_width: val[2], exponent_width: val[5] })
}

spec fn opt_view(t: Option<TypeSpecification>) -> Option<TypeSpecificationView> {
    match t {
        Some(x) => Some(x@),
        None => None,
    }
}

/// Decodes the content of an array.
fn decode_array_inner(val: &[u8], depth: u8, max_depth: u8) -> (r: Result<
    TypeSpecification,
    MmsError,
>)
    requires
        depth <= max_depth,
    ensures
        ber::agrees(r, array_at(val@, depth as int, max_depth as int)),
    decreases max_depth - depth, 4int, 0nat,
{
    let mut pos: usize = 0;
    let mut element_count: Option<u32> = None;
    let mut element_type: Option<TypeSpecification> = None;
    let ghost steps = array_fields(depth as int, max_depth as int);
    assert(val@.skip(0) =~= val@);
    while pos < val.len()
        invariant
            pos <= val.len(),
            depth <= max_depth,
            steps == array_fields(depth as int, max_depth as int),
            ber::fold(val@, (None, None), steps) == ber::fold(
                val@.skip(pos as int),
                (element_count, opt_view(element_type)),
                steps,
            ),
        decreases val.len() - pos,
    {
        let t: Tlv = take_element(val, pos)?;
        let ghost acc: ArrayFields = (element_count, opt_view(element_type));
        assert(steps(acc, t.tag, t.val@) == array_field(
            acc,
            t.tag,
            t.val@,
            depth as int,
            max_depth as int,
        ));
        match t.tag {
            0x81 => {
                element_count = Some(decode_uint(t.val)?);
            },
            0xa2 => {
                let (ts, _) = TypeSpecification::decode_recursive(t.val, depth, max_depth)?;
                element_type = Some(ts);
            },
            _ => {},
        }
        pos = pos + t.size;
    }
    match (element_count, element_type) {
        (Some(element_count), Some(t)) => Ok(
            TypeSpecification::Array { element_count, element_type: Box::new(t) },
        ),
        _ => Err(MmsError::TruncatedPdu),
    }
}

/// Decodes the content of one StructComponent.
fn decode_struct_component(val: &[u8], depth: u8, max_depth: u8) -> (r: Result<
    StructComponent,
    MmsError,
>)
    requires
        depth <= max_depth,
    ensures
        ber::agrees(r, component_of(val@, depth as int, max_depth as int)),
    decreases max_depth - depth, 4int, 0nat,
{
    let mut pos: usize = 0;
    let mut name: Option<String> = None;
    let mut type_spec: Option<TypeSpecification> = None;
    let ghost steps = component_fields(depth as int, max_depth as int);
    assert(val@.skip(0) =~= val@);
    while pos < val.len()
        invariant
            pos <= val.len(),
            depth <= max_depth,
            steps == component_fields(depth as int, max_depth as int),
            ber::fold(val@, (None, None), steps) == ber::fold(
                val@.skip(pos as int),
                (text::opt_text(name), opt_view(type_spec)),
                steps,
            ),
        decreases val.len() - pos,
    {
        let t: Tlv = take_element(val, pos)?;
        let ghost acc: ComponentFields = (text::opt_text(name), opt_view(type_spec));
        assert(steps(acc, t.tag, t.val@) == component_field(
            acc,
            t.tag,
            t.val@,
            depth as int,
            max_depth as int,
        ));
        match t.tag {
            0x80 => {
                let s: String = data::decode_text_field(t.val)?;
                name = Some(s);
            },
            0xa1 => {
                let (ts, _) = TypeSpecification::decode_recursive(t.val, depth, max_depth)?;
                type_spec = Some(ts);
            },
            _ => {},
        }
        pos = pos + t.size;
    }
    match (name, type_spec) {
        (Some(name), Some(type_spec)) => Ok(StructComponent { name, type_spec }),
        _ => Err(MmsError::TruncatedPdu),
    }
}

/// Decodes StructComponents in a row.
fn decode_struct_component_list(data: &[u8], depth: u8, max_depth: u8) -> (r: Result<
    Vec<StructComponent>,
    MmsError,
>)
    requires
        depth <= max_depth,
    ensures
        match component_list_at(data@, depth as int, max_depth as int, Seq::empty()) {
            Ok(v) => r matches Ok(x) && component_views(x@) == v,
            Err(e) => r == Err::<Vec<StructComponent>, MmsError>(e),
        },
    decreases max_depth - depth, 5int, 0nat,
{
    let mut comps: Vec<StructComponent> = Vec::new();
    let mut pos: usize = 0;
    assert(data@.skip(0) =~= data@);
    assert(component_views(comps@) =~= Seq::empty());
    while pos < data.len()
        invariant
            pos <= data.len(),
            depth <= max_depth,
            component_list_at(data@, depth as int, max_depth as int, Seq::empty())
                == component_list_at(
                data@.skip(pos as int),
                depth as int,
                max_depth as int,
                component_views(comps@),
            ),
        decreases data.len() - pos,
    {
        let t: Tlv = take_tagged(data, pos, 0x30)?;
        let comp: StructComponent = decode_struct_component(t.val, depth, max_depth)?;
        let ghost before = comps@;
        comps.push(comp);
        proof {
            assert(component_views(comps@) =~= component_views(before).push(comp@));
        }
        pos = pos + t.size;
    }
    Ok(comps)
}

/// Decodes the content of a structure.
fn decode_structure_inner(val: &[u8], depth: u8, max_depth: u8) -> (r: Result<
    TypeSpecification,
    MmsError,
>)
    requires
        depth <= max_depth,
    ensures
        ber::agrees(r, structure_at(val@, depth as int, max_depth as int)),
    decreases max_depth - depth, 8int, 0nat,
{
    let mut pos: usize = 0;
    let mut components: Vec<StructComponent> = Vec::new();
    let ghost mut listed: Option<Seq<StructComponentView>> = None;
    let ghost steps = structure_fields(depth as int, max_depth as int);
    assert(val@.skip(0) =~= val@);
    assert(component_views(components@) =~= Seq::empty());
    while pos < val.len()
        invariant
            pos <= val.len(),
            depth <= max_depth,
            steps == structure_fields(depth as int, max_depth as int),
            component_views(components@) == (match listed {
                Some(l) => l,
                None => Seq::empty(),
            }),
            ber::fold(val@, None, steps) == ber::fold(val@.skip(pos as int), listed, steps),
        decreases val.len() - pos,
    {
        let t: Tlv = take_element(val, pos)?;
        assert(steps(listed, t.tag, t.val@) == structure_field(
            listed,
            t.tag,
            t.val@,
            depth as int,
            max_depth as int,
        ));
        match t.tag {
            0xa1 => {
                components = decode_struct_component_list(t.val, depth, max_depth)?;
                proof {
                    listed = Some(component_views(components@));
                }
            },
            _ => {},
        }
        pos = pos + t.size;
    }
    Ok(TypeSpecification::Structure { components })
}

impl TypeSpecification {
    /// Decodes a TypeSpecification; `data` starts at the tag byte.
    ///
    /// `depth` starts at 0 and increases by one for each nested array or structure.
    /// Reaching `MAX_TYPE_SPEC_DEPTH` returns `MmsError::NestingLevelExceeded`.
    ///
    /// Returns the value together with the number of bytes consumed. An unknown or
    /// unsupported tag is not an error: it decodes to `Ok(Unknown(tag))`.
    pub fn decode(data: &[u8], depth: u8) -> (r: Result<(Self, usize), MmsError>)
        ensures
            ber::agrees_at(
                r,
                TypeSpecificationView::parse(data@, depth as int, MAX_TYPE_SPEC_DEPTH as int),
            ),
    {
        Self::decode_recursive(data, depth, MAX_TYPE_SPEC_DEPTH)
    }

    /// Decodes a TypeSpecification under a caller-supplied depth ceiling.
    ///
    /// `max_depth` is normally `effective_nesting_cap(MAX_TYPE_SPEC_DEPTH, negotiated)`.
    pub fn decode_with_max(data: &[u8], max_depth: u8) -> (r: Result<(Self, usize), MmsError>)
        ensures
            ber::agrees_at(r, TypeSpecificationView::parse(data@, 0, max_depth as int)),
    {
        Self::decode_recursive(data, 0, max_depth)
    }

    /// Recursive decoder. `depth` is the current level and `max_depth` the ceiling.
    pub(crate) fn decode_recursive(data: &[u8], depth: u8, max_depth: u8) -> (r: Result<
        (Self, usize),
        MmsError,
    >)
        ensures
            ber::agrees_at(r, TypeSpecificationView::parse(data@, depth as int, max_depth as int)),
        decreases max_depth - depth, 1int, 0nat,
    {
        if depth >= max_depth {
            return Err(MmsError::NestingLevelExceeded { max: max_depth, got: depth });
        }
        assert(data@.skip(0) =~= data@);
        let t: Tlv = take_element(data, 0)?;
        let val: &[u8] = t.val;
        let ts: TypeSpecification = match t.tag {
            0x83 => TypeSpecification::Boolean,
            0x91 => TypeSpecification::UtcTime,
            0x84 => TypeSpecification::BitString { bits: decode_signed_i32(val)? },
            0x85 => {
                if val.len() == 0 {
                    return Err(MmsError::InvalidLength);
                }
                TypeSpecification::Integer { width_bits: val[0] }
            },
            0x86 => {
                if val.len() == 0 {
                    return Err(MmsError::InvalidLength);
                }
                TypeSpecification::Unsigned { width_bits: val[0] }
            },
            0xa7 => decode_floatingpoint(val)?,
            0x89 => TypeSpecification::OctetString { max_octets: decode_signed_i32(val)? },
            0x8a => TypeSpecification::VisibleString { max_chars: decode_signed_i32(val)? },
            0x90 => TypeSpecification::MmsString { max_chars: decode_signed_i32(val)? },
            0x8c => {
                if val.len() == 0 {
                    return Err(MmsError::InvalidLength);
                }
                TypeSpecification::BinaryTime { use_long_form: val[0] != 0 }
            },
            0xa1 => decode_array_inner(val, depth + 1, max_depth)?,
            0xa2 => decode_structure_inner(val, depth + 1, max_depth)?,
            other => TypeSpecification::Unknown(other),
        };
        Ok((ts, t.size))
    }
}


/// The encodings of structure members in a row.
pub open spec fn component_octets(components: Seq<StructComponentView>) -> Seq<u8>
    decreases components,
{
    if components.len() == 0 {
        Seq::empty()
    } else {
        component_octets(components.drop_last()) + components[components.len() - 1].octets()
    }
}

/// The first unsupported tag among the types of structure members.
pub open spec fn first_unknown(components: Seq<StructComponentView>) -> Option<u8>
    decreases components,
{
    if components.len() == 0 {
        None
    } else {
        match first_unknown(components.drop_last()) {
            Some(tag) => Some(tag),
            None => components[components.len() - 1].type_spec.unknown(),
        }
    }
}

/// How deep the types of structure members nest at most.
pub open spec fn deepest(components: Seq<StructComponentView>) -> nat
    decreases components,
{
    if components.len() == 0 {
        0
    } else {
        let before = deepest(components.drop_last());
        let last = components[components.len() - 1].type_spec.nest();
        if last > before {
            last
        } else {
            before
        }
    }
}

impl StructComponentView {
    /// The encoding of the member: a SEQUENCE of its name and its type.
    pub open spec fn octets(self) -> Seq<u8>
        decreases self,
    {
        ber::tlv(
            0x30,
            ber::tlv(0x80, text::utf8(self.name)) + ber::tlv(0xa1, self.type_spec.octets()),
        )
    }
}

impl TypeSpecificationView {
    /// The tag of the encoding.
    pub open spec fn tag(self) -> u8 {
        match self {
            TypeSpecificationView::Boolean => 0x83,
            TypeSpecificationView::BitString { .. } => 0x84,
            TypeSpecificationView::Integer { .. } => 0x85,
            TypeSpecificationView::Unsigned { .. } => 0x86,
            TypeSpecificationView::FloatingPoint { .. } => 0xa7,
            TypeSpecificationView::OctetString { .. } => 0x89,
            TypeSpecificationView::VisibleString { .. } => 0x8a,
            TypeSpecificationView::MmsString { .. } => 0x90,
            TypeSpecificationView::UtcTime => 0x91,
            TypeSpecificationView::BinaryTime { .. } => 0x8c,
            TypeSpecificationView::Array { .. } => 0xa1,
            TypeSpecificationView::Structure { .. } => 0xa2,
            TypeSpecificationView::Unknown(tag) => tag,
        }
    }

    /// The content of the encoding.
    pub open spec fn content(self) -> Seq<u8>
        decreases self, 0int,
    {
        match self {
            TypeSpecificationView::Boolean => Seq::empty(),
            TypeSpecificationView::BitString { bits } => integer::sint_octets(bits as int),
            TypeSpecificationView::Integer { width_bits } => seq![width_bits],
            TypeSpecificationView::Unsigned { width_bits } => seq![width_bits],
            TypeSpecificationView::FloatingPoint {
                format_width,
                exponent_width,
            } => seq![0x02, 0x01, format_width, 0x02, 0x01, exponent_width],
            TypeSpecificationView::OctetString { max_octets } => integer::sint_octets(
                max_octets as int,
            ),
            TypeSpecificationView::VisibleString { max_chars } => integer::sint_octets(
                max_chars as int,
            ),
            TypeSpecificationView::MmsString { max_chars } => integer::sint_octets(
                max_chars as int,
            ),
            TypeSpecificationView::UtcTime => Seq::empty(),
            TypeSpecificationView::BinaryTime { use_long_form } => seq![
                if use_long_form {
                    0xffu8
                } else {
                    0x00u8
                },
            ],
            TypeSpecificationView::Array { element_count, element_type } => ber::tlv(
                0x81,
                integer::uint_octets(element_count as nat),
            ) + ber::tlv(0xa2, element_type.octets()),
            TypeSpecificationView::Structure { components } => ber::tlv(
                0xa1,
                component_octets(components),
            ),
            TypeSpecificationView::Unknown(_) => Seq::empty(),
        }
    }

    /// The encoding of the type; an unsupported tag has none.
    pub open spec fn octets(self) -> Seq<u8>
        decreases self, 1int,
    {
        match self {
            TypeSpecificationView::Unknown(_) => Seq::empty(),
            _ => ber::tlv(self.tag(), self.content()),
        }
    }

    /// The first unsupported tag that occurs in the type.
    pub open spec fn unknown(self) -> Option<u8>
        decreases self,
    {
        match self {
            TypeSpecificationView::Array { element_type, .. } => element_type.unknown(),
            TypeSpecificationView::Structure { components } => first_unknown(components),
            TypeSpecificationView::Unknown(tag) => Some(tag),
            _ => None,
        }
    }

    /// How many arrays and structures with members lie around the innermost type.
    pub open spec fn nest(self) -> nat
        decreases self,
    {
        match self {
            TypeSpecificationView::Array { element_type, .. } => 1 + element_type.nest(),
            TypeSpecificationView::Structure { components } => if components.len() == 0 {
                0
            } else {
                1 + deepest(components)
            },
            _ => 0,
        }
    }

    /// The type nests no deeper than `room` levels.
    pub open spec fn fits(self, room: int) -> bool
        decreases self,
    {
        &&& room > 0
        &&& match self {
            TypeSpecificationView::Array { element_type, .. } => element_type.fits(room - 1),
            TypeSpecificationView::Structure { components } => forall|i: int|
                0 <= i < components.len() ==> (#[trigger] components[i]).type_spec.fits(room - 1),
            _ => true,
        }
    }
}

impl Clone for StructComponent {
    fn clone(&self) -> (r: Self)
        ensures
            r@ == self@,
    {
        StructComponent { name: self.name.clone(), type_spec: self.type_spec.copy() }
    }
}

impl Clone for TypeSpecification {
    fn clone(&self) -> (r: Self)
        ensures
            r@ == self@,
    {
        self.copy()
    }
}

impl StructComponent {
    /// Returns the encoded length in bytes.
    fn encoded_len(&self) -> (n: usize)
        requires
            self@.octets().len() <= usize::MAX,
        ensures
            n == self@.octets().len(),
        decreases self,
    {
        let name_len: usize = self.name.as_str().as_bytes().len();
        let name_part: usize = 1 + ber_len_size(name_len) + name_len;
        let ts_len: usize = self.type_spec.encoded_len();
        let ts_part: usize = 1 + ber_len_size(ts_len) + ts_len;
        let inner: usize = name_part + ts_part;
        1 + ber_len_size(inner) + inner
    }
}

impl TypeSpecification {
    fn copy(&self) -> (r: Self)
        ensures
            r@ == self@,
        decreases self,
    {
        match self {
            TypeSpecification::Boolean => TypeSpecification::Boolean,
            TypeSpecification::BitString { bits } => TypeSpecification::BitString { bits: *bits },
            TypeSpecification::Integer { width_bits } => TypeSpecification::Integer {
                width_bits: *width_bits,
            },
            TypeSpecification::Unsigned { width_bits } => TypeSpecification::Unsigned {
                width_bits: *width_bits,
            },
            TypeSpecification::FloatingPoint {
                format_width,
                exponent_width,
            } => TypeSpecification::FloatingPoint {
                format_width: *format_width,
                exponent_width: *exponent_width,
            },
            TypeSpecification::OctetString { max_octets } => TypeSpecification::OctetString {
                max_octets: *max_octets,
            },
            TypeSpecification::VisibleString { max_chars } => TypeSpecification::VisibleString {
                max_chars: *max_chars,
            },
            TypeSpecification::MmsString { max_chars } => TypeSpecification::MmsString {
                max_chars: *max_chars,
            },
            TypeSpecification::UtcTime => TypeSpecification::UtcTime,
            TypeSpecification::BinaryTime { use_long_form } => TypeSpecification::BinaryTime {
                use_long_form: *use_long_form,
            },
            TypeSpecification::Array {
                element_count,
                element_type,
            } => TypeSpecification::Array {
                element_count: *element_count,
                element_type: Box::new(element_type.copy()),
            },
            TypeSpecification::Structure { components } => TypeSpecification::Structure {
                components: copy_components(components),
            },
            TypeSpecification::Unknown(tag) => TypeSpecification::Unknown(*tag),
        }
    }

    /// Returns the encoded length in bytes without writing anything. An `Unknown` tag,
    /// which cannot be encoded, counts as nothing.
    pub fn encoded_len(&self) -> (n: usize)
        requires
            self@.octets().len() <= usize::MAX,
        ensures
            n == self@.octets().len(),
        decreases self,
    {
        let content: usize = match self {
            TypeSpecification::Boolean => 0,
            TypeSpecification::UtcTime => 0,
            TypeSpecification::BitString { bits } => sint_minimal(*bits as i64).len(),
            TypeSpecification::Integer { .. } => 1,
            TypeSpecification::Unsigned { .. } => 1,
            TypeSpecification::OctetString { max_octets } => sint_minimal(*max_octets as i64).len(),
            TypeSpecification::VisibleString { max_chars } => sint_minimal(*max_chars as i64).len(),
            TypeSpecification::MmsString { max_chars } => sint_minimal(*max_chars as i64).len(),
            TypeSpecification::BinaryTime { .. } => 1,
            TypeSpecification::FloatingPoint { .. } => 6,
            TypeSpecification::Array { element_count, element_type } => {
                let count_len: usize = uint_minimal(*element_count as u64).len();
                let ts_len: usize = element_type.encoded_len();
                1 + ber_len_size(count_len) + count_len + 1 + ber_len_size(ts_len) + ts_len
            },
            TypeSpecification::Structure { components } => {
                let list_len: usize = component_list_len(components);
                1 + ber_len_size(list_len) + list_len
            },
            TypeSpecification::Unknown(_) => return 0,
        };
        1 + ber_len_size(content) + content
    }

    /// Encodes the TypeSpecification into `buf`, including the outer tag and length.
    ///
    /// An `Unknown` value, at any level, returns `MmsError::UnknownTypeSpecTag` rather
    /// than emitting an invalid PDU; `buf` then stays as it was.
    pub fn encode(&self, buf: &mut BytesMut) -> (r: Result<(), MmsError>)
        requires
            buffer::contents(*old(buf)).len() + self@.octets().len() <= isize::MAX,
        ensures
            match self@.unknown() {
                Some(tag) => r == Err::<(), MmsError>(MmsError::UnknownTypeSpecTag(tag))
                    && buffer::contents(*final(buf)) == buffer::contents(*old(buf)),
                None => r is Ok && buffer::contents(*final(buf)) == buffer::contents(*old(buf))
                    + self@.octets(),
            },
        decreases self,
    {
        match self {
            TypeSpecification::Boolean => {
                let body: [u8; 0] = [];
                assert(body@ =~= self@.content());
                put_tlv(0x83, &body, buf);
            },
            TypeSpecification::UtcTime => {
                let body: [u8; 0] = [];
                assert(body@ =~= self@.content());
                put_tlv(0x91, &body, buf);
            },
            TypeSpecification::BitString { bits } => {
                let body: Vec<u8> = sint_minimal(*bits as i64);
                put_tlv(0x84, &body, buf);
            },
            TypeSpecification::Integer { width_bits } => {
                let body: [u8; 1] = [*width_bits];
                assert(body@ =~= self@.content());
                put_tlv(0x85, &body, buf);
            },
            TypeSpecification::Unsigned { width_bits } => {
                let body: [u8; 1] = [*width_bits];
                assert(body@ =~= self@.content());
                put_tlv(0x86, &body, buf);
            },
            TypeSpecification::FloatingPoint { format_width, exponent_width } => {
                // Two UNIVERSAL INTEGERs in fixed order: formatwidth first.
                let body: [u8; 6] = [0x02, 0x01, *format_width, 0x02, 0x01, *exponent_width];
                assert(body@ =~= self@.content());
                put_tlv(0xa7, &body, buf);
            },
            TypeSpecification::OctetString { max_octets } => {
                let body: Vec<u8> = sint_minimal(*max_octets as i64);
                put_tlv(0x89, &body, buf);
            },
            TypeSpecification::VisibleString { max_chars } => {
                let body: Vec<u8> = sint_minimal(*max_chars as i64);
                put_tlv(0x8a, &body, buf);
            },
            TypeSpecification::MmsString { max_chars } => {
                let body: Vec<u8> = sint_minimal(*max_chars as i64);
                put_tlv(0x90, &body, buf);
            },
            TypeSpecification::BinaryTime { use_long_form } => {
                // BOOLEAN: 0x00 selects the 4-byte form, 0xff the 6-byte form
                let body: [u8; 1] = [
                    if *use_long_form {
                        0xff
                    } else {
                        0x00
                    },
                ];
                assert(body@ =~= self@.content());
                put_tlv(0x8c, &body, buf);
            },
            TypeSpecification::Array { element_count, element_type } => {
                let count: Vec<u8> = uint_minimal(*element_count as u64);
                let mut ts_buf: BytesMut = BytesMut::new();
                element_type.encode(&mut ts_buf)?;
                let mut inner: BytesMut = BytesMut::new();
                put_tlv(0x81, &count, &mut inner);
                put_tlv(0xa2, &ts_buf, &mut inner);
                assert(buffer::contents(ts_buf) =~= element_type@.octets());
                assert(buffer::contents(inner) =~= self@.content());
                put_tlv(0xa1, &inner, buf);
            },
            TypeSpecification::Structure { components } => {
                let list: BytesMut = encode_components(components)?;
                let mut inner: BytesMut = BytesMut::new();
                put_tlv(0xa1, &list, &mut inner);
                assert(buffer::contents(inner) =~= self@.content());
                put_tlv(0xa2, &inner, buf);
            },
            TypeSpecification::Unknown(tag) => {
                return Err(MmsError::UnknownTypeSpecTag(*tag));
            },
        }
        Ok(())
    }
}

fn copy_components(components: &Vec<StructComponent>) -> (r: Vec<StructComponent>)
    ensures
        component_views(r@) == component_views(components@),
    decreases components,
{
    let mut r: Vec<StructComponent> = Vec::new();
    let mut i: usize = 0;
    while i < components.len()
        invariant
            i <= components.len(),
            component_views(r@) == component_views(components@).take(i as int),
            r.len() == i,
        decreases components.len() - i,
    {
        proof {
            assert(decreases_to!(components => components@[i as int]));
        }
        let c: StructComponent = StructComponent {
            name: components[i].name.clone(),
            type_spec: components[i].type_spec.copy(),
        };
        let ghost before = r@;
        r.push(c);
        i = i + 1;
        proof {
            assert(component_views(r@) =~= component_views(before).push(c@));
            assert(component_views(r@) =~= component_views(components@).take(i as int));
        }
    }
    assert(component_views(components@).take(i as int) =~= component_views(components@));
    r
}

/// Sums the encoded lengths of structure members.
fn component_list_len(components: &Vec<StructComponent>) -> (n: usize)
    requires
        component_octets(component_views(components@)).len() <= usize::MAX,
    ensures
        n == component_octets(component_views(components@)).len(),
    decreases components,
{
    let mut total: usize = 0;
    let mut i: usize = 0;
    let ghost views = component_views(components@);
    assert(views.take(0) =~= Seq::empty());
    while i < components.len()
        invariant
            i <= components.len(),
            views == component_views(components@),
            component_octets(views).len() <= usize::MAX,
            total == component_octets(views.take(i as int)).len(),
        decreases components.len() - i,
    {
        proof {
            assert(decreases_to!(components => components@[i as int]));
            assert(views.take(i + 1).drop_last() =~= views.take(i as int));
            lemma_components_prefix(views, i + 1);
        }
        total = total + components[i].encoded_len();
        i = i + 1;
    }
    assert(views.take(components@.len() as int) =~= views);
    total
}

/// Encodes one StructComponent: a UNIVERSAL SEQUENCE wrapping both fields.
fn encode_struct_component(comp: &StructComponent, buf: &mut BytesMut) -> (r: Result<(), MmsError>)
    requires
        buffer::contents(*old(buf)).len() + comp@.octets().len() <= isize::MAX,
    ensures
        match comp@.type_spec.unknown() {
            Some(tag) => r == Err::<(), MmsError>(MmsError::UnknownTypeSpecTag(tag))
                && buffer::contents(*final(buf)) == buffer::contents(*old(buf)),
            None => r is Ok && buffer::contents(*final(buf)) == buffer::contents(*old(buf))
                + comp@.octets(),
        },
    decreases comp,
{
    let mut ts_buf: BytesMut = BytesMut::new();
    comp.type_spec.encode(&mut ts_buf)?;
    let mut inner: BytesMut = BytesMut::new();
    put_tlv(0x80, comp.name.as_str().as_bytes(), &mut inner);
    put_tlv(0xa1, &ts_buf, &mut inner);
    assert(buffer::contents(ts_buf) =~= comp@.type_spec.octets());
    assert(buffer::contents(inner) =~= ber::tlv(0x80, text::utf8(comp@.name)) + ber::tlv(
        0xa1,
        comp@.type_spec.octets(),
    ));
    put_tlv(0x30, &inner, buf);
    Ok(())
}

/// Encodes structure members in a row.
fn encode_components(components: &Vec<StructComponent>) -> (r: Result<BytesMut, MmsError>)
    requires
        component_octets(component_views(components@)).len() <= isize::MAX,
    ensures
        match first_unknown(component_views(components@)) {
            Some(tag) => r == Err::<BytesMut, MmsError>(MmsError::UnknownTypeSpecTag(tag)),
            None => r matches Ok(buf) && buffer::contents(buf) == component_octets(
                component_views(components@),
            ),
        },
    decreases components,
{
    let mut buf: BytesMut = BytesMut::new();
    let mut i: usize = 0;
    let ghost views = component_views(components@);
    assert(views.take(0) =~= Seq::empty());
    while i < components.len()
        invariant
            i <= components.len(),
            views == component_views(components@),
            component_octets(views).len() <= isize::MAX,
            first_unknown(views.take(i as int)) is None,
            buffer::contents(buf) == component_octets(views.take(i as int)),
        decreases components.len() - i,
    {
        proof {
            assert(decreases_to!(components => components@[i as int]));
            assert(views.take(i + 1).drop_last() =~= views.take(i as int));
            lemma_components_prefix(views, i + 1);
        }
        encode_struct_component(&components[i], &mut buf)?;
        i = i + 1;
    }
    assert(views.take(components@.len() as int) =~= views);
    Ok(buf)
}

/// The first members of a structure take no more octets than all of them, and an
/// unsupported tag among them is the first of all.
proof fn lemma_components_prefix(components: Seq<StructComponentView>, n: int)
    requires
        0 <= n <= components.len(),
    ensures
        component_octets(components.take(n)).len() <= component_octets(components).len(),
        first_unknown(components.take(n)) is Some ==> first_unknown(components) == first_unknown(
            components.take(n),
        ),
    decreases components.len(),
{
    if n < components.len() {
        lemma_components_prefix(components.drop_last(), n);
        assert(components.drop_last().take(n) =~= components.take(n));
    } else {
        assert(components.take(n) =~= components);
    }
}

/// The encodings in a row, with the first member taken apart.
proof fn lemma_components_first(components: Seq<StructComponentView>)
    requires
        components.len() > 0,
    ensures
        component_octets(components) == components[0].octets() + component_octets(
            components.skip(1),
        ),
        first_unknown(components) is None ==> components[0].type_spec.unknown() is None
            && first_unknown(components.skip(1)) is None,
    decreases components.len(),
{
    reveal_with_fuel(first_unknown, 2);
    if components.len() == 1 {
        assert(components.drop_last() =~= Seq::empty());
        assert(components.skip(1) =~= Seq::empty());
    } else {
        lemma_components_first(components.drop_last());
        assert(components.drop_last().skip(1) =~= components.skip(1).drop_last());
    }
    assert(component_octets(components) =~= components[0].octets() + component_octets(
        components.skip(1),
    ));
}

/// A supported type with at most 0xffff octets of content, which nests no deeper than the
/// ceiling, decodes to itself, whatever follows it.
pub proof fn law_type_round_trip(t: TypeSpecificationView, rest: Seq<u8>, depth: int, max: int)
    requires
        t.fits(max - depth),
        t.unknown() is None,
        t.content().len() <= 0xffff,
    ensures
        TypeSpecificationView::parse(t.octets() + rest, depth, max) == Ok::<
            (TypeSpecificationView, nat),
            MmsError,
        >((t, t.octets().len())),
    decreases t, 2int,
{
    ber::law_element_round_trip(t.tag(), t.content(), rest);
    lemma_type_of_content(t, depth, max);
}

/// The content of a supported type, read under its tag, is the type.
proof fn lemma_type_of_content(t: TypeSpecificationView, depth: int, max: int)
    requires
        t.fits(max - depth),
        t.unknown() is None,
        t.content().len() <= 0xffff,
    ensures
        TypeSpecificationView::of_element(t.tag(), t.content(), depth, max) == Ok::<
            TypeSpecificationView,
            MmsError,
        >(t),
    decreases t, 1int,
{
    match t {
        TypeSpecificationView::BitString { bits } => {
            integer::law_sint_round_trip(bits as int);
            integer::lemma_sint_octets_width(bits as int);
        },
        TypeSpecificationView::OctetString { max_octets } => {
            integer::law_sint_round_trip(max_octets as int);
            integer::lemma_sint_octets_width(max_octets as int);
        },
        TypeSpecificationView::VisibleString { max_chars } => {
            integer::law_sint_round_trip(max_chars as int);
            integer::lemma_sint_octets_width(max_chars as int);
        },
        TypeSpecificationView::MmsString { max_chars } => {
            integer::law_sint_round_trip(max_chars as int);
            integer::lemma_sint_octets_width(max_chars as int);
        },
        TypeSpecificationView::Array { .. } => lemma_array_of_content(t, depth, max),
        TypeSpecificationView::Structure { .. } => lemma_structure_of_content(t, depth, max),
        _ => {},
    }
}

/// `lemma_type_of_content` for an array.
#[verifier::spinoff_prover]
proof fn lemma_array_of_content(t: TypeSpecificationView, depth: int, max: int)
    requires
        t is Array,
        t.fits(max - depth),
        t.unknown() is None,
        t.content().len() <= 0xffff,
    ensures
        TypeSpecificationView::of_element(0xa1, t.content(), depth, max) == Ok::<
            TypeSpecificationView,
            MmsError,
        >(t),
    decreases t, 0int,
{
    if let TypeSpecificationView::Array { element_count, element_type } = t {
        let steps = array_fields(depth + 1, max);
        let count = integer::uint_octets(element_count as nat);
        let inner = element_type.octets();
        integer::law_uint32_round_trip(element_count);
        law_type_round_trip(*element_type, Seq::empty(), depth + 1, max);
        assert(inner + Seq::<u8>::empty() =~= inner);
        let start: ArrayFields = (None, None);
        let counted: ArrayFields = (Some(element_count), None);
        assert(steps(start, 0x81, count) == Ok::<ArrayFields, MmsError>(counted));
        assert(steps(counted, 0xa2, inner) == Ok::<ArrayFields, MmsError>(
            (Some(element_count), Some(*element_type)),
        ));
        ber::lemma_fold_tlv(0x81, count, ber::tlv(0xa2, inner), start, steps);
        ber::lemma_fold_last(0xa2, inner, counted, steps);
    }
}

/// `lemma_type_of_content` for a structure.
#[verifier::spinoff_prover]
proof fn lemma_structure_of_content(t: TypeSpecificationView, depth: int, max: int)
    requires
        t is Structure,
        t.fits(max - depth),
        t.unknown() is None,
        t.content().len() <= 0xffff,
    ensures
        TypeSpecificationView::of_element(0xa2, t.content(), depth, max) == Ok::<
            TypeSpecificationView,
            MmsError,
        >(t),
    decreases t, 0int,
{
    if let TypeSpecificationView::Structure { components } = t {
        let steps = structure_fields(depth + 1, max);
        let list = component_octets(components);
        lemma_component_list_round_trip(components, depth + 1, max, Seq::empty());
        assert(Seq::<StructComponentView>::empty() + components =~= components);
        let start: Option<Seq<StructComponentView>> = None;
        assert(steps(start, 0xa1, list) == Ok::<Option<Seq<StructComponentView>>, MmsError>(
            Some(components),
        ));
        ber::lemma_fold_last(0xa1, list, start, steps);
    }
}

/// Structure members in a row are read back in a row.
proof fn lemma_component_list_round_trip(
    components: Seq<StructComponentView>,
    depth: int,
    max: int,
    acc: Seq<StructComponentView>,
)
    requires
        forall|i: int|
            0 <= i < components.len() ==> (#[trigger] components[i]).type_spec.fits(max - depth),
        first_unknown(components) is None,
        component_octets(components).len() <= 0xffff,
    ensures
        component_list_at(component_octets(components), depth, max, acc) == Ok::<
            Seq<StructComponentView>,
            MmsError,
        >(acc + components),
    decreases components, 3int,
{
    if components.len() == 0 {
        assert(acc + components =~= acc);
    } else {
        let first = components[0];
        let others = components.skip(1);
        lemma_components_first(components);
        assert(first.type_spec.fits(max - depth));
        let name = text::utf8(first.name);
        let inner = first.type_spec.octets();
        let fields = ber::tlv(0x80, name) + ber::tlv(0xa1, inner);
        let steps = component_fields(depth, max);
        ber::law_element_round_trip(0x30, fields, component_octets(others));
        text::lemma_text_round_trip(first.name);
        law_type_round_trip(first.type_spec, Seq::empty(), depth, max);
        assert(inner + Seq::<u8>::empty() =~= inner);
        let start: ComponentFields = (None, None);
        let named: ComponentFields = (Some(first.name), None);
        assert(steps(start, 0x80, name) == Ok::<ComponentFields, MmsError>(named));
        assert(steps(named, 0xa1, inner) == Ok::<ComponentFields, MmsError>(
            (Some(first.name), Some(first.type_spec)),
        ));
        ber::lemma_fold_tlv(0x80, name, ber::tlv(0xa1, inner), start, steps);
        ber::lemma_fold_last(0xa1, inner, named, steps);
        assert(component_of(fields, depth, max) == Ok::<StructComponentView, MmsError>(first));
        assert forall|i: int| 0 <= i < others.len() implies (
        #[trigger] others[i]).type_spec.fits(max - depth) by {
            assert(others[i] == components[i + 1]);
        }
        lemma_component_list_round_trip(others, depth, max, acc.push(first));
        assert(acc.push(first) + others =~= acc + components);
    }
}

/// Whatever decodes nests no deeper than the ceiling allows.
pub proof fn law_decoded_type_fits(s: Seq<u8>, depth: int, max: int)
    ensures
        TypeSpecificationView::parse(s, depth, max) matches Ok((t, _)) ==> t.fits(max - depth),
    decreases max - depth, 1int, 0nat,
{
    if depth < max {
        if let Ok(e) = ber::element_at(s) {
            if e.tag == 0xa1 {
                lemma_array_fits(e.val, (None, None), depth + 1, max);
            } else if e.tag == 0xa2 {
                lemma_structure_fits(e.val, None, depth + 1, max);
            }
        }
    }
}

proof fn lemma_array_fits(s: Seq<u8>, acc: ArrayFields, depth: int, max: int)
    requires
        depth <= max,
        acc.1 matches Some(t) ==> t.fits(max - depth),
    ensures
        ber::fold(s, acc, array_fields(depth, max)) matches Ok((_, Some(t))) ==> t.fits(
            max - depth,
        ),
    decreases max - depth, 2int, s.len(),
{
    if s.len() > 0 {
        if let Ok(e) = ber::element_at(s) {
            law_decoded_type_fits(e.val, depth, max);
            let steps = array_fields(depth, max);
            assert(steps(acc, e.tag, e.val) == array_field(acc, e.tag, e.val, depth, max));
            if let Ok(next) = array_field(acc, e.tag, e.val, depth, max) {
                lemma_array_fits(s.skip(e.size as int), next, depth, max);
            }
        }
    }
}

proof fn lemma_component_fits(s: Seq<u8>, acc: ComponentFields, depth: int, max: int)
    requires
        depth <= max,
        acc.1 matches Some(t) ==> t.fits(max - depth),
    ensures
        ber::fold(s, acc, component_fields(depth, max)) matches Ok((_, Some(t))) ==> t.fits(
            max - depth,
        ),
    decreases max - depth, 2int, s.len(),
{
    if s.len() > 0 {
        if let Ok(e) = ber::element_at(s) {
            law_decoded_type_fits(e.val, depth, max);
            let steps = component_fields(depth, max);
            assert(steps(acc, e.tag, e.val) == component_field(acc, e.tag, e.val, depth, max));
            if let Ok(next) = component_field(acc, e.tag, e.val, depth, max) {
                lemma_component_fits(s.skip(e.size as int), next, depth, max);
            }
        }
    }
}

proof fn lemma_component_list_fits(
    s: Seq<u8>,
    depth: int,
    max: int,
    acc: Seq<StructComponentView>,
)
    requires
        depth <= max,
        forall|i: int| 0 <= i < acc.len() ==> (#[trigger] acc[i]).type_spec.fits(max - depth),
    ensures
        component_list_at(s, depth, max, acc) matches Ok(list) ==> forall|i: int|
            0 <= i < list.len() ==> (#[trigger] list[i]).type_spec.fits(max - depth),
    decreases max - depth, 3int, s.len(),
{
    if s.len() > 0 {
        if let Ok(e) = ber::tagged_at(s, 0x30) {
            lemma_component_fits(e.val, (None, None), depth, max);
            if let Ok(c) = component_of(e.val, depth, max) {
                lemma_component_list_fits(s.skip(e.size as int), depth, max, acc.push(c));
            }
        }
    }
}

proof fn lemma_structure_fits(
    s: Seq<u8>,
    acc: Option<Seq<StructComponentView>>,
    depth: int,
    max: int,
)
    requires
        depth <= max,
        acc matches Some(list) ==> forall|i: int|
            0 <= i < list.len() ==> (#[trigger] list[i]).type_spec.fits(max - depth),
    ensures
        ber::fold(s, acc, structure_fields(depth, max)) matches Ok(Some(list)) ==> forall|i: int|
            0 <= i < list.len() ==> (#[trigger] list[i]).type_spec.fits(max - depth),
    decreases max - depth, 4int, s.len(),
{
    if s.len() > 0 {
        if let Ok(e) = ber::element_at(s) {
            lemma_component_list_fits(e.val, depth, max, Seq::empty());
            let steps = structure_fields(depth, max);
            assert(steps(acc, e.tag, e.val) == structure_field(acc, e.tag, e.val, depth, max));
            if let Ok(next) = structure_field(acc, e.tag, e.val, depth, max) {
                lemma_structure_fits(s.skip(e.size as int), next, depth, max);
            }
        }
    }
}

/// A decoded type without an unsupported tag, whose own content has at most 0xffff
/// octets, decodes again to itself.
pub proof fn law_type_redecodes(s: Seq<u8>, depth: int, max: int)
    ensures
        TypeSpecificationView::parse(s, depth, max) matches Ok((t, _)) ==> t.unknown() is None
            ==> t.content().len() <= 0xffff ==> TypeSpecificationView::parse(
            t.octets(),
            depth,
            max,
        ) == Ok::<(TypeSpecificationView, nat), MmsError>((t, t.octets().len())),
{
    law_decoded_type_fits(s, depth, max);
    if let Ok((t, _)) = TypeSpecificationView::parse(s, depth, max) {
        if t.unknown() is None && t.content().len() <= 0xffff {
            law_type_round_trip(t, Seq::empty(), depth, max);
            assert(t.octets() + Seq::<u8>::empty() =~= t.octets());
        }
    }
}

/// No member nests deeper than the deepest.
proof fn lemma_deepest_bound(components: Seq<StructComponentView>, i: int)
    requires
        0 <= i < components.len(),
    ensures
        components[i].type_spec.nest() <= deepest(components),
    decreases components.len(),
{
    if i < components.len() - 1 {
        lemma_deepest_bound(components.drop_last(), i);
    }
}

/// The deepest of members is the deeper of the first and the deepest of the others.
proof fn lemma_deepest_first(components: Seq<StructComponentView>)
    requires
        components.len() > 0,
    ensures
        deepest(components) == (if components[0].type_spec.nest() > deepest(components.skip(1)) {
            components[0].type_spec.nest()
        } else {
            deepest(components.skip(1))
        }),
    decreases components.len(),
{
    if components.len() == 1 {
        assert(deepest(components.drop_last()) == 0);
        assert(deepest(components.skip(1)) == 0);
    } else {
        lemma_deepest_first(components.drop_last());
        assert(components.drop_last().skip(1) =~= components.skip(1).drop_last());
        assert(components.skip(1).last() == components.last());
    }
}

/// A type that nests fewer levels than there is room for fits.
pub proof fn lemma_nest_fits(t: TypeSpecificationView, room: int)
    requires
        t.nest() < room,
    ensures
        t.fits(room),
    decreases t,
{
    match t {
        TypeSpecificationView::Array { element_type, .. } => {
            lemma_nest_fits(*element_type, room - 1);
        },
        TypeSpecificationView::Structure { components } => {
            assert forall|i: int| 0 <= i < components.len() implies (
            #[trigger] components[i]).type_spec.fits(room - 1) by {
                lemma_deepest_bound(components, i);
                lemma_nest_fits(components[i].type_spec, room - 1);
            }
        },
        _ => {},
    }
}

/// A supported type with at most 0xffff octets of content decodes to itself exactly when it
/// nests fewer levels than the ceiling leaves. Otherwise the error names the ceiling both as
/// the limit and as the level reached.
pub proof fn law_type_nesting(t: TypeSpecificationView, rest: Seq<u8>, depth: int, max: int)
    requires
        t.unknown() is None,
        t.content().len() <= 0xffff,
        depth <= max,
    ensures
        TypeSpecificationView::parse(t.octets() + rest, depth, max) == (if depth + t.nest() < max {
            Ok::<(TypeSpecificationView, nat), MmsError>((t, t.octets().len()))
        } else {
            Err(MmsError::NestingLevelExceeded { max: max as u8, got: max as u8 })
        }),
    decreases t, 2int,
{
    if depth + t.nest() < max {
        lemma_nest_fits(t, max - depth);
        law_type_round_trip(t, rest, depth, max);
    } else if depth < max {
        ber::law_element_round_trip(t.tag(), t.content(), rest);
        lemma_type_too_deep(t, depth, max);
    }
}

/// The content of a type that nests too deep, read under its tag, is refused.
#[verifier::spinoff_prover]
proof fn lemma_type_too_deep(t: TypeSpecificationView, depth: int, max: int)
    requires
        t.unknown() is None,
        t.content().len() <= 0xffff,
        depth < max <= depth + t.nest(),
    ensures
        TypeSpecificationView::of_element(t.tag(), t.content(), depth, max) == Err::<
            TypeSpecificationView,
            MmsError,
        >(MmsError::NestingLevelExceeded { max: max as u8, got: max as u8 }),
    decreases t, 0int,
{
    let error = MmsError::NestingLevelExceeded { max: max as u8, got: max as u8 };
    match t {
        TypeSpecificationView::Array { element_count, element_type } => {
            let steps = array_fields(depth + 1, max);
            let count = integer::uint_octets(element_count as nat);
            let inner = element_type.octets();
            integer::law_uint32_round_trip(element_count);
            law_type_nesting(*element_type, Seq::empty(), depth + 1, max);
            assert(inner + Seq::<u8>::empty() =~= inner);
            let start: ArrayFields = (None, None);
            let counted: ArrayFields = (Some(element_count), None);
            assert(steps(start, 0x81, count) == Ok::<ArrayFields, MmsError>(counted));
            assert(steps(counted, 0xa2, inner) == Err::<ArrayFields, MmsError>(error));
            ber::lemma_fold_tlv(0x81, count, ber::tlv(0xa2, inner), start, steps);
            ber::lemma_fold_last(0xa2, inner, counted, steps);
        },
        TypeSpecificationView::Structure { components } => {
            let steps = structure_fields(depth + 1, max);
            let list = component_octets(components);
            lemma_component_list_too_deep(components, depth + 1, max, Seq::empty());
            let start: Option<Seq<StructComponentView>> = None;
            assert(steps(start, 0xa1, list) == Err::<Option<Seq<StructComponentView>>, MmsError>(
                error,
            ));
            ber::lemma_fold_last(0xa1, list, start, steps);
        },
        _ => {},
    }
}

/// Structure members of which one nests too deep are refused.
proof fn lemma_component_list_too_deep(
    components: Seq<StructComponentView>,
    depth: int,
    max: int,
    acc: Seq<StructComponentView>,
)
    requires
        components.len() > 0,
        first_unknown(components) is None,
        component_octets(components).len() <= 0xffff,
        depth <= max <= depth + deepest(components),
    ensures
        component_list_at(component_octets(components), depth, max, acc) == Err::<
            Seq<StructComponentView>,
            MmsError,
        >(MmsError::NestingLevelExceeded { max: max as u8, got: max as u8 }),
    decreases components, 3int,
{
    let error = MmsError::NestingLevelExceeded { max: max as u8, got: max as u8 };
    let first = components[0];
    let others = components.skip(1);
    lemma_components_first(components);
    lemma_deepest_first(components);
    let name = text::utf8(first.name);
    let inner = first.type_spec.octets();
    let fields = ber::tlv(0x80, name) + ber::tlv(0xa1, inner);
    let steps = component_fields(depth, max);
    ber::law_element_round_trip(0x30, fields, component_octets(others));
    text::lemma_text_round_trip(first.name);
    law_type_nesting(first.type_spec, Seq::empty(), depth, max);
    assert(inner + Seq::<u8>::empty() =~= inner);
    let start: ComponentFields = (None, None);
    let named: ComponentFields = (Some(first.name), None);
    assert(steps(start, 0x80, name) == Ok::<ComponentFields, MmsError>(named));
    ber::lemma_fold_tlv(0x80, name, ber::tlv(0xa1, inner), start, steps);
    ber::lemma_fold_last(0xa1, inner, named, steps);
    if depth + first.type_spec.nest() < max {
        assert(steps(named, 0xa1, inner) == Ok::<ComponentFields, MmsError>(
            (Some(first.name), Some(first.type_spec)),
        ));
        assert(component_of(fields, depth, max) == Ok::<StructComponentView, MmsError>(first));
        assert(others.len() > 0);
        lemma_component_list_too_deep(others, depth, max, acc.push(first));
    } else {
        assert(steps(named, 0xa1, inner) == Err::<ComponentFields, MmsError>(error));
        assert(component_of(fields, depth, max) == Err::<StructComponentView, MmsError>(error));
    }
}

} // verus!
