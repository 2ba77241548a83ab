//! The Data CHOICE: the values that MMS variables hold.

use bytes::BytesMut;
use vstd::prelude::*;

use crate::asn1;
use crate::asn1::MAX_DATA_NESTING_DEPTH;
use crate::buffer;
use crate::mms::error::MmsError;
use crate::mms::pdu::ber;
use crate::mms::pdu::ber::{put_tlv, take_element, Tlv};
use crate::mms::pdu::integer;
use crate::mms::pdu::integer::{
    be_octets, decode_signed_int, decode_unsigned_int, encode_signed_int_minimal,
    encode_unsigned_int_minimal,
};
use crate::mms::pdu::object_name::ber_len_size;
use crate::text;

verus! {

broadcast use ber::group_element_sizes;

/// The MMS Data CHOICE.
///
/// Owns its payload, so a decoded value outlives the input buffer. Floating point values
/// are held as their IEEE 754 bits, and compare as the numbers they stand for: a NaN equals
/// nothing, and both zeros are equal.
///
/// ## Tag assignment, CONTEXT IMPLICIT
///
/// | variant          | tag    |
/// |------------------|--------|
/// | array            | `0xa1` |
/// | structure        | `0xa2` |
/// | boolean          | `0x83` |
/// | bit-string       | `0x84` |
/// | integer          | `0x85` |
/// | unsigned         | `0x86` |
/// | floating-point   | `0x87` |
/// | octet-string     | `0x89` |
/// | visible-string   | `0x8a` |
/// | generalized-time | `0x8b` |
/// | binary-time      | `0x8c` |
/// | boolean-array    | `0x8e` |
/// | mms-string       | `0x90` |
/// | utc-time         | `0x91` |
#[derive(Debug)]
pub enum MmsData {
    /// `0x83`: boolean.
    Boolean(bool),
    /// `0xa1`: array, decoded recursively.
    Array(Vec<MmsData>),
    /// `0xa2`: structure, decoded recursively.
    Structure(Vec<MmsData>),
    /// `0x85`: signed integer of 1 to 8 bytes, held as an `i64`.
    Integer(i64),
    /// `0x86`: unsigned integer of 1 to 8 bytes.
    Unsigned(u64),
    /// `0x87`: single-precision float, exponent width 8, five bytes on the wire; held as
    /// its bits.
    Float32(u32),
    /// `0x87`: double-precision float, exponent width 11, nine bytes on the wire; held as
    /// its bits.
    Float64(u64),
    /// `0x89`: octet string, raw bytes.
    OctetString(Vec<u8>),
    /// `0x8a`: visible string, ASCII.
    VisibleString(String),
    /// `0x8b`: generalized time, in VisibleString form.
    GeneralizedTime(String),
    /// `0x8c`: binary time, 4 or 6 bytes.
    BinaryTime(Vec<u8>),
    /// `0x8e`: boolean array, a BIT STRING.
    BooleanArray {
        /// Number of unused bits in the final data byte.
        padding: u8,
        /// Bit string content, most significant bit first.
        data: Vec<u8>,
    },
    /// `0x84`: bit string.
    BitString {
        /// Number of unused bits in the final data byte.
        padding: u8,
        /// Bit string content, most significant bit first.
        data: Vec<u8>,
    },
    /// `0x90`: MMS string, UTF-8.
    MmsString(String),
    /// `0x91`: UTC time, a fixed 8 bytes.
    UtcTime([u8; 8]),
}

/// A Data value with its texts and sequences in view.
#[verifier::ext_equal]
pub enum MmsDataView {
    /// boolean.
    Boolean(bool),
    /// array.
    Array(Seq<MmsDataView>),
    /// structure.
    Structure(Seq<MmsDataView>),
    /// signed integer.
    Integer(i64),
    /// unsigned integer.
    Unsigned(u64),
    /// single-precision float, as its bits.
    Float32(u32),
    /// double-precision float, as its bits.
    Float64(u64),
    /// octet string.
    OctetString(Seq<u8>),
    /// visible string.
    VisibleString(Seq<char>),
    /// generalized time.
    GeneralizedTime(Seq<char>),
    /// binary time.
    BinaryTime(Seq<u8>),
    /// boolean array.
    BooleanArray {
        /// Number of unused bits in the final data byte.
        padding: u8,
        /// Bit string content.
        data: Seq<u8>,
    },
    /// bit string.
    BitString {
        /// Number of unused bits in the final data byte.
        padding: u8,
        /// Bit string content.
        data: Seq<u8>,
    },
    /// MMS string.
    MmsString(Seq<char>),
    /// UTC time.
    UtcTime([u8; 8]),
}

impl MmsData {
    /// The value with its texts and sequences in view.
    pub open spec fn model(self) -> MmsDataView
        decreases self,
    {
        match self {
            MmsData::Boolean(v) => MmsDataView::Boolean(v),
            MmsData::Array(items) => MmsDataView::Array(data_views(items@)),
            MmsData::Structure(items) => MmsDataView::Structure(data_views(items@)),
            MmsData::Integer(v) => MmsDataView::Integer(v),
            MmsData::Unsigned(v) => MmsDataView::Unsigned(v),
            MmsData::Float32(v) => MmsDataView::Float32(v),
            MmsData::Float64(v) => MmsDataView::Float64(v),
            MmsData::OctetString(b) => MmsDataView::OctetString(b@),
            MmsData::VisibleString(s) => MmsDataView::VisibleString(s@),
            MmsData::GeneralizedTime(s) => MmsDataView::GeneralizedTime(s@),
            MmsData::BinaryTime(b) => MmsDataView::BinaryTime(b@),
            MmsData::BooleanArray { padding, data } => MmsDataView::BooleanArray {
                padding,
                data: data@,
            },
            MmsData::BitString { padding, data } => MmsDataView::BitString { padding, data: data@ },
            MmsData::MmsString(s) => MmsDataView::MmsString(s@),
            MmsData::UtcTime(a) => MmsDataView::UtcTime(a),
        }
    }
}

/// The views of values in a row.
pub open spec fn data_views(items: Seq<MmsData>) -> Seq<MmsDataView>
    decreases items,
{
    Seq::new(
        items.len(),
        |i: int|
            if 0 <= i < items.len() {
                items[i].model()
            } else {
                arbitrary()
            },
    )
}

impl View for MmsData {
    type V = MmsDataView;

    open spec fn view(&self) -> MmsDataView {
        self.model()
    }
}

/// Eight octets as an array.
pub open spec fn octets8(s: Seq<u8>) -> [u8; 8] {
    [s[0], s[1], s[2], s[3], s[4], s[5], s[6], s[7]]
}

/// A text field, which must be UTF-8.
pub open spec fn text_field_at(s: Seq<u8>) -> Result<Seq<char>, MmsError> {
    match text::text_at(s) {
        Some(t) => Ok(t),
        None => Err(MmsError::InvalidUtf8),
    }
}

/// The encodings of values in a row.
pub open spec fn all_octets(items: Seq<MmsDataView>) -> Seq<u8>
    decreases items, 2int,
{
    if items.len() == 0 {
        Seq::empty()
    } else {
        all_octets(items.drop_last()) + items[items.len() - 1].octets()
    }
}

/// The error for a value at `depth` where the ceiling is `max`.
pub open spec fn nesting_error(depth: int, max: u8) -> MmsError {
    MmsError::NestingLevelExceeded {
        max,
        got: if depth > 255 {
            255
        } else {
            depth as u8
        },
    }
}

impl MmsDataView {
    /// The tag of the value.
    pub open spec fn tag(self) -> u8 {
        match self {
            MmsDataView::Boolean(_) => 0x83,
            MmsDataView::Array(_) => 0xa1,
            MmsDataView::Structure(_) => 0xa2,
            MmsDataView::Integer(_) => 0x85,
            MmsDataView::Unsigned(_) => 0x86,
            MmsDataView::Float32(_) => 0x87,
            MmsDataView::Float64(_) => 0x87,
            MmsDataView::OctetString(_) => 0x89,
            MmsDataView::VisibleString(_) => 0x8a,
            MmsDataView::GeneralizedTime(_) => 0x8b,
            MmsDataView::BinaryTime(_) => 0x8c,
            MmsDataView::BitString { .. } => 0x84,
            MmsDataView::BooleanArray { .. } => 0x8e,
            MmsDataView::MmsString(_) => 0x90,
            MmsDataView::UtcTime(_) => 0x91,
        }
    }

    /// The content octets of the value.
    pub open spec fn content(self) -> Seq<u8>
        decreases self, 0int,
    {
        match self {
            MmsDataView::Boolean(v) => seq![
                if v {
                    0xffu8
                } else {
                    0x00u8
                },
            ],
            MmsDataView::Array(items) => all_octets(items),
            MmsDataView::Structure(items) => all_octets(items),
            MmsDataView::Integer(v) => integer::sint_octets(v as int),
            MmsDataView::Unsigned(v) => integer::unsigned_octets(v),
            MmsDataView::Float32(v) => seq![0x08u8] + integer::fixed_octets(v as nat, 4),
            MmsDataView::Float64(v) => seq![0x0bu8] + integer::fixed_octets(v as nat, 8),
            MmsDataView::OctetString(b) => b,
            MmsDataView::VisibleString(t) => text::utf8(t),
            MmsDataView::GeneralizedTime(t) => text::utf8(t),
            MmsDataView::BinaryTime(b) => b,
            MmsDataView::BitString { padding, data } => seq![padding] + data,
            MmsDataView::BooleanArray { padding, data } => seq![padding] + data,
            MmsDataView::MmsString(t) => text::utf8(t),
            MmsDataView::UtcTime(a) => a@,
        }
    }

    /// The encoding of the value.
    pub open spec fn octets(self) -> Seq<u8>
        decreases self, 1int,
    {
        ber::tlv(self.tag(), self.content())
    }

    /// The value that an element with this tag and content is, at this depth.
    pub open spec fn of_element(tag: u8, val: Seq<u8>, depth: int, max: u8) -> Result<
        MmsDataView,
        MmsError,
    >
        decreases val.len(), 1int,
    {
        if tag == 0x83 {
            if val.len() == 0 {
                Err(MmsError::InvalidLength)
            } else {
                Ok(MmsDataView::Boolean(val[0] != 0))
            }
        } else if tag == 0xa1 {
            match data_list_at(val, depth + 1, max, Seq::empty()) {
                Ok(items) => Ok(MmsDataView::Array(items)),
                Err(e) => Err(e),
            }
        } else if tag == 0xa2 {
            match data_list_at(val, depth + 1, max, Seq::empty()) {
                Ok(items) => Ok(MmsDataView::Structure(items)),
                Err(e) => Err(e),
            }
        } else if tag == 0x85 {
            match integer::signed_at(val, 8) {
                Ok(v) => Ok(MmsDataView::Integer(v as i64)),
                Err(e) => Err(e),
            }
        } else if tag == 0x86 {
            match integer::unsigned_at(val, 8) {
                Ok(v) => Ok(MmsDataView::Unsigned(v as u64)),
                Err(e) => Err(e),
            }
        } else if tag == 0x87 {
            if val.len() == 5 {
                Ok(MmsDataView::Float32(asn1::uint(val.skip(1)) as u32))
            } else if val.len() == 9 {
                Ok(MmsDataView::Float64(asn1::uint(val.skip(1)) as u64))
            } else {
                Err(MmsError::InvalidFloatSize { actual: val.len() as usize })
            }
        } else if tag == 0x89 {
            Ok(MmsDataView::OctetString(val))
        } else if tag == 0x8a {
            match text_field_at(val) {
                Ok(t) => Ok(MmsDataView::VisibleString(t)),
                Err(e) => Err(e),
            }
        } else if tag == 0x8b {
            match text_field_at(val) {
                Ok(t) => Ok(MmsDataView::GeneralizedTime(t)),
                Err(e) => Err(e),
            }
        } else if tag == 0x8c {
            if val.len() != 4 && val.len() != 6 {
                Err(MmsError::InvalidLength)
            } else {
                Ok(MmsDataView::BinaryTime(val))
            }
        } else if tag == 0x84 {
            if val.len() == 0 {
                Err(MmsError::InvalidLength)
            } else {
                Ok(MmsDataView::BitString { padding: val[0], data: val.skip(1) })
            }
        } else if tag == 0x8e {
            if val.len() == 0 {
                Err(MmsError::InvalidLength)
            } else {
                Ok(MmsDataView::BooleanArray { padding: val[0], data: val.skip(1) })
            }
        } else if tag == 0x90 {
            match text_field_at(val) {
                Ok(t) => Ok(MmsDataView::MmsString(t)),
                Err(e) => Err(e),
            }
        } else if tag == 0x91 {
            if val.len() != 8 {
                Err(MmsError::InvalidUtcTimeLength { actual: val.len() as usize })
            } else {
                Ok(MmsDataView::UtcTime(octets8(val)))
            }
        } else {
            Err(MmsError::UnknownDataTag(tag))
        }
    }

    /// The value at the start of `s`, and how many octets it takes, read at this depth.
    pub open spec fn parse(s: Seq<u8>, depth: int, max: u8) -> Result<(MmsDataView, nat), MmsError> {
        if depth > max {
            Err(nesting_error(depth, max))
        } else {
            match ber::element_at(s) {
                Err(e) => Err(e),
                Ok(e) => match MmsDataView::of_element(e.tag, e.val, depth, max) {
                    Err(x) => Err(x),
                    Ok(v) => Ok((v, e.size)),
                },
            }
        }
    }
}

/// The values that fill `s`, read at this depth and put after those of `acc`.
pub open spec fn data_list_at(s: Seq<u8>, depth: int, max: u8, acc: Seq<MmsDataView>) -> Result<
    Seq<MmsDataView>,
    MmsError,
>
    decreases s.len(), 0int,
{
    if s.len() == 0 {
        Ok(acc)
    } else if depth > max {
        Err(nesting_error(depth, max))
    } else {
        match ber::element_at(s) {
            Err(e) => Err(e),
            Ok(e) => {
                proof {
                    ber::lemma_element_bounds(s);
                }
                match MmsDataView::of_element(e.tag, e.val, depth, max) {
                    Err(x) => Err(x),
                    Ok(v) => data_list_at(s.skip(e.size as int), depth, max, acc.push(v)),
                }
            },
        }
    }
}

/// Reads a text field, which must be UTF-8.
pub fn decode_text_field(data: &[u8]) -> (r: Result<String, MmsError>)
    ensures
        ber::agrees(r, text_field_at(data@)),
{
    match text::decode_text(data) {
        Some(s) => Ok(s),
        None => Err(MmsError::InvalidUtf8),
    }
}

/// Decodes the content of a floating point value: the first byte is the exponent width,
/// followed by an IEEE 754 big-endian value.
///
/// A size other than 5 or 9 is rejected rather than ignored.
fn decode_floating_point(data: &[u8]) -> (r: Result<MmsData, MmsError>)
    ensures
        ber::agrees(r, MmsDataView::of_element(0x87, data@, 0, 0)),
{
    if data.len() != 5 && data.len() != 9 {
        return Err(MmsError::InvalidFloatSize { actual: data.len() });
    }
    let body: &[u8] = &data[1..data.len()];
    assert(body@ =~= data@.skip(1));
    let bits: u64 = decode_unsigned_int(body)?;
    proof {
        integer::lemma_uint_bound(body@);
        integer::lemma_pow256_values();
    }
    if data.len() == 5 {
        Ok(MmsData::Float32(bits as u32))
    } else {
        Ok(MmsData::Float64(bits))
    }
}

/// Decodes values in a row, the content of an array or structure.
///
/// `depth` is the current recursion level and `max_depth` the effective ceiling.
pub(crate) fn decode_seq_of_mmsdata(data: &[u8], depth: u16, max_depth: u8) -> (r: Result<
    Vec<MmsData>,
    MmsError,
>)
    requires
        depth <= 256,
    ensures
        match data_list_at(data@, depth as int, max_depth, Seq::empty()) {
            Ok(v) => r matches Ok(x) && data_views(x@) == v,
            Err(e) => r == Err::<Vec<MmsData>, MmsError>(e),
        },
    decreases data.len(), 0int,
{
    let mut items: Vec<MmsData> = Vec::new();
    let mut pos: usize = 0;
    assert(data@.skip(0) =~= data@);
    assert(data_views(items@) =~= Seq::empty());
    while pos < data.len()
        invariant
            pos <= data.len(),
            depth <= 256,
            data_list_at(data@, depth as int, max_depth, Seq::empty()) == data_list_at(
                data@.skip(pos as int),
                depth as int,
                max_depth,
                data_views(items@),
            ),
        decreases data.len() - pos,
    {
        if depth > max_depth as u16 {
            return Err(nesting_exceeded(depth, max_depth));
        }
        let t: Tlv = take_element(data, pos)?;
        let item: MmsData = decode_element(t.tag, t.val, depth, max_depth)?;
        let ghost before = items@;
        items.push(item);
        proof {
            assert(data_views(items@) =~= data_views(before).push(item@));
        }
        pos = pos + t.size;
    }
    Ok(items)
}

fn nesting_exceeded(depth: u16, max_depth: u8) -> (e: MmsError)
    ensures
        e == nesting_error(depth as int, max_depth),
{
    MmsError::NestingLevelExceeded {
        max: max_depth,
        got: if depth > 255 {
            255
        } else {
            depth as u8
        },
    }
}

/// Decodes an element with this tag and content.
fn decode_element(tag: u8, val: &[u8], depth: u16, max_depth: u8) -> (r: Result<MmsData, MmsError>)
    requires
        depth <= max_depth,
    ensures
        ber::agrees(r, MmsDataView::of_element(tag, val@, depth as int, max_depth)),
    decreases val.len(), 1int,
{
    match tag {
        0x83 => {
            if val.len() == 0 {
                return Err(MmsError::InvalidLength);
            }
            Ok(MmsData::Boolean(val[0] != 0))
        },
        0xa1 => {
            let items: Vec<MmsData> = decode_seq_of_mmsdata(val, depth + 1, max_depth)?;
            Ok(MmsData::Array(items))
        },
        0xa2 => {
            let items: Vec<MmsData> = decode_seq_of_mmsdata(val, depth + 1, max_depth)?;
            Ok(MmsData::Structure(items))
        },
        0x85 => {
            let v: i64 = decode_signed_int(val)?;
            Ok(MmsData::Integer(v))
        },
        0x86 => {
            let v: u64 = decode_unsigned_int(val)?;
            Ok(MmsData::Unsigned(v))
        },
        0x87 => decode_floating_point(val),
        0x89 => Ok(MmsData::OctetString(vstd::slice::slice_to_vec(val))),
        0x8a => {
            let s: String = decode_text_field(val)?;
            Ok(MmsData::VisibleString(s))
        },
        0x8b => {
            let s: String = decode_text_field(val)?;
            Ok(MmsData::GeneralizedTime(s))
        },
        0x8c => {
            if val.len() != 4 && val.len() != 6 {
                return Err(MmsError::InvalidLength);
            }
            Ok(MmsData::BinaryTime(vstd::slice::slice_to_vec(val)))
        },
        0x84 => {
            if val.len() == 0 {
                return Err(MmsError::InvalidLength);
            }
            let data: Vec<u8> = vstd::slice::slice_to_vec(&val[1..val.len()]);
            assert(data@ =~= val@.skip(1));
            Ok(MmsData::BitString { padding: val[0], data })
        },
        0x8e => {
            if val.len() == 0 {
                return Err(MmsError::InvalidLength);
            }
            let data: Vec<u8> = vstd::slice::slice_to_vec(&val[1..val.len()]);
            assert(data@ =~= val@.skip(1));
            Ok(MmsData::BooleanArray { padding: val[0], data })
        },
        0x90 => {
            let s: String = decode_text_field(val)?;
            Ok(MmsData::MmsString(s))
        },
        0x91 => {
            if val.len() != 8 {
                return Err(MmsError::InvalidUtcTimeLength { actual: val.len() });
            }
            Ok(
                MmsData::UtcTime(
                    [val[0], val[1], val[2], val[3], val[4], val[5], val[6], val[7]],
                ),
            )
        },
        other => Err(MmsError::UnknownDataTag(other)),
    }
}

/// Copies values in a row.
fn copy_all(items: &Vec<MmsData>) -> (r: Vec<MmsData>)
    ensures
        data_views(r@) == data_views(items@),
    decreases items,
{
    let mut out: Vec<MmsData> = Vec::new();
    let mut i: usize = 0;
    while i < items.len()
        invariant
            i <= items.len(),
            out.len() == i,
            forall|j: int| 0 <= j < i ==> out@[j].model() == items@[j].model(),
        decreases items.len() - i,
    {
        proof {
            assert(decreases_to!(items => items@[i as int]));
        }
        out.push(items[i].copy());
        i = i + 1;
    }
    assert(data_views(out@) =~= data_views(items@));
    out
}

impl Clone for MmsData {
    fn clone(&self) -> (r: Self)
        ensures
            r@ == self@,
    {
        self.copy()
    }
}

impl MmsData {
    fn copy(&self) -> (r: Self)
        ensures
            r@ == self@,
        decreases self,
    {
        match self {
            MmsData::Boolean(v) => MmsData::Boolean(*v),
            MmsData::Array(items) => MmsData::Array(copy_all(items)),
            MmsData::Structure(items) => MmsData::Structure(copy_all(items)),
            MmsData::Integer(v) => MmsData::Integer(*v),
            MmsData::Unsigned(v) => MmsData::Unsigned(*v),
            MmsData::Float32(v) => MmsData::Float32(*v),
            MmsData::Float64(v) => MmsData::Float64(*v),
            MmsData::OctetString(b) => MmsData::OctetString(vstd::slice::slice_to_vec(b)),
            MmsData::VisibleString(s) => MmsData::VisibleString(s.clone()),
            MmsData::GeneralizedTime(s) => MmsData::GeneralizedTime(s.clone()),
            MmsData::BinaryTime(b) => MmsData::BinaryTime(vstd::slice::slice_to_vec(b)),
            MmsData::BooleanArray { padding, data } => MmsData::BooleanArray {
                padding: *padding,
                data: vstd::slice::slice_to_vec(data),
            },
            MmsData::BitString { padding, data } => MmsData::BitString {
                padding: *padding,
                data: vstd::slice::slice_to_vec(data),
            },
            MmsData::MmsString(s) => MmsData::MmsString(s.clone()),
            MmsData::UtcTime(a) => MmsData::UtcTime(*a),
        }
    }

    /// Decodes an `MmsData` under the default depth ceiling; `data` starts at the tag.
    /// Returns the value and the number of bytes it takes.
    pub fn decode(data: &[u8]) -> (r: Result<(Self, usize), MmsError>)
        ensures
            ber::agrees_at(r, MmsDataView::parse(data@, 0, MAX_DATA_NESTING_DEPTH)),
            r matches Ok((_, n)) ==> 2 <= n <= data.len(),
    {
        Self::decode_with_depth(data, 0)
    }

    /// Decodes an `MmsData` with an explicit depth guard.
    ///
    /// `depth` starts at 0 and rises by one per level; exceeding
    /// `MAX_DATA_NESTING_DEPTH` returns an error.
    ///
    /// This entry point applies the local ceiling only.
    pub fn decode_with_depth(data: &[u8], depth: u8) -> (r: Result<(Self, usize), MmsError>)
        ensures
            ber::agrees_at(r, MmsDataView::parse(data@, depth as int, MAX_DATA_NESTING_DEPTH)),
            r matches Ok((_, n)) ==> 2 <= n <= data.len(),
    {
        Self::decode_recursive(data, depth, MAX_DATA_NESTING_DEPTH)
    }

    /// Decodes an `MmsData` under a caller-supplied ceiling; `data` starts at the tag.
    ///
    /// `max_depth` is normally `effective_nesting_cap(MAX_DATA_NESTING_DEPTH, negotiated)`,
    /// the smaller of the local ceiling and the negotiated dataStructureNestingLevel.
    pub fn decode_with_max(data: &[u8], max_depth: u8) -> (r: Result<(Self, usize), MmsError>)
        ensures
            ber::agrees_at(r, MmsDataView::parse(data@, 0, max_depth)),
            r matches Ok((_, n)) ==> 2 <= n <= data.len(),
    {
        Self::decode_recursive(data, 0, max_depth)
    }

    /// Recursive decoder. `depth` is the current level and `max_depth` the ceiling.
    pub fn decode_recursive(data: &[u8], depth: u8, max_depth: u8) -> (r: Result<
        (Self, usize),
        MmsError,
    >)
        ensures
            ber::agrees_at(r, MmsDataView::parse(data@, depth as int, max_depth)),
            r matches Ok((_, n)) ==> 2 <= n <= data.len(),
    {
        if depth > max_depth {
            return Err(MmsError::NestingLevelExceeded { max: max_depth, got: depth });
        }
        assert(data@.skip(0) =~= data@);
        let t: Tlv = take_element(data, 0)?;
        let v: MmsData = decode_element(t.tag, t.val, depth as u16, max_depth)?;
        Ok((v, t.size))
    }

    /// Encodes the `MmsData` into `buf`.
    pub fn encode(&self, buf: &mut BytesMut)
        requires
            buffer::contents(*old(buf)).len() + self@.octets().len() <= isize::MAX,
        ensures
            buffer::contents(*final(buf)) == buffer::contents(*old(buf)) + self@.octets(),
        decreases self,
    {
        match self {
            MmsData::Boolean(v) => {
                let body: [u8; 1] = [
                    if *v {
                        0xff
                    } else {
                        0x00
                    },
                ];
                assert(body@ =~= self@.content());
                put_tlv(0x83, &body, buf);
            },
            MmsData::Array(items) => {
                let inner: BytesMut = encode_all(items);
                put_tlv(0xa1, &inner, buf);
            },
            MmsData::Structure(items) => {
                let inner: BytesMut = encode_all(items);
                put_tlv(0xa2, &inner, buf);
            },
            MmsData::Integer(v) => {
                let bytes: Vec<u8> = encode_signed_int_minimal(*v);
                put_tlv(0x85, &bytes, buf);
            },
            MmsData::Unsigned(v) => {
                let bytes: Vec<u8> = encode_unsigned_int_minimal(*v);
                put_tlv(0x86, &bytes, buf);
            },
            MmsData::Float32(v) => {
                let mut body: BytesMut = BytesMut::new();
                body.extend_from_slice(&[0x08]);
                body.extend_from_slice(&be_octets(*v as u64, 4));
                assert(buffer::contents(body) =~= self@.content());
                put_tlv(0x87, &body, buf);
            },
            MmsData::Float64(v) => {
                let mut body: BytesMut = BytesMut::new();
                body.extend_from_slice(&[0x0b]);
                body.extend_from_slice(&be_octets(*v, 8));
                assert(buffer::contents(body) =~= self@.content());
                put_tlv(0x87, &body, buf);
            },
            MmsData::OctetString(b) => put_tlv(0x89, b, buf),
            MmsData::VisibleString(s) => put_tlv(0x8a, s.as_str().as_bytes(), buf),
            MmsData::GeneralizedTime(s) => put_tlv(0x8b, s.as_str().as_bytes(), buf),
            MmsData::BinaryTime(b) => put_tlv(0x8c, b, buf),
            MmsData::BitString { padding, data } => {
                let mut body: BytesMut = BytesMut::new();
                body.extend_from_slice(&[*padding]);
                body.extend_from_slice(data);
                assert(buffer::contents(body) =~= self@.content());
                put_tlv(0x84, &body, buf);
            },
            MmsData::BooleanArray { padding, data } => {
                let mut body: BytesMut = BytesMut::new();
                body.extend_from_slice(&[*padding]);
                body.extend_from_slice(data);
                assert(buffer::contents(body) =~= self@.content());
                put_tlv(0x8e, &body, buf);
            },
            MmsData::MmsString(s) => put_tlv(0x90, s.as_str().as_bytes(), buf),
            MmsData::UtcTime(a) => put_tlv(0x91, a, buf),
        }
    }

    /// Returns the number of bytes `encode` would write, tag and length included.
    ///
    /// A dispatcher uses this to check a ReadResponse against the negotiated maximum
    /// PDU size before assembling it.
    pub fn estimated_encoded_size(&self) -> (n: usize)
        requires
            self@.octets().len() <= usize::MAX,
        ensures
            n == self@.octets().len(),
        decreases self,
    {
        let content: usize = match self {
            MmsData::Boolean(_) => 1,
            MmsData::Array(items) => estimated_total(items),
            MmsData::Structure(items) => estimated_total(items),
            MmsData::Integer(v) => encode_signed_int_minimal(*v).len(),
            MmsData::Unsigned(v) => encode_unsigned_int_minimal(*v).len(),
            MmsData::Float32(v) => {
                proof {
                    integer::lemma_fixed_octets_len(*v as nat, 4);
                }
                5
            },
            MmsData::Float64(v) => {
                proof {
                    integer::lemma_fixed_octets_len(*v as nat, 8);
                }
                9
            },
            MmsData::OctetString(b) => b.len(),
            MmsData::VisibleString(s) => s.as_str().as_bytes().len(),
            MmsData::GeneralizedTime(s) => s.as_str().as_bytes().len(),
            MmsData::BinaryTime(b) => b.len(),
            MmsData::BitString { data, .. } => 1 + data.len(),
            MmsData::BooleanArray { data, .. } => 1 + data.len(),
            MmsData::MmsString(s) => s.as_str().as_bytes().len(),
            MmsData::UtcTime(_) => 8,
        };
        1 + ber_len_size(content) + content
    }
}

/// Encodes values in a row.
fn encode_all(items: &Vec<MmsData>) -> (buf: BytesMut)
    requires
        all_octets(data_views(items@)).len() <= isize::MAX,
    ensures
        buffer::contents(buf) == all_octets(data_views(items@)),
    decreases items,
{
    let mut buf: BytesMut = BytesMut::new();
    let mut i: usize = 0;
    let ghost views = data_views(items@);
    assert(views.take(0) =~= Seq::empty());
    while i < items.len()
        invariant
            i <= items.len(),
            views == data_views(items@),
            all_octets(views).len() <= isize::MAX,
            buffer::contents(buf) == all_octets(views.take(i as int)),
        decreases items.len() - i,
    {
        proof {
            assert(decreases_to!(items => items@[i as int]));
            assert(views.take(i + 1).drop_last() =~= views.take(i as int));
            lemma_all_octets_prefix(views, i + 1);
        }
        items[i].encode(&mut buf);
        i = i + 1;
    }
    assert(views.take(items@.len() as int) =~= views);
    buf
}

/// Sums the sizes of values in a row.
fn estimated_total(items: &Vec<MmsData>) -> (n: usize)
    requires
        all_octets(data_views(items@)).len() <= usize::MAX,
    ensures
        n == all_octets(data_views(items@)).len(),
    decreases items,
{
    let mut total: usize = 0;
    let mut i: usize = 0;
    let ghost views = data_views(items@);
    assert(views.take(0) =~= Seq::empty());
    while i < items.len()
        invariant
            i <= items.len(),
            views == data_views(items@),
            all_octets(views).len() <= usize::MAX,
            total == all_octets(views.take(i as int)).len(),
        decreases items.len() - i,
    {
        proof {
            assert(decreases_to!(items => items@[i as int]));
            assert(views.take(i + 1).drop_last() =~= views.take(i as int));
            lemma_all_octets_prefix(views, i + 1);
        }
        total = total + items[i].estimated_encoded_size();
        i = i + 1;
    }
    assert(views.take(items@.len() as int) =~= views);
    total
}

/// The first values in a row take no more octets than all of them.
proof fn lemma_all_octets_prefix(items: Seq<MmsDataView>, n: int)
    requires
        0 <= n <= items.len(),
    ensures
        all_octets(items.take(n)).len() <= all_octets(items).len(),
    decreases items.len(),
{
    if n < items.len() {
        lemma_all_octets_prefix(items.drop_last(), n);
        assert(items.drop_last().take(n) =~= items.take(n));
    } else {
        assert(items.take(n) =~= items);
    }
}

/// The encodings in a row, with the first value taken apart.
proof fn lemma_all_octets_first(items: Seq<MmsDataView>)
    requires
        items.len() > 0,
    ensures
        all_octets(items) == items[0].octets() + all_octets(items.skip(1)),
    decreases items.len(),
{
    if items.len() == 1 {
        assert(items.drop_last() =~= Seq::empty());
        assert(items.skip(1) =~= Seq::empty());
        assert(all_octets(items) =~= items[0].octets() + all_octets(items.skip(1)));
    } else {
        lemma_all_octets_first(items.drop_last());
        assert(items.drop_last().skip(1) =~= items.skip(1).drop_last());
        assert(all_octets(items) =~= items[0].octets() + all_octets(items.skip(1)));
    }
}

/// How deep values nest at most.
pub open spec fn deepest(items: Seq<MmsDataView>) -> nat
    decreases items,
{
    if items.len() == 0 {
        0
    } else {
        let before = deepest(items.drop_last());
        let last = items[items.len() - 1].nest();
        if last > before {
            last
        } else {
            before
        }
    }
}

impl MmsDataView {
    /// How many arrays and structures with members lie around the innermost value.
    pub open spec fn nest(self) -> nat
        decreases self,
    {
        match self {
            MmsDataView::Array(items) => if items.len() == 0 {
                0
            } else {
                1 + deepest(items)
            },
            MmsDataView::Structure(items) => if items.len() == 0 {
                0
            } else {
                1 + deepest(items)
            },
            _ => 0,
        }
    }

    /// Every binary time in the value has one of its two lengths.
    pub open spec fn well_sized(self) -> bool
        decreases self,
    {
        match self {
            MmsDataView::Array(items) => forall|i: int|
                0 <= i < items.len() ==> (#[trigger] items[i]).well_sized(),
            MmsDataView::Structure(items) => forall|i: int|
                0 <= i < items.len() ==> (#[trigger] items[i]).well_sized(),
            MmsDataView::BinaryTime(b) => b.len() == 4 || b.len() == 6,
            _ => true,
        }
    }

    /// The value can be written and read back by a decoder with `room` levels to go: it
    /// nests no deeper, and every binary time has one of its two lengths.
    pub open spec fn readable(self, room: int) -> bool
        decreases self,
    {
        &&& room >= 0
        &&& match self {
            MmsDataView::Array(items) => forall|i: int|
                0 <= i < items.len() ==> (#[trigger] items[i]).readable(room - 1),
            MmsDataView::Structure(items) => forall|i: int|
                0 <= i < items.len() ==> (#[trigger] items[i]).readable(room - 1),
            MmsDataView::BinaryTime(b) => b.len() == 4 || b.len() == 6,
            _ => true,
        }
    }
}

/// A value with at most 0xffff octets of content, which nests no deeper than the ceiling,
/// decodes to itself, whatever follows it.
pub proof fn law_data_round_trip(d: MmsDataView, rest: Seq<u8>, depth: int, max: u8)
    requires
        d.readable(max - depth),
        d.content().len() <= 0xffff,
    ensures
        MmsDataView::parse(d.octets() + rest, depth, max) == Ok::<(MmsDataView, nat), MmsError>(
            (d, d.octets().len()),
        ),
{
    ber::law_element_round_trip(d.tag(), d.content(), rest);
    lemma_of_content(d, depth, max);
}

/// The content of a value, read under its tag, is the value.
proof fn lemma_of_content(d: MmsDataView, depth: int, max: u8)
    requires
        d.readable(max - depth),
        d.content().len() <= 0xffff,
    ensures
        MmsDataView::of_element(d.tag(), d.content(), depth, max) == Ok::<MmsDataView, MmsError>(d),
    decreases d, 0int,
{
    let val = d.content();
    match d {
        MmsDataView::Array(items) => {
            lemma_list_round_trip(items, depth + 1, max, Seq::empty());
            assert(Seq::<MmsDataView>::empty() + items =~= items);
        },
        MmsDataView::Structure(items) => {
            lemma_list_round_trip(items, depth + 1, max, Seq::empty());
            assert(Seq::<MmsDataView>::empty() + items =~= items);
        },
        MmsDataView::Integer(v) => {
            integer::law_sint_round_trip(v as int);
            integer::lemma_sint_octets_width(v as int);
        },
        MmsDataView::Unsigned(v) => integer::law_unsigned_round_trip(v),
        MmsDataView::Float32(v) => {
            integer::lemma_pow256_values();
            integer::law_fixed_round_trip(v as nat, 4);
            assert(val.skip(1) =~= integer::fixed_octets(v as nat, 4));
        },
        MmsDataView::Float64(v) => {
            integer::lemma_pow256_values();
            integer::law_fixed_round_trip(v as nat, 8);
            assert(val.skip(1) =~= integer::fixed_octets(v as nat, 8));
        },
        MmsDataView::VisibleString(t) => text::lemma_text_round_trip(t),
        MmsDataView::GeneralizedTime(t) => text::lemma_text_round_trip(t),
        MmsDataView::MmsString(t) => text::lemma_text_round_trip(t),
        MmsDataView::BitString { padding, data } => assert(val.skip(1) =~= data),
        MmsDataView::BooleanArray { padding, data } => assert(val.skip(1) =~= data),
        MmsDataView::UtcTime(a) => assert(octets8(a@) =~= a),
        _ => {},
    }
}

/// Values in a row, each readable, are read back in a row.
pub proof fn lemma_list_round_trip(
    items: Seq<MmsDataView>,
    depth: int,
    max: u8,
    acc: Seq<MmsDataView>,
)
    requires
        forall|i: int| 0 <= i < items.len() ==> (#[trigger] items[i]).readable(max - depth),
        all_octets(items).len() <= 0xffff,
    ensures
        data_list_at(all_octets(items), depth, max, acc) == Ok::<Seq<MmsDataView>, MmsError>(
            acc + items,
        ),
    decreases items, 1int,
{
    if items.len() == 0 {
        assert(acc + items =~= acc);
    } else {
        let first = items[0];
        let others = items.skip(1);
        lemma_all_octets_first(items);
        assert(first.readable(max - depth));
        ber::law_element_round_trip(first.tag(), first.content(), all_octets(others));
        lemma_of_content(first, depth, max);
        assert forall|i: int| 0 <= i < others.len() implies (#[trigger] others[i]).readable(
            max - depth,
        ) by {
            assert(others[i] == items[i + 1]);
        }
        lemma_list_round_trip(others, depth, max, acc.push(first));
        assert(acc.push(first) + others =~= acc + items);
    }
}

/// A floating point value whose exponent width byte is the one of its size encodes back
/// to the bytes it was decoded from.
pub proof fn law_float_reencodes(val: Seq<u8>, depth: int, max: u8)
    requires
        val.len() == 5 && val[0] == 0x08 || val.len() == 9 && val[0] == 0x0b,
    ensures
        MmsDataView::of_element(0x87, val, depth, max) matches Ok(d) && d.octets() == ber::tlv(
            0x87,
            val,
        ),
{
    let body = val.skip(1);
    integer::lemma_pow256_values();
    integer::lemma_uint_bound(body);
    integer::law_fixed_of_uint(body);
    assert(seq![val[0]] + body =~= val);
}

/// Whatever decodes nests no deeper than the ceiling allows.
pub proof fn law_decoded_within_ceiling(s: Seq<u8>, depth: int, max: u8)
    ensures
        MmsDataView::parse(s, depth, max) matches Ok((d, _)) ==> d.readable(max - depth),
{
    if let Ok(e) = ber::element_at(s) {
        if depth <= max {
            lemma_element_readable(e.tag, e.val, depth, max);
        }
    }
}

proof fn lemma_element_readable(tag: u8, val: Seq<u8>, depth: int, max: u8)
    requires
        depth <= max,
    ensures
        MmsDataView::of_element(tag, val, depth, max) matches Ok(d) ==> d.readable(max - depth),
    decreases val.len(), 1int,
{
    if tag == 0xa1 || tag == 0xa2 {
        lemma_list_readable(val, depth + 1, max, Seq::empty());
    }
}

proof fn lemma_list_readable(s: Seq<u8>, depth: int, max: u8, acc: Seq<MmsDataView>)
    requires
        forall|i: int| 0 <= i < acc.len() ==> (#[trigger] acc[i]).readable(max - depth),
    ensures
        data_list_at(s, depth, max, acc) matches Ok(items) ==> forall|i: int|
            0 <= i < items.len() ==> (#[trigger] items[i]).readable(max - depth),
    decreases s.len(), 0int,
{
    if s.len() > 0 && depth <= max {
        if let Ok(e) = ber::element_at(s) {
            lemma_element_readable(e.tag, e.val, depth, max);
            if let Ok(v) = MmsDataView::of_element(e.tag, e.val, depth, max) {
                lemma_list_readable(s.skip(e.size as int), depth, max, acc.push(v));
            }
        }
    }
}

/// A decoded value whose own content has at most 0xffff octets decodes again to itself.
pub proof fn law_data_redecodes(s: Seq<u8>, depth: int, max: u8)
    ensures
        MmsDataView::parse(s, depth, max) matches Ok((d, _)) ==> d.content().len() <= 0xffff
            ==> MmsDataView::parse(d.octets(), depth, max) == Ok::<(MmsDataView, nat), MmsError>(
            (d, d.octets().len()),
        ),
{
    law_decoded_within_ceiling(s, depth, max);
    if let Ok((d, _)) = MmsDataView::parse(s, depth, max) {
        if d.content().len() <= 0xffff {
            law_data_round_trip(d, Seq::empty(), depth, max);
            assert(d.octets() + Seq::<u8>::empty() =~= d.octets());
        }
    }
}

/// No value nests deeper than the deepest.
proof fn lemma_deepest_bound(items: Seq<MmsDataView>, i: int)
    requires
        0 <= i < items.len(),
    ensures
        items[i].nest() <= deepest(items),
    decreases items.len(),
{
    if i < items.len() - 1 {
        lemma_deepest_bound(items.drop_last(), i);
    }
}

/// The deepest of values is the deeper of the first and the deepest of the others.
proof fn lemma_deepest_first(items: Seq<MmsDataView>)
    requires
        items.len() > 0,
    ensures
        deepest(items) == (if items[0].nest() > deepest(items.skip(1)) {
            items[0].nest()
        } else {
            deepest(items.skip(1))
        }),
    decreases items.len(),
{
    if items.len() == 1 {
        assert(deepest(items.drop_last()) == 0);
        assert(deepest(items.skip(1)) == 0);
    } else {
        lemma_deepest_first(items.drop_last());
        assert(items.drop_last().skip(1) =~= items.skip(1).drop_last());
        assert(items.skip(1).last() == items.last());
    }
}

/// A value with times of a valid length that nests within the room is readable.
proof fn lemma_nest_readable(d: MmsDataView, room: int)
    requires
        d.well_sized(),
        d.nest() <= room,
    ensures
        d.readable(room),
    decreases d,
{
    match d {
        MmsDataView::Array(items) => {
            assert forall|i: int| 0 <= i < items.len() implies (#[trigger] items[i]).readable(
                room - 1,
            ) by {
                lemma_deepest_bound(items, i);
                assert(items[i].well_sized());
                lemma_nest_readable(items[i], room - 1);
            }
        },
        MmsDataView::Structure(items) => {
            assert forall|i: int| 0 <= i < items.len() implies (#[trigger] items[i]).readable(
                room - 1,
            ) by {
                lemma_deepest_bound(items, i);
                assert(items[i].well_sized());
                lemma_nest_readable(items[i], room - 1);
            }
        },
        _ => {},
    }
}

/// A value with at most 0xffff octets of content, whose binary times have a valid length,
/// decodes to itself exactly when it nests no deeper than the ceiling. Otherwise the error
/// names the ceiling as the limit and the level just beyond it as the one reached.
pub proof fn law_data_nesting(d: MmsDataView, rest: Seq<u8>, depth: int, max: u8)
    requires
        d.well_sized(),
        d.content().len() <= 0xffff,
        depth <= max < 255,
    ensures
        MmsDataView::parse(d.octets() + rest, depth, max) == (if depth + d.nest() <= max {
            Ok::<(MmsDataView, nat), MmsError>((d, d.octets().len()))
        } else {
            Err(MmsError::NestingLevelExceeded { max, got: (max + 1) as u8 })
        }),
{
    if depth + d.nest() <= max {
        lemma_nest_readable(d, max - depth);
        law_data_round_trip(d, rest, depth, max);
    } else {
        ber::law_element_round_trip(d.tag(), d.content(), rest);
        lemma_too_deep(d, depth, max);
    }
}

/// The content of a value that nests too deep, read under its tag, is refused.
proof fn lemma_too_deep(d: MmsDataView, depth: int, max: u8)
    requires
        d.well_sized(),
        d.content().len() <= 0xffff,
        depth <= max < depth + d.nest(),
    ensures
        MmsDataView::of_element(d.tag(), d.content(), depth, max) == Err::<MmsDataView, MmsError>(
            nesting_error(max + 1, max),
        ),
    decreases d, 0int,
{
    match d {
        MmsDataView::Array(items) => {
            lemma_list_too_deep(items, depth + 1, max, Seq::empty());
        },
        MmsDataView::Structure(items) => {
            lemma_list_too_deep(items, depth + 1, max, Seq::empty());
        },
        _ => {},
    }
}

/// Values in a row of which one nests too deep are refused.
proof fn lemma_list_too_deep(items: Seq<MmsDataView>, depth: int, max: u8, acc: Seq<MmsDataView>)
    requires
        items.len() > 0,
        forall|i: int| 0 <= i < items.len() ==> (#[trigger] items[i]).well_sized(),
        all_octets(items).len() <= 0xffff,
        depth <= max + 1,
        max < depth + deepest(items),
    ensures
        data_list_at(all_octets(items), depth, max, acc) == Err::<Seq<MmsDataView>, MmsError>(
            nesting_error(max + 1, max),
        ),
    decreases items, 1int,
{
    let first = items[0];
    let others = items.skip(1);
    lemma_all_octets_first(items);
    if depth <= max {
        lemma_deepest_first(items);
        assert(first.well_sized());
        ber::law_element_round_trip(first.tag(), first.content(), all_octets(others));
        if depth + first.nest() <= max {
            lemma_nest_readable(first, max - depth);
            lemma_of_content(first, depth, max);
            assert forall|i: int| 0 <= i < others.len() implies (
            #[trigger] others[i]).well_sized() by {
                assert(others[i] == items[i + 1]);
            }
            assert(others.len() > 0);
            lemma_list_too_deep(others, depth, max, acc.push(first));
        } else {
            lemma_too_deep(first, depth, max);
        }
    } else {
        assert(all_octets(items).len() > 0);
    }
}

/// Two single-precision floats, given as their bits, are equal: neither is a NaN, and they
/// have the same bits or are both a zero.
pub open spec fn singles_equal(a: u32, b: u32) -> bool {
    &&& !is_nan32(a)
    &&& !is_nan32(b)
    &&& a == b || (a % 0x8000_0000 == 0 && b % 0x8000_0000 == 0)
}

/// As `singles_equal`, for double-precision floats.
pub open spec fn doubles_equal(a: u64, b: u64) -> bool {
    &&& !is_nan64(a)
    &&& !is_nan64(b)
    &&& a == b || (a % 0x8000_0000_0000_0000 == 0 && b % 0x8000_0000_0000_0000 == 0)
}

/// The bits, without their sign, are above those of the infinity.
pub open spec fn is_nan32(bits: u32) -> bool {
    bits % 0x8000_0000 > 0x7f80_0000
}

/// As `is_nan32`, for a double-precision float.
pub open spec fn is_nan64(bits: u64) -> bool {
    bits % 0x8000_0000_0000_0000 > 0x7ff0_0000_0000_0000
}

/// The values are as many, and equal one by one.
pub open spec fn all_equal(a: Seq<MmsDataView>, b: Seq<MmsDataView>) -> bool
    decreases a,
{
    &&& a.len() == b.len()
    &&& forall|i: int| 0 <= i < a.len() ==> (#[trigger] a[i]).equals(b[i])
}

impl MmsDataView {
    /// The values are of one kind and equal, floats as numbers.
    pub open spec fn equals(self, other: MmsDataView) -> bool
        decreases self,
    {
        match (self, other) {
            (MmsDataView::Array(a), MmsDataView::Array(b)) => all_equal(a, b),
            (MmsDataView::Structure(a), MmsDataView::Structure(b)) => all_equal(a, b),
            (MmsDataView::Float32(a), MmsDataView::Float32(b)) => singles_equal(a, b),
            (MmsDataView::Float64(a), MmsDataView::Float64(b)) => doubles_equal(a, b),
            _ => self == other,
        }
    }

    /// Some float in the value is a NaN.
    pub open spec fn holds_nan(self) -> bool
        decreases self,
    {
        match self {
            MmsDataView::Array(items) => exists|i: int|
                0 <= i < items.len() && (#[trigger] items[i]).holds_nan(),
            MmsDataView::Structure(items) => exists|i: int|
                0 <= i < items.len() && (#[trigger] items[i]).holds_nan(),
            MmsDataView::Float32(bits) => is_nan32(bits),
            MmsDataView::Float64(bits) => is_nan64(bits),
            _ => false,
        }
    }
}

/// Compares octets.
fn octets_equal(a: &[u8], b: &[u8]) -> (r: bool)
    ensures
        r == (a@ == b@),
{
    if a.len() != b.len() {
        return false;
    }
    let mut i: usize = 0;
    while i < a.len()
        invariant
            i <= a.len(),
            a.len() == b.len(),
            forall|j: int| 0 <= j < i ==> a@[j] == b@[j],
        decreases a.len() - i,
    {
        if a[i] != b[i] {
            return false;
        }
        i = i + 1;
    }
    assert(a@ =~= b@);
    true
}

/// Compares values in a row.
fn lists_equal(a: &Vec<MmsData>, b: &Vec<MmsData>) -> (r: bool)
    ensures
        r == all_equal(data_views(a@), data_views(b@)),
    decreases a,
{
    if a.len() != b.len() {
        return false;
    }
    let mut i: usize = 0;
    while i < a.len()
        invariant
            i <= a.len(),
            a.len() == b.len(),
            forall|j: int|
                0 <= j < i ==> (#[trigger] data_views(a@)[j]).equals(data_views(b@)[j]),
        decreases a.len() - i,
    {
        proof {
            assert(decreases_to!(a => a@[i as int]));
        }
        if !values_equal(&a[i], &b[i]) {
            assert(!data_views(a@)[i as int].equals(data_views(b@)[i as int]));
            return false;
        }
        i = i + 1;
    }
    true
}

/// Compares two values.
fn values_equal(a: &MmsData, b: &MmsData) -> (r: bool)
    ensures
        r == a@.equals(b@),
    decreases a,
{
    match (a, b) {
        (MmsData::Boolean(x), MmsData::Boolean(y)) => *x == *y,
        (MmsData::Array(x), MmsData::Array(y)) => lists_equal(x, y),
        (MmsData::Structure(x), MmsData::Structure(y)) => lists_equal(x, y),
        (MmsData::Integer(x), MmsData::Integer(y)) => *x == *y,
        (MmsData::Unsigned(x), MmsData::Unsigned(y)) => *x == *y,
        (MmsData::Float32(x), MmsData::Float32(y)) => {
            let p: u32 = *x % 0x8000_0000;
            let q: u32 = *y % 0x8000_0000;
            p <= 0x7f80_0000 && q <= 0x7f80_0000 && (*x == *y || (p == 0 && q == 0))
        },
        (MmsData::Float64(x), MmsData::Float64(y)) => {
            let p: u64 = *x % 0x8000_0000_0000_0000;
            let q: u64 = *y % 0x8000_0000_0000_0000;
            p <= 0x7ff0_0000_0000_0000 && q <= 0x7ff0_0000_0000_0000 && (*x == *y || (p == 0 && q
                == 0))
        },
        (MmsData::OctetString(x), MmsData::OctetString(y)) => octets_equal(x, y),
        (MmsData::VisibleString(x), MmsData::VisibleString(y)) => text::same(x, y),
        (MmsData::GeneralizedTime(x), MmsData::GeneralizedTime(y)) => text::same(x, y),
        (MmsData::BinaryTime(x), MmsData::BinaryTime(y)) => octets_equal(x, y),
        (
            MmsData::BooleanArray { padding: p, data: x },
            MmsData::BooleanArray { padding: q, data: y },
        ) => *p == *q && octets_equal(x, y),
        (
            MmsData::BitString { padding: p, data: x },
            MmsData::BitString { padding: q, data: y },
        ) => *p == *q && octets_equal(x, y),
        (MmsData::MmsString(x), MmsData::MmsString(y)) => text::same(x, y),
        (MmsData::UtcTime(x), MmsData::UtcTime(y)) => {
            let r: bool = octets_equal(x, y);
            assert(r ==> *x =~= *y);
            r
        },
        _ => false,
    }
}

impl PartialEq for MmsData {
    fn eq(&self, other: &Self) -> (r: bool) {
        values_equal(self, other)
    }
}

impl vstd::std_specs::cmp::PartialEqSpecImpl for MmsData {
    open spec fn obeys_eq_spec() -> bool {
        true
    }

    open spec fn eq_spec(&self, other: &Self) -> bool {
        self@.equals(other@)
    }
}

/// A value equals itself exactly when it holds no NaN.
pub proof fn law_equals_itself_without_nan(d: MmsDataView)
    ensures
        d.equals(d) <==> !d.holds_nan(),
    decreases d,
{
    match d {
        MmsDataView::Array(items) => {
            assert forall|i: int| 0 <= i < items.len() implies ((#[trigger] items[i]).equals(
                items[i],
            ) <==> !items[i].holds_nan()) by {
                law_equals_itself_without_nan(items[i]);
            }
        },
        MmsDataView::Structure(items) => {
            assert forall|i: int| 0 <= i < items.len() implies ((#[trigger] items[i]).equals(
                items[i],
            ) <==> !items[i].holds_nan()) by {
                law_equals_itself_without_nan(items[i]);
            }
        },
        _ => {},
    }
}

} // verus!
