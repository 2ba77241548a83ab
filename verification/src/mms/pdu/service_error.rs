//! The MMS ServiceError type and its errorClass CHOICE.
//!
//! `ServiceError` is also the payload of a ConfirmedError PDU.
//!
//! Wire format when carried in an InitiateError PDU, whose outer `0xaa` is written
//! by `MmsPdu`:
//! ```text
//! 0xa0 0x03          -- errorClass [0] EXPLICIT CHOICE
//!   0x88 0x01 <code> -- initiate [8] IMPLICIT INTEGER, the subcode
//! ```
//!
//! `errorClass` carries an EXPLICIT tag, adding one wrapper; every other field is
//! IMPLICIT. The length of every field is a single byte.

use bytes::BytesMut;
use vstd::prelude::*;

use crate::buffer;
use crate::mms::error::MmsError;
use crate::mms::pdu::ber;
use crate::mms::pdu::ber::{put_tlv, take_short, Tlv};
use crate::mms::pdu::data;
use crate::mms::pdu::data::decode_text_field;
use crate::mms::pdu::integer;
use crate::mms::pdu::integer::{decode_signed_i32, encode_unsigned_int_minimal, sint_minimal};
use crate::text;

verus! {

broadcast use ber::group_element_sizes;

/// The errorClass CHOICE of a ServiceError.
///
/// The `u8` in each variant is the subcode INTEGER, and the BER context tag is the
/// index of the alternative, `[0]` through `[12]`.
#[derive(Debug, Clone, Copy, PartialEq, Eq)]
pub enum ErrorClass {
    /// `[0]` vmd-state (sub-code 0=vmd-state-conflict, 1=vmd-operational-problem, ...)
    VmdState(u8),
    /// `[1]` application-reference
    ApplicationReference(u8),
    /// `[2]` definition
    Definition(u8),
    /// `[3]` resource
    Resource(u8),
    /// `[4]` service
    Service(u8),
    /// `[5]` service-preempt
    ServicePreempt(u8),
    /// `[6]` time-resolution
    TimeResolution(u8),
    /// `[7]` access
    Access(u8),
    /// `[8]` initiate. Subcodes: 0 other, 1 version-incompatible,
    ///             3=max-calling-outstanding, 4=max-called-outstanding,
    ///             5 service-error, 6 continuing, 7 user-error.
    Initiate(u8),
    /// `[9]` conclude
    Conclude(u8),
    /// `[10]` cancel
    Cancel(u8),
    /// `[11]` file
    File(u8),
    /// `[12]` others
    Others(u8),
}

impl ErrorClass {
    /// The index of the alternative and the subcode.
    pub open spec fn parts(self) -> (u8, u8) {
        match self {
            ErrorClass::VmdState(c) => (0, c),
            ErrorClass::ApplicationReference(c) => (1, c),
            ErrorClass::Definition(c) => (2, c),
            ErrorClass::Resource(c) => (3, c),
            ErrorClass::Service(c) => (4, c),
            ErrorClass::ServicePreempt(c) => (5, c),
            ErrorClass::TimeResolution(c) => (6, c),
            ErrorClass::Access(c) => (7, c),
            ErrorClass::Initiate(c) => (8, c),
            ErrorClass::Conclude(c) => (9, c),
            ErrorClass::Cancel(c) => (10, c),
            ErrorClass::File(c) => (11, c),
            ErrorClass::Others(c) => (12, c),
        }
    }

    /// The alternative with this index and subcode, where there is one.
    pub open spec fn of_parts(index: int, c: u8) -> Option<ErrorClass> {
        if index == 0 {
            Some(ErrorClass::VmdState(c))
        } else if index == 1 {
            Some(ErrorClass::ApplicationReference(c))
        } else if index == 2 {
            Some(ErrorClass::Definition(c))
        } else if index == 3 {
            Some(ErrorClass::Resource(c))
        } else if index == 4 {
            Some(ErrorClass::Service(c))
        } else if index == 5 {
            Some(ErrorClass::ServicePreempt(c))
        } else if index == 6 {
            Some(ErrorClass::TimeResolution(c))
        } else if index == 7 {
            Some(ErrorClass::Access(c))
        } else if index == 8 {
            Some(ErrorClass::Initiate(c))
        } else if index == 9 {
            Some(ErrorClass::Conclude(c))
        } else if index == 10 {
            Some(ErrorClass::Cancel(c))
        } else if index == 11 {
            Some(ErrorClass::File(c))
        } else if index == 12 {
            Some(ErrorClass::Others(c))
        } else {
            None
        }
    }

    /// The encoding of the class, EXPLICIT wrapper included.
    pub open spec fn octets(self) -> Seq<u8> {
        seq![0xa0, 0x03, (0x80 + self.parts().0) as u8, 0x01, self.parts().1]
    }

    /// The class at the start of `s`, and how many octets its wrapper takes.
    pub open spec fn parse(s: Seq<u8>) -> Result<(ErrorClass, nat), MmsError> {
        if s.len() < 5 {
            Err(MmsError::TruncatedPdu)
        } else if s[0] != 0xa0 {
            Err(MmsError::InvalidTag { expected: 0xa0, actual: s[0] })
        } else if s[1] < 3 || s.len() < 2 + s[1] {
            Err(MmsError::InvalidLength)
        } else if !(0x80 <= s[2] <= 0x9f) {
            Err(MmsError::InvalidTag { expected: 0x80, actual: s[2] })
        } else if s[3] != 0x01 {
            Err(MmsError::InvalidLength)
        } else {
            match ErrorClass::of_parts(s[2] - 0x80, s[4]) {
                Some(c) => Ok((c, (2 + s[1]) as nat)),
                None => Err(MmsError::UnknownMmsPduTag(s[2])),
            }
        }
    }

    /// Returns the context tag of the alternative, 0 through 12.
    pub fn context_tag(&self) -> (tag: u8)
        ensures
            tag == self.parts().0,
    {
        match self {
            ErrorClass::VmdState(_) => 0,
            ErrorClass::ApplicationReference(_) => 1,
            ErrorClass::Definition(_) => 2,
            ErrorClass::Resource(_) => 3,
            ErrorClass::Service(_) => 4,
            ErrorClass::ServicePreempt(_) => 5,
            ErrorClass::TimeResolution(_) => 6,
            ErrorClass::Access(_) => 7,
            ErrorClass::Initiate(_) => 8,
            ErrorClass::Conclude(_) => 9,
            ErrorClass::Cancel(_) => 10,
            ErrorClass::File(_) => 11,
            ErrorClass::Others(_) => 12,
        }
    }

    /// Returns the subcode.
    pub fn code(&self) -> (c: u8)
        ensures
            c == self.parts().1,
    {
        match self {
            ErrorClass::VmdState(c) => *c,
            ErrorClass::ApplicationReference(c) => *c,
            ErrorClass::Definition(c) => *c,
            ErrorClass::Resource(c) => *c,
            ErrorClass::Service(c) => *c,
            ErrorClass::ServicePreempt(c) => *c,
            ErrorClass::TimeResolution(c) => *c,
            ErrorClass::Access(c) => *c,
            ErrorClass::Initiate(c) => *c,
            ErrorClass::Conclude(c) => *c,
            ErrorClass::Cancel(c) => *c,
            ErrorClass::File(c) => *c,
            ErrorClass::Others(c) => *c,
        }
    }

    /// Encodes the errorClass CHOICE, including its EXPLICIT `[0]` wrapper.
    ///
    /// The output is `0xa0 0x03 0x8<n> 0x01 <code>`, where `0x8<n>` is `0x80` plus
    /// `context_tag()`, an IMPLICIT primitive tag.
    pub fn encode_explicit(&self, buf: &mut BytesMut)
        requires
            buffer::contents(*old(buf)).len() + self.octets().len() <= isize::MAX,
        ensures
            buffer::contents(*final(buf)) == buffer::contents(*old(buf)) + self.octets(),
    {
        let body: [u8; 5] = [0xa0, 0x03, 0x80 + self.context_tag(), 0x01, self.code()];
        assert(body@ =~= self.octets());
        buf.extend_from_slice(&body);
    }

    /// Decodes the errorClass CHOICE, starting at its EXPLICIT `[0]` wrapper.
    ///
    /// `data` starts at the `0xa0` byte; the number of bytes consumed is returned.
    pub fn decode_explicit(data: &[u8]) -> (r: Result<(Self, usize), MmsError>)
        ensures
            match ErrorClass::parse(data@) {
                Ok((c, n)) => r matches Ok((x, m)) && x == c && m == n,
                Err(e) => r == Err::<(ErrorClass, usize), MmsError>(e),
            },
            r matches Ok((_, m)) ==> 5 <= m <= data.len(),
    {
        // at least 5 bytes are needed: 0xa0 len 0x8n 0x01 code
        if data.len() < 5 {
            return Err(MmsError::TruncatedPdu);
        }
        if data[0] != 0xa0 {
            return Err(MmsError::InvalidTag { expected: 0xa0, actual: data[0] });
        }
        let outer_len: usize = data[1] as usize;
        if outer_len < 3 || data.len() < 2 + outer_len {
            return Err(MmsError::InvalidLength);
        }
        // the inner tag is context-specific and primitive, with the choice index in
        // its low five bits
        let inner_tag: u8 = data[2];
        if inner_tag < 0x80 || inner_tag > 0x9f {
            return Err(MmsError::InvalidTag { expected: 0x80, actual: inner_tag });
        }
        if data[3] != 0x01 {
            return Err(MmsError::InvalidLength);
        }
        let code: u8 = data[4];
        let class: ErrorClass = match inner_tag - 0x80 {
            0 => ErrorClass::VmdState(code),
            1 => ErrorClass::ApplicationReference(code),
            2 => ErrorClass::Definition(code),
            3 => ErrorClass::Resource(code),
            4 => ErrorClass::Service(code),
            5 => ErrorClass::ServicePreempt(code),
            6 => ErrorClass::TimeResolution(code),
            7 => ErrorClass::Access(code),
            8 => ErrorClass::Initiate(code),
            9 => ErrorClass::Conclude(code),
            10 => ErrorClass::Cancel(code),
            11 => ErrorClass::File(code),
            12 => ErrorClass::Others(code),
            _ => return Err(MmsError::UnknownMmsPduTag(inner_tag)),
        };
        Ok((class, 2 + outer_len))
    }
}

/// An errorClass decodes to itself, whatever follows it.
pub proof fn law_error_class_round_trip(c: ErrorClass, rest: Seq<u8>)
    ensures
        ErrorClass::parse(c.octets() + rest) == Ok::<(ErrorClass, nat), MmsError>((c, 5)),
{
}

/// An MMS ServiceError, carried by an InitiateError and by a ConfirmedError PDU.
///
/// Wire format, whose outer `0xaa` is written by `MmsPdu`:
/// ```text
/// 0xa0 0x03      -- errorClass [0] EXPLICIT CHOICE
///   0x8n 0x01 c  -- inner choice tag + sub-code
/// (0x81 ... )    -- additionalCode [1] IMPLICIT INTEGER, OPTIONAL
/// (0x82 ... )    -- additionalDescription [2] IMPLICIT VisibleString, OPTIONAL
/// ```
#[derive(Debug, Clone, PartialEq, Eq)]
pub struct ServiceError {
    /// errorClass `[0]` EXPLICIT, the one mandatory field.
    pub error_class: ErrorClass,
    /// additionalCode `[1]` IMPLICIT INTEGER, OPTIONAL.
    pub additional_code: Option<i32>,
    /// additionalDescription `[2]` IMPLICIT VisibleString, OPTIONAL.
    pub additional_description: Option<String>,
}

/// A ServiceError with its description as a text.
#[verifier::ext_equal]
pub struct ServiceErrorView {
    /// errorClass.
    pub error_class: ErrorClass,
    /// additionalCode.
    pub additional_code: Option<i32>,
    /// additionalDescription.
    pub additional_description: Option<Seq<char>>,
}

impl View for ServiceError {
    type V = ServiceErrorView;

    open spec fn view(&self) -> ServiceErrorView {
        ServiceErrorView {
            error_class: self.error_class,
            additional_code: self.additional_code,
            additional_description: text::opt_text(self.additional_description),
        }
    }
}

/// What has been read of the optional fields: the code and the description.
pub type ServiceErrorFields = (Option<i32>, Option<Seq<char>>);

/// One optional field; a later field replaces an earlier one, and others are skipped.
pub open spec fn service_error_field(acc: ServiceErrorFields, tag: u8, val: Seq<u8>) -> Result<
    ServiceErrorFields,
    MmsError,
> {
    if tag == 0x81 {
        match integer::signed_at(val, 4) {
            Err(e) => Err(e),
            Ok(v) => Ok((Some(v as i32), acc.1)),
        }
    } else if tag == 0x82 {
        match data::text_field_at(val) {
            Err(e) => Err(e),
            Ok(t) => Ok((acc.0, Some(t))),
        }
    } else {
        Ok(acc)
    }
}

/// `service_error_field` as a step over the elements.
pub open spec fn service_error_fields() -> spec_fn(ServiceErrorFields, u8, Seq<u8>) -> Result<
    ServiceErrorFields,
    MmsError,
> {
    |acc: ServiceErrorFields, tag: u8, val: Seq<u8>| service_error_field(acc, tag, val)
}

impl ServiceErrorView {
    /// The encoding of the additional code, where there is one.
    pub open spec fn code_octets(self) -> Seq<u8> {
        match self.additional_code {
            Some(v) => ber::short_tlv(0x81, integer::sint_octets(v as int)),
            None => Seq::empty(),
        }
    }

    /// The encoding of the description, where there is one. Its length keeps only the low
    /// 8 bits.
    pub open spec fn description_octets(self) -> Seq<u8> {
        match self.additional_description {
            Some(t) => ber::short_tlv(0x82, text::utf8(t)),
            None => Seq::empty(),
        }
    }

    /// The encoding of the error, without the tag of the PDU that carries it.
    pub open spec fn content(self) -> Seq<u8> {
        self.error_class.octets() + self.code_octets() + self.description_octets()
    }

    /// The error that fills `s`.
    pub open spec fn of_content(s: Seq<u8>) -> Result<ServiceErrorView, MmsError> {
        match ErrorClass::parse(s) {
            Err(e) => Err(e),
            Ok((error_class, n)) => match ber::short_fold(
                s.skip(n as int),
                (None, None),
                service_error_fields(),
            ) {
                Err(e) => Err(e),
                Ok((additional_code, additional_description)) => Ok(
                    ServiceErrorView { error_class, additional_code, additional_description },
                ),
            },
        }
    }
}

impl ServiceError {
    /// Builds a `ServiceError` carrying only an errorClass.
    pub fn new(error_class: ErrorClass) -> (r: Self)
        ensures
            r == (ServiceError {
                error_class,
                additional_code: None,
                additional_description: None,
            }),
    {
        ServiceError { error_class, additional_code: None, additional_description: None }
    }

    /// Encodes the content of a ServiceError, without the outer MmsPdu tag.
    pub fn encode_inner(&self, buf: &mut BytesMut)
        requires
            buffer::contents(*old(buf)).len() + self@.content().len() <= isize::MAX,
        ensures
            buffer::contents(*final(buf)) == buffer::contents(*old(buf)) + self@.content(),
    {
        self.error_class.encode_explicit(buf);
        if let Some(code) = self.additional_code {
            let body: Vec<u8> = sint_minimal(code as i64);
            buf.extend_from_slice(&[0x81, body.len() as u8]);
            buf.extend_from_slice(&body);
        }
        if let Some(desc) = &self.additional_description {
            let body: &[u8] = desc.as_str().as_bytes();
            buf.extend_from_slice(&[0x82, (body.len() % 256) as u8]);
            buf.extend_from_slice(body);
        }
        assert(buffer::contents(*buf) =~= buffer::contents(*old(buf)) + self@.content());
    }

    /// Decodes ServiceError content; `data` is what follows the outer `0xaa` length.
    pub fn decode_inner(data: &[u8]) -> (r: Result<Self, MmsError>)
        ensures
            ber::agrees(r, ServiceErrorView::of_content(data@)),
    {
        let (error_class, consumed) = ErrorClass::decode_explicit(data)?;
        let mut pos: usize = consumed;
        let mut additional_code: Option<i32> = None;
        let mut additional_description: Option<String> = None;
        let ghost steps = service_error_fields();
        while pos < data.len()
            invariant
                pos <= data.len(),
                ErrorClass::parse(data@) == Ok::<(ErrorClass, nat), MmsError>(
                    (error_class, consumed as nat),
                ),
                steps == service_error_fields(),
                ber::short_fold(data@.skip(consumed as int), (None, None), steps)
                    == ber::short_fold(
                    data@.skip(pos as int),
                    (additional_code, text::opt_text(additional_description)),
                    steps,
                ),
            decreases data.len() - pos,
        {
            let t: Tlv = take_short(data, pos)?;
            let ghost acc: ServiceErrorFields = (
                additional_code,
                text::opt_text(additional_description),
            );
            assert(steps(acc, t.tag, t.val@) == service_error_field(acc, t.tag, t.val@));
            match t.tag {
                0x81 => {
                    additional_code = Some(decode_signed_i32(t.val)?);
                },
                0x82 => {
                    let s: String = decode_text_field(t.val)?;
                    additional_description = Some(s);
                },
                _ => {},
            }
            pos = pos + t.size;
        }
        Ok(ServiceError { error_class, additional_code, additional_description })
    }
}

/// A ServiceError whose description is at most 255 bytes long decodes to itself.
pub proof fn law_service_error_round_trip(e: ServiceErrorView)
    requires
        e.additional_description matches Some(t) ==> text::utf8(t).len() <= 0xff,
    ensures
        ServiceErrorView::of_content(e.content()) == Ok::<ServiceErrorView, MmsError>(e),
{
    let steps = service_error_fields();
    let rest = e.code_octets() + e.description_octets();
    law_error_class_round_trip(e.error_class, rest);
    assert(e.content() =~= e.error_class.octets() + rest);
    assert(e.content().skip(5) =~= rest);
    let start: ServiceErrorFields = (None, None);
    let coded: ServiceErrorFields = (e.additional_code, None);
    if let Some(v) = e.additional_code {
        let octets = integer::sint_octets(v as int);
        integer::law_sint_round_trip(v as int);
        integer::lemma_sint_octets_width(v as int);
        assert(steps(start, 0x81, octets) == Ok::<ServiceErrorFields, MmsError>(coded));
        ber::lemma_short_fold_tlv(0x81, octets, e.description_octets(), start, steps);
    } else {
        assert(rest =~= e.description_octets());
    }
    if let Some(t) = e.additional_description {
        let octets = text::utf8(t);
        text::lemma_text_round_trip(t);
        let done: ServiceErrorFields = (e.additional_code, Some(t));
        assert(steps(coded, 0x82, octets) == Ok::<ServiceErrorFields, MmsError>(done));
        ber::lemma_short_fold_tlv(0x82, octets, Seq::empty(), coded, steps);
        assert(ber::short_tlv(0x82, octets) + Seq::<u8>::empty() =~= e.description_octets());
        assert(ber::short_fold(Seq::<u8>::empty(), done, steps) == Ok::<
            ServiceErrorFields,
            MmsError,
        >(done));
    }
}

/// The content of a ConfirmedError PDU: the invoke id, then the error.
pub open spec fn confirmed_error_content(invoke_id: u32, e: ServiceErrorView) -> Seq<u8> {
    ber::tlv(0x80, integer::unsigned_octets(invoke_id as u64)) + ber::tlv(0xa2, e.content())
}

/// Builds a complete ConfirmedError PDU, outer `0xa2 <len>` included.
///
/// Wire format:
///
/// ```text
/// 0xa2 <len>            -- confirmedErrorPdu [2] IMPLICIT SEQUENCE
///   0x80 <len> <id>     -- invokeID [0] IMPLICIT Unsigned32, minimal-length big-endian
///   0xa2 <len>          -- serviceError [2] IMPLICIT ServiceError
///     0xa0 0x03         -- errorClass [0] EXPLICIT (CHOICE wrapper)
///       0x8X 0x01 <c>   -- access [7] / vmd-state [0] / ... IMPLICIT INTEGER
///     (0x81 ... )       -- additionalCode [1] IMPLICIT INTEGER, OPTIONAL
///     (0x82 ... )       -- additionalDescription [2] IMPLICIT VisibleString, OPTIONAL
/// ```
pub fn encode_confirmed_error_pdu(invoke_id: u32, service_error: &ServiceError, buf: &mut BytesMut)
    requires
        buffer::contents(*old(buf)).len() + ber::tlv(
            0xa2,
            confirmed_error_content(invoke_id, service_error@),
        ).len() <= isize::MAX,
    ensures
        buffer::contents(*final(buf)) == buffer::contents(*old(buf)) + ber::tlv(
            0xa2,
            confirmed_error_content(invoke_id, service_error@),
        ),
{
    let mut body: BytesMut = BytesMut::new();
    service_error.encode_inner(&mut body);
    assert(buffer::contents(body) =~= service_error@.content());
    let mut inner: BytesMut = BytesMut::new();
    put_tlv(0x80, &encode_unsigned_int_minimal(invoke_id as u64), &mut inner);
    put_tlv(0xa2, &body, &mut inner);
    assert(buffer::contents(inner) =~= confirmed_error_content(invoke_id, service_error@));
    put_tlv(0xa2, &inner, buf);
}

} // verus!
