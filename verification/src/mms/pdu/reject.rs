//! RejectPDU encoding and decoding.
//!
//! ## Wire format
//!
//! ```text
//! 0xa4 <total_len>               -- [4] IMPLICIT SEQUENCE, constructed
//!   [0x80 <invokeId_len> <...>]  -- originalInvokeID [0] OPTIONAL
//!   0x8<N> 0x01 <reason>         -- rejectReason, where N is the rejectType 1..11
//! ```
//!
//! ## Encoding and decoding rules
//!
//! - The encoder always writes a one-byte rejectReason.
//! - The decoder tolerates a multi-byte BER INTEGER; a value outside the defined
//!   range is clamped to the alternative with value 0.
//! - The NULL-bodied tags 0x86, 0x87 and 0x88 carry no INTEGER, so the decoder
//!   returns `CancelRequest`, `CancelResponse` or `CancelError` without decoding one.
//! - A PDU carrying no rejectReason tag in the range 0x81 to 0x8b returns
//!   `MmsError::InvalidPdu` rather than an unspecified reason.

use bytes::BytesMut;
use vstd::prelude::*;

use crate::asn1;
use crate::buffer;
use crate::mms::error::MmsError;
use crate::mms::pdu::ber;
use crate::mms::pdu::ber::{put_tlv, take_content, take_element, Tlv};
use crate::mms::pdu::integer;
use crate::mms::pdu::integer::{decode_signed_i32, decode_u32_from_bytes, uint_minimal};

verus! {

broadcast use ber::group_element_sizes;

/// An MMS RejectPDU.
#[derive(Debug, Clone, PartialEq, Eq)]
pub struct RejectPdu {
    /// originalInvokeID `[0]` OPTIONAL, encoded as `0x80 <len> <big-endian u32>`.
    pub invoke_id: Option<u32>,
    /// The rejectReason CHOICE, tags 0x81 to 0x8b.
    pub reason: RejectReason,
}

/// The rejectReason CHOICE, whose alternatives are numbered 1 to 11.
///
/// The Cancel alternatives carry no value; every other one carries a sub-enum.
#[derive(Debug, Clone, PartialEq, Eq)]
pub enum RejectReason {
    /// rejectType 1, tag 0x81.
    ConfirmedRequest(ConfirmedRequestRejectReason),
    /// rejectType 2, tag 0x82.
    ConfirmedResponse(ConfirmedResponseRejectReason),
    /// rejectType 3, tag 0x83.
    ConfirmedError(ConfirmedErrorRejectReason),
    /// rejectType 4, tag 0x84.
    UnconfirmedPdu(UnconfirmedPduRejectReason),
    /// rejectType 5, tag 0x85.
    PduError(PduErrorRejectReason),
    /// rejectType 6, tag 0x86, with a NULL body.
    CancelRequest,
    /// rejectType 7, tag 0x87, with a NULL body.
    CancelResponse,
    /// rejectType 8, tag 0x88, with a NULL body.
    CancelError,
    /// rejectType 9, tag 0x89.
    ConcludeRequest(ConcludeRequestRejectReason),
    /// rejectType 10, tag 0x8a.
    ConcludeResponse(ConcludeResponseRejectReason),
    /// rejectType 11, tag 0x8b.
    ConcludeError(ConcludeErrorRejectReason),
}

/// rejectReason values for confirmedRequest, 0 to 9, where 7 is not defined.
#[derive(Debug, Clone, PartialEq, Eq)]
pub enum ConfirmedRequestRejectReason {
    /// Value 0: no more specific reason applies.
    Other,
    /// Value 1: the service named in the request is not recognized.
    UnrecognizedService,
    /// Value 2: a modifier in the request is not recognized.
    UnrecognizedModifier,
    /// Value 3: the invokeID is invalid, for instance because it is already in use.
    InvalidInvokeId,
    /// Value 4: a service argument is invalid.
    InvalidArgument,
    /// Value 5: a modifier is invalid.
    InvalidModifier,
    /// Value 6: the peer has more requests outstanding than were negotiated.
    MaxServOutstandingExceeded,
    /// Value 8: the request nests too deeply; numbering resumes at 8.
    MaxRecursionExceeded,
    /// Value 9: an argument value lies outside its permitted range.
    ValueOutOfRange,
}

impl ConfirmedRequestRejectReason {
    /// The value of the reason on the wire.
    pub open spec fn value(self) -> u8 {
        match self {
            ConfirmedRequestRejectReason::Other => 0,
            ConfirmedRequestRejectReason::UnrecognizedService => 1,
            ConfirmedRequestRejectReason::UnrecognizedModifier => 2,
            ConfirmedRequestRejectReason::InvalidInvokeId => 3,
            ConfirmedRequestRejectReason::InvalidArgument => 4,
            ConfirmedRequestRejectReason::InvalidModifier => 5,
            ConfirmedRequestRejectReason::MaxServOutstandingExceeded => 6,
            ConfirmedRequestRejectReason::MaxRecursionExceeded => 8,
            ConfirmedRequestRejectReason::ValueOutOfRange => 9,
        }
    }

    /// The reason with this value; `Other` where no reason has it.
    pub open spec fn of_value(v: int) -> Self {
        if v == 1 {
            ConfirmedRequestRejectReason::UnrecognizedService
        } else if v == 2 {
            ConfirmedRequestRejectReason::UnrecognizedModifier
        } else if v == 3 {
            ConfirmedRequestRejectReason::InvalidInvokeId
        } else if v == 4 {
            ConfirmedRequestRejectReason::InvalidArgument
        } else if v == 5 {
            ConfirmedRequestRejectReason::InvalidModifier
        } else if v == 6 {
            ConfirmedRequestRejectReason::MaxServOutstandingExceeded
        } else if v == 8 {
            ConfirmedRequestRejectReason::MaxRecursionExceeded
        } else if v == 9 {
            ConfirmedRequestRejectReason::ValueOutOfRange
        } else {
            ConfirmedRequestRejectReason::Other
        }
    }

    fn from_i32(v: i32) -> (r: Self)
        ensures
            r == Self::of_value(v as int),
    {
        match v {
            1 => ConfirmedRequestRejectReason::UnrecognizedService,
            2 => ConfirmedRequestRejectReason::UnrecognizedModifier,
            3 => ConfirmedRequestRejectReason::InvalidInvokeId,
            4 => ConfirmedRequestRejectReason::InvalidArgument,
            5 => ConfirmedRequestRejectReason::InvalidModifier,
            6 => ConfirmedRequestRejectReason::MaxServOutstandingExceeded,
            8 => ConfirmedRequestRejectReason::MaxRecursionExceeded,
            9 => ConfirmedRequestRejectReason::ValueOutOfRange,
            _ => ConfirmedRequestRejectReason::Other,
        }
    }

    fn as_u8(&self) -> (r: u8)
        ensures
            r == self.value(),
    {
        match self {
            ConfirmedRequestRejectReason::Other => 0,
            ConfirmedRequestRejectReason::UnrecognizedService => 1,
            ConfirmedRequestRejectReason::UnrecognizedModifier => 2,
            ConfirmedRequestRejectReason::InvalidInvokeId => 3,
            ConfirmedRequestRejectReason::InvalidArgument => 4,
            ConfirmedRequestRejectReason::InvalidModifier => 5,
            ConfirmedRequestRejectReason::MaxServOutstandingExceeded => 6,
            ConfirmedRequestRejectReason::MaxRecursionExceeded => 8,
            ConfirmedRequestRejectReason::ValueOutOfRange => 9,
        }
    }
}

/// rejectReason values for confirmedResponse, 0 to 6, where 4 is not defined.
#[derive(Debug, Clone, PartialEq, Eq)]
pub enum ConfirmedResponseRejectReason {
    /// Value 0: no more specific reason applies.
    Other,
    /// Value 1: the service named in the response is not recognized.
    UnrecognizedService,
    /// Value 2: the invokeID does not match an outstanding request.
    InvalidInvokeId,
    /// Value 3: the result field is invalid.
    InvalidResult,
    /// Value 5: the response nests too deeply; numbering resumes at 5.
    MaxRecursionExceeded,
    /// Value 6: a result value lies outside its permitted range.
    ValueOutOfRange,
}

impl ConfirmedResponseRejectReason {
    /// The value of the reason on the wire.
    pub open spec fn value(self) -> u8 {
        match self {
            ConfirmedResponseRejectReason::Other => 0,
            ConfirmedResponseRejectReason::UnrecognizedService => 1,
            ConfirmedResponseRejectReason::InvalidInvokeId => 2,
            ConfirmedResponseRejectReason::InvalidResult => 3,
            ConfirmedResponseRejectReason::MaxRecursionExceeded => 5,
            ConfirmedResponseRejectReason::ValueOutOfRange => 6,
        }
    }

    /// The reason with this value; `Other` where no reason has it.
    pub open spec fn of_value(v: int) -> Self {
        if v == 1 {
            ConfirmedResponseRejectReason::UnrecognizedService
        } else if v == 2 {
            ConfirmedResponseRejectReason::InvalidInvokeId
        } else if v == 3 {
            ConfirmedResponseRejectReason::InvalidResult
        } else if v == 5 {
            ConfirmedResponseRejectReason::MaxRecursionExceeded
        } else if v == 6 {
            ConfirmedResponseRejectReason::ValueOutOfRange
        } else {
            ConfirmedResponseRejectReason::Other
        }
    }

    fn from_i32(v: i32) -> (r: Self)
        ensures
            r == Self::of_value(v as int),
    {
        match v {
            1 => ConfirmedResponseRejectReason::UnrecognizedService,
            2 => ConfirmedResponseRejectReason::InvalidInvokeId,
            3 => ConfirmedResponseRejectReason::InvalidResult,
            5 => ConfirmedResponseRejectReason::MaxRecursionExceeded,
            6 => ConfirmedResponseRejectReason::ValueOutOfRange,
            _ => ConfirmedResponseRejectReason::Other,
        }
    }

    fn as_u8(&self) -> (r: u8)
        ensures
            r == self.value(),
    {
        match self {
            ConfirmedResponseRejectReason::Other => 0,
            ConfirmedResponseRejectReason::UnrecognizedService => 1,
            ConfirmedResponseRejectReason::InvalidInvokeId => 2,
            ConfirmedResponseRejectReason::InvalidResult => 3,
            ConfirmedResponseRejectReason::MaxRecursionExceeded => 5,
            ConfirmedResponseRejectReason::ValueOutOfRange => 6,
        }
    }
}

/// rejectReason values for confirmedError, 0 to 4.
#[derive(Debug, Clone, PartialEq, Eq)]
pub enum ConfirmedErrorRejectReason {
    /// Value 0: no more specific reason applies.
    Other,
    /// Value 1: the service named in the error is not recognized.
    UnrecognizedService,
    /// Value 2: the invokeID does not match an outstanding request.
    InvalidInvokeId,
    /// Value 3: the serviceError field is invalid.
    InvalidServiceError,
    /// Value 4: a value in the error lies outside its permitted range.
    ValueOutOfRange,
}

impl ConfirmedErrorRejectReason {
    /// The value of the reason on the wire.
    pub open spec fn value(self) -> u8 {
        match self {
            ConfirmedErrorRejectReason::Other => 0,
            ConfirmedErrorRejectReason::UnrecognizedService => 1,
            ConfirmedErrorRejectReason::InvalidInvokeId => 2,
            ConfirmedErrorRejectReason::InvalidServiceError => 3,
            ConfirmedErrorRejectReason::ValueOutOfRange => 4,
        }
    }

    /// The reason with this value; `Other` where no reason has it.
    pub open spec fn of_value(v: int) -> Self {
        if v == 1 {
            ConfirmedErrorRejectReason::UnrecognizedService
        } else if v == 2 {
            ConfirmedErrorRejectReason::InvalidInvokeId
        } else if v == 3 {
            ConfirmedErrorRejectReason::InvalidServiceError
        } else if v == 4 {
            ConfirmedErrorRejectReason::ValueOutOfRange
        } else {
            ConfirmedErrorRejectReason::Other
        }
    }

    fn from_i32(v: i32) -> (r: Self)
        ensures
            r == Self::of_value(v as int),
    {
        match v {
            1 => ConfirmedErrorRejectReason::UnrecognizedService,
            2 => ConfirmedErrorRejectReason::InvalidInvokeId,
            3 => ConfirmedErrorRejectReason::InvalidServiceError,
            4 => ConfirmedErrorRejectReason::ValueOutOfRange,
            _ => ConfirmedErrorRejectReason::Other,
        }
    }

    fn as_u8(&self) -> (r: u8)
        ensures
            r == self.value(),
    {
        match self {
            ConfirmedErrorRejectReason::Other => 0,
            ConfirmedErrorRejectReason::UnrecognizedService => 1,
            ConfirmedErrorRejectReason::InvalidInvokeId => 2,
            ConfirmedErrorRejectReason::InvalidServiceError => 3,
            ConfirmedErrorRejectReason::ValueOutOfRange => 4,
        }
    }
}

/// rejectReason values for unconfirmedPDU, 0 to 4.
#[derive(Debug, Clone, PartialEq, Eq)]
pub enum UnconfirmedPduRejectReason {
    /// Value 0: no more specific reason applies.
    Other,
    /// Value 1: the service named in the unconfirmed PDU is not recognized.
    UnrecognizedService,
    /// Value 2: a service argument is invalid.
    InvalidArgument,
    /// Value 3: The PDU nests more deeply than the negotiated limit allows.
    MaxRecursionExceeded,
    /// Value 4: an argument value lies outside its permitted range.
    ValueOutOfRange,
}

impl UnconfirmedPduRejectReason {
    /// The value of the reason on the wire.
    pub open spec fn value(self) -> u8 {
        match self {
            UnconfirmedPduRejectReason::Other => 0,
            UnconfirmedPduRejectReason::UnrecognizedService => 1,
            UnconfirmedPduRejectReason::InvalidArgument => 2,
            UnconfirmedPduRejectReason::MaxRecursionExceeded => 3,
            UnconfirmedPduRejectReason::ValueOutOfRange => 4,
        }
    }

    /// The reason with this value; `Other` where no reason has it.
    pub open spec fn of_value(v: int) -> Self {
        if v == 1 {
            UnconfirmedPduRejectReason::UnrecognizedService
        } else if v == 2 {
            UnconfirmedPduRejectReason::InvalidArgument
        } else if v == 3 {
            UnconfirmedPduRejectReason::MaxRecursionExceeded
        } else if v == 4 {
            UnconfirmedPduRejectReason::ValueOutOfRange
        } else {
            UnconfirmedPduRejectReason::Other
        }
    }

    fn from_i32(v: i32) -> (r: Self)
        ensures
            r == Self::of_value(v as int),
    {
        match v {
            1 => UnconfirmedPduRejectReason::UnrecognizedService,
            2 => UnconfirmedPduRejectReason::InvalidArgument,
            3 => UnconfirmedPduRejectReason::MaxRecursionExceeded,
            4 => UnconfirmedPduRejectReason::ValueOutOfRange,
            _ => UnconfirmedPduRejectReason::Other,
        }
    }

    fn as_u8(&self) -> (r: u8)
        ensures
            r == self.value(),
    {
        match self {
            UnconfirmedPduRejectReason::Other => 0,
            UnconfirmedPduRejectReason::UnrecognizedService => 1,
            UnconfirmedPduRejectReason::InvalidArgument => 2,
            UnconfirmedPduRejectReason::MaxRecursionExceeded => 3,
            UnconfirmedPduRejectReason::ValueOutOfRange => 4,
        }
    }
}

/// rejectReason values for pduError, 0 to 2.
#[derive(Debug, Clone, PartialEq, Eq)]
pub enum PduErrorRejectReason {
    /// Value 0: the outermost PDU tag is not recognized.
    UnknownPduType,
    /// Value 1: The PDU is malformed.
    InvalidPdu,
    /// Value 2: The PDU is not legal for the ACSE mapping in use.
    IllegalAcseMapping,
}

impl PduErrorRejectReason {
    /// The value of the reason on the wire.
    pub open spec fn value(self) -> u8 {
        match self {
            PduErrorRejectReason::UnknownPduType => 0,
            PduErrorRejectReason::InvalidPdu => 1,
            PduErrorRejectReason::IllegalAcseMapping => 2,
        }
    }

    /// The reason with this value; `UnknownPduType` where no reason has it.
    pub open spec fn of_value(v: int) -> Self {
        if v == 1 {
            PduErrorRejectReason::InvalidPdu
        } else if v == 2 {
            PduErrorRejectReason::IllegalAcseMapping
        } else {
            PduErrorRejectReason::UnknownPduType
        }
    }

    fn from_i32(v: i32) -> (r: Self)
        ensures
            r == Self::of_value(v as int),
    {
        match v {
            1 => PduErrorRejectReason::InvalidPdu,
            2 => PduErrorRejectReason::IllegalAcseMapping,
            _ => PduErrorRejectReason::UnknownPduType,
        }
    }

    fn as_u8(&self) -> (r: u8)
        ensures
            r == self.value(),
    {
        match self {
            PduErrorRejectReason::UnknownPduType => 0,
            PduErrorRejectReason::InvalidPdu => 1,
            PduErrorRejectReason::IllegalAcseMapping => 2,
        }
    }
}

/// rejectReason values for concludeRequestPDU, 0 to 1.
#[derive(Debug, Clone, PartialEq, Eq)]
pub enum ConcludeRequestRejectReason {
    /// Value 0: no more specific reason applies.
    Other,
    /// Value 1: the conclude request carries an invalid argument.
    InvalidArgument,
}

impl ConcludeRequestRejectReason {
    /// The value of the reason on the wire.
    pub open spec fn value(self) -> u8 {
        match self {
            ConcludeRequestRejectReason::Other => 0,
            ConcludeRequestRejectReason::InvalidArgument => 1,
        }
    }

    /// The reason with this value; `Other` where no reason has it.
    pub open spec fn of_value(v: int) -> Self {
        if v == 1 {
            ConcludeRequestRejectReason::InvalidArgument
        } else {
            ConcludeRequestRejectReason::Other
        }
    }

    fn from_i32(v: i32) -> (r: Self)
        ensures
            r == Self::of_value(v as int),
    {
        match v {
            1 => ConcludeRequestRejectReason::InvalidArgument,
            _ => ConcludeRequestRejectReason::Other,
        }
    }

    fn as_u8(&self) -> (r: u8)
        ensures
            r == self.value(),
    {
        match self {
            ConcludeRequestRejectReason::Other => 0,
            ConcludeRequestRejectReason::InvalidArgument => 1,
        }
    }
}

/// rejectReason values for concludeResponsePDU, 0 to 1.
#[derive(Debug, Clone, PartialEq, Eq)]
pub enum ConcludeResponseRejectReason {
    /// Value 0: no more specific reason applies.
    Other,
    /// Value 1: the conclude response carries an invalid result.
    InvalidResult,
}

impl ConcludeResponseRejectReason {
    /// The value of the reason on the wire.
    pub open spec fn value(self) -> u8 {
        match self {
            ConcludeResponseRejectReason::Other => 0,
            ConcludeResponseRejectReason::InvalidResult => 1,
        }
    }

    /// The reason with this value; `Other` where no reason has it.
    pub open spec fn of_value(v: int) -> Self {
        if v == 1 {
            ConcludeResponseRejectReason::InvalidResult
        } else {
            ConcludeResponseRejectReason::Other
        }
    }

    fn from_i32(v: i32) -> (r: Self)
        ensures
            r == Self::of_value(v as int),
    {
        match v {
            1 => ConcludeResponseRejectReason::InvalidResult,
            _ => ConcludeResponseRejectReason::Other,
        }
    }

    fn as_u8(&self) -> (r: u8)
        ensures
            r == self.value(),
    {
        match self {
            ConcludeResponseRejectReason::Other => 0,
            ConcludeResponseRejectReason::InvalidResult => 1,
        }
    }
}

/// rejectReason values for concludeErrorPDU, 0 to 2.
///
/// Tag `0x8b` inside a Reject PDU means concludeErrorPDU, rejectType 11, while the
/// same tag at the top level of an MmsPdu means ConcludeRequest. The decoder
/// identifies a Reject by its outer `0xa4` before reading any inner tag.
#[derive(Debug, Clone, PartialEq, Eq)]
pub enum ConcludeErrorRejectReason {
    /// Value 0: no more specific reason applies.
    Other,
    /// Value 1: the conclude error carries an invalid serviceError.
    InvalidServiceError,
    /// Value 2: a value in the conclude error lies outside its permitted range.
    ValueOutOfRange,
}

impl ConcludeErrorRejectReason {
    /// The value of the reason on the wire.
    pub open spec fn value(self) -> u8 {
        match self {
            ConcludeErrorRejectReason::Other => 0,
            ConcludeErrorRejectReason::InvalidServiceError => 1,
            ConcludeErrorRejectReason::ValueOutOfRange => 2,
        }
    }

    /// The reason with this value; `Other` where no reason has it.
    pub open spec fn of_value(v: int) -> Self {
        if v == 1 {
            ConcludeErrorRejectReason::InvalidServiceError
        } else if v == 2 {
            ConcludeErrorRejectReason::ValueOutOfRange
        } else {
            ConcludeErrorRejectReason::Other
        }
    }

    fn from_i32(v: i32) -> (r: Self)
        ensures
            r == Self::of_value(v as int),
    {
        match v {
            1 => ConcludeErrorRejectReason::InvalidServiceError,
            2 => ConcludeErrorRejectReason::ValueOutOfRange,
            _ => ConcludeErrorRejectReason::Other,
        }
    }

    fn as_u8(&self) -> (r: u8)
        ensures
            r == self.value(),
    {
        match self {
            ConcludeErrorRejectReason::Other => 0,
            ConcludeErrorRejectReason::InvalidServiceError => 1,
            ConcludeErrorRejectReason::ValueOutOfRange => 2,
        }
    }
}

/// The last four octets, or all of fewer.
pub open spec fn last_four(s: Seq<u8>) -> Seq<u8> {
    if s.len() > 4 {
        s.skip(s.len() - 4)
    } else {
        s
    }
}

/// What has been read of a RejectPDU: the invoke id and the reason.
pub type RejectFields = (Option<u32>, Option<RejectReason>);

impl RejectReason {
    /// The rejectType, 1 to 11.
    pub open spec fn kind(self) -> u8 {
        match self {
            RejectReason::ConfirmedRequest(_) => 1,
            RejectReason::ConfirmedResponse(_) => 2,
            RejectReason::ConfirmedError(_) => 3,
            RejectReason::UnconfirmedPdu(_) => 4,
            RejectReason::PduError(_) => 5,
            RejectReason::CancelRequest => 6,
            RejectReason::CancelResponse => 7,
            RejectReason::CancelError => 8,
            RejectReason::ConcludeRequest(_) => 9,
            RejectReason::ConcludeResponse(_) => 10,
            RejectReason::ConcludeError(_) => 11,
        }
    }

    /// The value on the wire; a NULL body has none.
    pub open spec fn body(self) -> Seq<u8> {
        match self {
            RejectReason::ConfirmedRequest(r) => seq![r.value()],
            RejectReason::ConfirmedResponse(r) => seq![r.value()],
            RejectReason::ConfirmedError(r) => seq![r.value()],
            RejectReason::UnconfirmedPdu(r) => seq![r.value()],
            RejectReason::PduError(r) => seq![r.value()],
            RejectReason::CancelRequest => Seq::empty(),
            RejectReason::CancelResponse => Seq::empty(),
            RejectReason::CancelError => Seq::empty(),
            RejectReason::ConcludeRequest(r) => seq![r.value()],
            RejectReason::ConcludeResponse(r) => seq![r.value()],
            RejectReason::ConcludeError(r) => seq![r.value()],
        }
    }

    /// The reason that an element with this tag and content is, where the tag is that of
    /// a reason.
    pub open spec fn of_element(tag: u8, val: Seq<u8>) -> Option<RejectReason> {
        let v = integer::sint(last_four(val));
        if tag == 0x81 {
            Some(RejectReason::ConfirmedRequest(ConfirmedRequestRejectReason::of_value(v)))
        } else if tag == 0x82 {
            Some(RejectReason::ConfirmedResponse(ConfirmedResponseRejectReason::of_value(v)))
        } else if tag == 0x83 {
            Some(RejectReason::ConfirmedError(ConfirmedErrorRejectReason::of_value(v)))
        } else if tag == 0x84 {
            Some(RejectReason::UnconfirmedPdu(UnconfirmedPduRejectReason::of_value(v)))
        } else if tag == 0x85 {
            Some(RejectReason::PduError(PduErrorRejectReason::of_value(v)))
        } else if tag == 0x86 {
            Some(RejectReason::CancelRequest)
        } else if tag == 0x87 {
            Some(RejectReason::CancelResponse)
        } else if tag == 0x88 {
            Some(RejectReason::CancelError)
        } else if tag == 0x89 {
            Some(RejectReason::ConcludeRequest(ConcludeRequestRejectReason::of_value(v)))
        } else if tag == 0x8a {
            Some(RejectReason::ConcludeResponse(ConcludeResponseRejectReason::of_value(v)))
        } else if tag == 0x8b {
            Some(RejectReason::ConcludeError(ConcludeErrorRejectReason::of_value(v)))
        } else {
            None
        }
    }

    /// Returns the rejectType, 1 to 11, which the wire tag encodes as `0x80 + N`.
    pub fn reject_type(&self) -> (n: u8)
        ensures
            n == self.kind(),
    {
        match self {
            RejectReason::ConfirmedRequest(_) => 1,
            RejectReason::ConfirmedResponse(_) => 2,
            RejectReason::ConfirmedError(_) => 3,
            RejectReason::UnconfirmedPdu(_) => 4,
            RejectReason::PduError(_) => 5,
            RejectReason::CancelRequest => 6,
            RejectReason::CancelResponse => 7,
            RejectReason::CancelError => 8,
            RejectReason::ConcludeRequest(_) => 9,
            RejectReason::ConcludeResponse(_) => 10,
            RejectReason::ConcludeError(_) => 11,
        }
    }

    /// Returns the rejectReason value to encode; the NULL-bodied variants return 0.
    fn reason_value(&self) -> (v: u8)
        ensures
            v == (if self.body().len() == 0 {
                0
            } else {
                self.body()[0]
            }),
    {
        match self {
            RejectReason::ConfirmedRequest(r) => r.as_u8(),
            RejectReason::ConfirmedResponse(r) => r.as_u8(),
            RejectReason::ConfirmedError(r) => r.as_u8(),
            RejectReason::UnconfirmedPdu(r) => r.as_u8(),
            RejectReason::PduError(r) => r.as_u8(),
            RejectReason::CancelRequest => 0,
            RejectReason::CancelResponse => 0,
            RejectReason::CancelError => 0,
            RejectReason::ConcludeRequest(r) => r.as_u8(),
            RejectReason::ConcludeResponse(r) => r.as_u8(),
            RejectReason::ConcludeError(r) => r.as_u8(),
        }
    }

    /// Returns whether the variant has a NULL body, so it carries only a tag and a
    /// length of 0.
    fn is_null_type(&self) -> (b: bool)
        ensures
            b == (self.body().len() == 0),
    {
        match self {
            RejectReason::CancelRequest => true,
            RejectReason::CancelResponse => true,
            RejectReason::CancelError => true,
            _ => false,
        }
    }

    /// Reads the reason of an element, where its tag is that of a reason.
    fn decode_element(tag: u8, val: &[u8]) -> (r: Option<RejectReason>)
        ensures
            r == RejectReason::of_element(tag, val@),
    {
        let v: i32 = decode_int32(val);
        match tag {
            0x81 => Some(
                RejectReason::ConfirmedRequest(ConfirmedRequestRejectReason::from_i32(v)),
            ),
            0x82 => Some(
                RejectReason::ConfirmedResponse(ConfirmedResponseRejectReason::from_i32(v)),
            ),
            0x83 => Some(RejectReason::ConfirmedError(ConfirmedErrorRejectReason::from_i32(v))),
            0x84 => Some(RejectReason::UnconfirmedPdu(UnconfirmedPduRejectReason::from_i32(v))),
            0x85 => Some(RejectReason::PduError(PduErrorRejectReason::from_i32(v))),
            // These three carry a NULL body, so no INTEGER is read from it.
            0x86 => Some(RejectReason::CancelRequest),
            0x87 => Some(RejectReason::CancelResponse),
            0x88 => Some(RejectReason::CancelError),
            0x89 => Some(RejectReason::ConcludeRequest(ConcludeRequestRejectReason::from_i32(v))),
            0x8a => Some(
                RejectReason::ConcludeResponse(ConcludeResponseRejectReason::from_i32(v)),
            ),
            0x8b => Some(RejectReason::ConcludeError(ConcludeErrorRejectReason::from_i32(v))),
            _ => None,
        }
    }
}

/// One field of a RejectPDU; a later field replaces an earlier one, and a field that is
/// neither the invoke id nor a reason is skipped.
pub open spec fn reject_field(acc: RejectFields, tag: u8, val: Seq<u8>) -> RejectFields {
    if tag == 0x80 {
        (Some(asn1::uint(last_four(val)) as u32), acc.1)
    } else {
        match RejectReason::of_element(tag, val) {
            Some(reason) => (acc.0, Some(reason)),
            None => acc,
        }
    }
}

/// `reject_field` as a step over the elements.
pub open spec fn reject_fields() -> spec_fn(RejectFields, u8, Seq<u8>) -> Result<
    RejectFields,
    MmsError,
> {
    |acc: RejectFields, tag: u8, val: Seq<u8>| Ok(reject_field(acc, tag, val))
}

impl RejectPdu {
    /// The content of the encoding: the invoke id, where there is one, and the reason.
    pub open spec fn content(self) -> Seq<u8> {
        let reason = ber::tlv((0x80 + self.reason.kind()) as u8, self.reason.body());
        match self.invoke_id {
            Some(id) => ber::tlv(0x80, integer::uint_octets(id as nat)) + reason,
            None => reason,
        }
    }

    /// The encoding of the PDU.
    pub open spec fn octets(self) -> Seq<u8> {
        ber::tlv(0xa4, self.content())
    }

    /// The RejectPDU at the start of `s`.
    pub open spec fn parse(s: Seq<u8>) -> Result<RejectPdu, MmsError> {
        match ber::tagged_at(s, 0xa4) {
            Err(e) => Err(e),
            Ok(e) => match ber::fold(e.val, (None, None), reject_fields()) {
                Err(x) => Err(x),
                Ok((invoke_id, Some(reason))) => Ok(RejectPdu { invoke_id, reason }),
                Ok((_, None)) => Err(MmsError::InvalidPdu),
            },
        }
    }

    /// Encodes the RejectPdu into `buf`, outer `0xa4 <len>` included.
    ///
    /// The rejectReason is always one byte; a NULL-bodied variant encodes as
    /// `0x8<N> 0x00` with an empty body.
    pub fn encode(&self, buf: &mut BytesMut)
        requires
            buffer::contents(*old(buf)).len() + self.octets().len() <= isize::MAX,
        ensures
            buffer::contents(*final(buf)) == buffer::contents(*old(buf)) + self.octets(),
    {
        let mut inner: BytesMut = BytesMut::new();
        if let Some(id) = self.invoke_id {
            put_tlv(0x80, &uint_minimal(id as u64), &mut inner);
        }
        let wire_tag: u8 = 0x80 + self.reason.reject_type();
        if self.reason.is_null_type() {
            let body: [u8; 0] = [];
            assert(body@ =~= self.reason.body());
            put_tlv(wire_tag, &body, &mut inner);
        } else {
            let body: [u8; 1] = [self.reason.reason_value()];
            assert(body@ =~= self.reason.body());
            put_tlv(wire_tag, &body, &mut inner);
        }
        assert(buffer::contents(inner) =~= self.content());
        put_tlv(0xa4, &inner, buf);
    }

    /// Decodes a RejectPdu; `data` starts at the `0xa4` tag byte.
    ///
    /// A PDU carrying no rejectReason tag in the range 0x81 to 0x8b returns
    /// `MmsError::InvalidPdu` rather than an unspecified reason.
    pub fn decode(data: &[u8]) -> (r: Result<Self, MmsError>)
        ensures
            r == RejectPdu::parse(data@),
    {
        let inner: &[u8] = take_content(data, 0xa4)?;
        let mut pos: usize = 0;
        let mut invoke_id: Option<u32> = None;
        let mut parsed_reason: Option<RejectReason> = None;
        let ghost steps = reject_fields();
        assert(inner@.skip(0) =~= inner@);
        while pos < inner.len()
            invariant
                pos <= inner.len(),
                ber::tagged_at(data@, 0xa4) matches Ok(e) && e.val == inner@,
                steps == reject_fields(),
                ber::fold(inner@, (None, None), steps) == ber::fold(
                    inner@.skip(pos as int),
                    (invoke_id, parsed_reason),
                    steps,
                ),
            decreases inner.len() - pos,
        {
            let t: Tlv = take_element(inner, pos)?;
            assert(steps((invoke_id, parsed_reason), t.tag, t.val@) == Ok::<
                RejectFields,
                MmsError,
            >(reject_field((invoke_id, parsed_reason), t.tag, t.val@)));
            if t.tag == 0x80 {
                invoke_id = Some(decode_uint32(t.val));
            } else {
                match RejectReason::decode_element(t.tag, t.val) {
                    Some(reason) => {
                        parsed_reason = Some(reason);
                    },
                    None => {},
                }
            }
            pos = pos + t.size;
        }
        match parsed_reason {
            Some(reason) => Ok(RejectPdu { invoke_id, reason }),
            None => Err(MmsError::InvalidPdu),
        }
    }

    /// The error that the reason stands for.
    pub open spec fn mms_error(self) -> MmsError {
        if self.reason == RejectReason::ConfirmedRequest(
            ConfirmedRequestRejectReason::UnrecognizedService,
        ) {
            MmsError::RejectUnrecognizedService
        } else if self.reason == RejectReason::ConfirmedRequest(
            ConfirmedRequestRejectReason::InvalidArgument,
        ) {
            MmsError::RejectRequestInvalidArgument
        } else if self.reason == RejectReason::PduError(PduErrorRejectReason::UnknownPduType) {
            MmsError::RejectUnknownPduType
        } else if self.reason == RejectReason::PduError(PduErrorRejectReason::InvalidPdu) {
            MmsError::RejectInvalidPdu
        } else {
            MmsError::RejectOther
        }
    }

    /// Maps the reject reason to an `MmsError`.
    ///
    /// Four reasons map to a specific variant; every other one maps to
    /// `MmsError::RejectOther`.
    pub fn to_mms_error(&self) -> (e: MmsError)
        ensures
            e == self.mms_error(),
    {
        match &self.reason {
            RejectReason::ConfirmedRequest(
                ConfirmedRequestRejectReason::UnrecognizedService,
            ) => MmsError::RejectUnrecognizedService,
            RejectReason::ConfirmedRequest(
                ConfirmedRequestRejectReason::InvalidArgument,
            ) => MmsError::RejectRequestInvalidArgument,
            RejectReason::PduError(
                PduErrorRejectReason::UnknownPduType,
            ) => MmsError::RejectUnknownPduType,
            RejectReason::PduError(PduErrorRejectReason::InvalidPdu) => MmsError::RejectInvalidPdu,
            _ => MmsError::RejectOther,
        }
    }
}

/// Decodes a BER `u32`: an empty slice yields 0, and only the last 4 bytes are used.
fn decode_uint32(v: &[u8]) -> (r: u32)
    ensures
        r == asn1::uint(last_four(v@)),
{
    if v.len() == 0 {
        return 0;
    }
    let start: usize = if v.len() > 4 {
        v.len() - 4
    } else {
        0
    };
    let tail: &[u8] = &v[start..v.len()];
    assert(tail@ =~= last_four(v@));
    match decode_u32_from_bytes(tail) {
        Ok(x) => x,
        Err(_) => 0,
    }
}

/// Decodes a BER INTEGER into an `i32`.
///
/// Lengths of 1 to 4 bytes are accepted, an empty slice yields 0, and a longer slice
/// contributes only its last 4 bytes.
fn decode_int32(v: &[u8]) -> (r: i32)
    ensures
        r == integer::sint(last_four(v@)),
{
    if v.len() == 0 {
        return 0;
    }
    let start: usize = if v.len() > 4 {
        v.len() - 4
    } else {
        0
    };
    let tail: &[u8] = &v[start..v.len()];
    assert(tail@ =~= last_four(v@));
    match decode_signed_i32(tail) {
        Ok(x) => x,
        Err(_) => 0,
    }
}

/// A reason is read back from its tag and its body.
proof fn lemma_reason_round_trip(reason: RejectReason)
    ensures
        RejectReason::of_element((0x80 + reason.kind()) as u8, reason.body()) == Some(reason),
{
    let body = reason.body();
    if body.len() == 1 {
        reveal_with_fuel(asn1::uint, 2);
        assert(body.drop_last() =~= Seq::empty());
        assert(integer::sint(last_four(body)) == body[0]);
    }
}

/// A RejectPDU decodes to itself, whatever follows it.
pub proof fn law_reject_round_trip(pdu: RejectPdu, rest: Seq<u8>)
    ensures
        RejectPdu::parse(pdu.octets() + rest) == Ok::<RejectPdu, MmsError>(pdu),
{
    let steps = reject_fields();
    let tag = (0x80 + pdu.reason.kind()) as u8;
    let body = pdu.reason.body();
    let start: RejectFields = (None, None);
    lemma_reason_round_trip(pdu.reason);
    if let Some(id) = pdu.invoke_id {
        let octets = integer::uint_octets(id as nat);
        integer::law_uint_round_trip(id as nat);
        integer::law_uint32_round_trip(id);
        integer::lemma_pow256_values();
        integer::lemma_uint_bound(last_four(octets));
        let identified: RejectFields = (Some(id), None);
        assert(steps(start, 0x80, octets) == Ok::<RejectFields, MmsError>(identified));
        ber::lemma_fold_tlv(0x80, octets, ber::tlv(tag, body), start, steps);
        ber::lemma_fold_last(tag, body, identified, steps);
    } else {
        ber::lemma_fold_last(tag, body, start, steps);
    }
    ber::law_element_round_trip(0xa4, pdu.content(), rest);
}

/// A reason value that is not defined for its alternative is read as the reason with
/// value 0, so a decoded reason always has a defined value, and re-encoding keeps it.
pub proof fn law_reason_clamped(tag: u8, val: Seq<u8>)
    ensures
        RejectReason::of_element(tag, val) matches Some(reason) ==> {
            &&& tag == 0x80 + reason.kind()
            &&& (reason.body().len() == 1 ==> reason.body()[0] == integer::sint(last_four(val))
                || reason.body()[0] == 0)
            &&& RejectReason::of_element(tag, reason.body()) == Some(reason)
        },
{
    if let Some(reason) = RejectReason::of_element(tag, val) {
        lemma_reason_round_trip(reason);
    }
}

} // verus!
