//! Results of access: DataAccessError, AccessResult and WriteOutcome.

use bytes::BytesMut;
use vstd::prelude::*;

use crate::asn1;
use crate::asn1::{decode_length, MAX_DATA_NESTING_DEPTH};
use crate::buffer;
use crate::mms::error;
use crate::mms::error::MmsError;
use crate::mms::pdu::ber;
use crate::mms::pdu::ber::{put_tlv, take_element, Tlv};
use crate::mms::pdu::data;
use crate::mms::pdu::data::{MmsData, MmsDataView};

verus! {

broadcast use ber::group_element_sizes;

/// MMS DataAccessError.
///
/// The standard codes 0 to 11, each encoded as a single-byte BER INTEGER.
#[derive(Debug, Clone, Copy, PartialEq, Eq)]
pub enum DataAccessError {
    /// Code 0: the object has been invalidated.
    ObjectInvalidated,
    /// Code 1: a hardware fault prevented the access.
    HardwareFault,
    /// Code 2: the object is temporarily unavailable.
    TemporarilyUnavailable,
    /// Code 3: access to the object was denied.
    ObjectAccessDenied,
    /// Code 4: the object is not defined.
    ObjectUndefined,
    /// Code 5: the address is invalid.
    InvalidAddress,
    /// Code 6: the type is not supported.
    TypeUnsupported,
    /// Code 7: the value type does not match the type of the object.
    TypeInconsistent,
    /// Code 8: an object attribute is inconsistent with the request.
    ObjectAttributeInconsistent,
    /// Code 9: the requested kind of access is not supported for this object.
    ObjectAccessUnsupported,
    /// Code 10: the object does not exist.
    ObjectNonExistent,
    /// Code 11: the value is invalid for this object.
    ObjectValueInvalid,
}

impl DataAccessError {
    /// The code of the error on the wire.
    pub open spec fn wire_code(self) -> u8 {
        match self {
            DataAccessError::ObjectInvalidated => 0,
            DataAccessError::HardwareFault => 1,
            DataAccessError::TemporarilyUnavailable => 2,
            DataAccessError::ObjectAccessDenied => 3,
            DataAccessError::ObjectUndefined => 4,
            DataAccessError::InvalidAddress => 5,
            DataAccessError::TypeUnsupported => 6,
            DataAccessError::TypeInconsistent => 7,
            DataAccessError::ObjectAttributeInconsistent => 8,
            DataAccessError::ObjectAccessUnsupported => 9,
            DataAccessError::ObjectNonExistent => 10,
            DataAccessError::ObjectValueInvalid => 11,
        }
    }

    /// The error with this code; a code above 11 has none.
    pub open spec fn of_code(code: u8) -> Result<DataAccessError, MmsError> {
        if code == 0 {
            Ok(DataAccessError::ObjectInvalidated)
        } else if code == 1 {
            Ok(DataAccessError::HardwareFault)
        } else if code == 2 {
            Ok(DataAccessError::TemporarilyUnavailable)
        } else if code == 3 {
            Ok(DataAccessError::ObjectAccessDenied)
        } else if code == 4 {
            Ok(DataAccessError::ObjectUndefined)
        } else if code == 5 {
            Ok(DataAccessError::InvalidAddress)
        } else if code == 6 {
            Ok(DataAccessError::TypeUnsupported)
        } else if code == 7 {
            Ok(DataAccessError::TypeInconsistent)
        } else if code == 8 {
            Ok(DataAccessError::ObjectAttributeInconsistent)
        } else if code == 9 {
            Ok(DataAccessError::ObjectAccessUnsupported)
        } else if code == 10 {
            Ok(DataAccessError::ObjectNonExistent)
        } else if code == 11 {
            Ok(DataAccessError::ObjectValueInvalid)
        } else {
            Err(MmsError::UnknownDataAccessError(code))
        }
    }

    /// Converts a code from the wire; a value above 11 returns an error.
    pub fn from_code(code: u8) -> (r: Result<Self, MmsError>)
        ensures
            r == DataAccessError::of_code(code),
    {
        match code {
            0 => Ok(DataAccessError::ObjectInvalidated),
            1 => Ok(DataAccessError::HardwareFault),
            2 => Ok(DataAccessError::TemporarilyUnavailable),
            3 => Ok(DataAccessError::ObjectAccessDenied),
            4 => Ok(DataAccessError::ObjectUndefined),
            5 => Ok(DataAccessError::InvalidAddress),
            6 => Ok(DataAccessError::TypeUnsupported),
            7 => Ok(DataAccessError::TypeInconsistent),
            8 => Ok(DataAccessError::ObjectAttributeInconsistent),
            9 => Ok(DataAccessError::ObjectAccessUnsupported),
            10 => Ok(DataAccessError::ObjectNonExistent),
            11 => Ok(DataAccessError::ObjectValueInvalid),
            other => Err(MmsError::UnknownDataAccessError(other)),
        }
    }

    /// Returns the INTEGER byte written on the wire.
    pub fn code(self) -> (c: u8)
        ensures
            c == self.wire_code(),
    {
        match self {
            DataAccessError::ObjectInvalidated => 0,
            DataAccessError::HardwareFault => 1,
            DataAccessError::TemporarilyUnavailable => 2,
            DataAccessError::ObjectAccessDenied => 3,
            DataAccessError::ObjectUndefined => 4,
            DataAccessError::InvalidAddress => 5,
            DataAccessError::TypeUnsupported => 6,
            DataAccessError::TypeInconsistent => 7,
            DataAccessError::ObjectAttributeInconsistent => 8,
            DataAccessError::ObjectAccessUnsupported => 9,
            DataAccessError::ObjectNonExistent => 10,
            DataAccessError::ObjectValueInvalid => 11,
        }
    }
}

/// Codes and errors correspond one to one: every error comes back from its code, and
/// every code that has an error comes back from it.
pub proof fn law_access_code_round_trip(e: DataAccessError, code: u8)
    ensures
        DataAccessError::of_code(e.wire_code()) == Ok::<DataAccessError, MmsError>(e),
        DataAccessError::of_code(code) matches Ok(x) ==> x.wire_code() == code,
        DataAccessError::of_code(code) is Ok <==> code <= 11,
{
}

/// The MMS AccessResult CHOICE, one entry of a Read response.
#[derive(Debug, Clone, PartialEq)]
pub enum AccessResult {
    /// A successful read, carrying the value.
    Success(MmsData),
    /// A failed read, carrying an error code as `0x80 <len> <code>`.
    Failure(DataAccessError),
}

/// An AccessResult with its value in view.
#[verifier::ext_equal]
pub enum AccessResultView {
    /// A successful read.
    Success(MmsDataView),
    /// A failed read.
    Failure(DataAccessError),
}

impl View for AccessResult {
    type V = AccessResultView;

    open spec fn view(&self) -> AccessResultView {
        match *self {
            AccessResult::Success(d) => AccessResultView::Success(d@),
            AccessResult::Failure(e) => AccessResultView::Failure(e),
        }
    }
}

impl AccessResultView {
    /// The content of the result: that of the value, or the error code.
    pub open spec fn content(self) -> Seq<u8> {
        match self {
            AccessResultView::Success(d) => d.content(),
            AccessResultView::Failure(e) => seq![e.wire_code()],
        }
    }

    /// The encoding of the result.
    pub open spec fn octets(self) -> Seq<u8> {
        match self {
            AccessResultView::Success(d) => d.octets(),
            AccessResultView::Failure(e) => ber::tlv(0x80, seq![e.wire_code()]),
        }
    }

    /// The result at the start of `s`, and how many octets it takes.
    pub open spec fn parse(s: Seq<u8>) -> Result<(AccessResultView, nat), MmsError> {
        if s.len() > 0 && s[0] == 0x80 {
            match ber::element_at(s) {
                Err(e) => Err(e),
                Ok(e) => if e.val.len() == 0 {
                    Err(MmsError::InvalidLength)
                } else {
                    match DataAccessError::of_code(e.val[0]) {
                        Err(x) => Err(x),
                        Ok(x) => Ok((AccessResultView::Failure(x), e.size)),
                    }
                },
            }
        } else {
            match MmsDataView::parse(s, 0, MAX_DATA_NESTING_DEPTH) {
                Err(e) => Err(e),
                Ok((d, n)) => Ok((AccessResultView::Success(d), n)),
            }
        }
    }

    /// The result can be written and read back: its value nests no deeper than the local
    /// ceiling, and every binary time has one of its two lengths.
    pub open spec fn readable(self) -> bool {
        self matches AccessResultView::Success(d) ==> d.readable(MAX_DATA_NESTING_DEPTH as int)
    }
}

impl AccessResult {
    /// Encodes the AccessResult into `buf`.
    pub fn encode(&self, buf: &mut BytesMut)
        requires
            buffer::contents(*old(buf)).len() + self@.octets().len() <= isize::MAX,
        ensures
            buffer::contents(*final(buf)) == buffer::contents(*old(buf)) + self@.octets(),
    {
        match self {
            AccessResult::Success(d) => d.encode(buf),
            AccessResult::Failure(e) => {
                let body: [u8; 1] = [e.code()];
                assert(body@ =~= seq![e.wire_code()]);
                put_tlv(0x80, &body, buf);
            },
        }
    }

    /// Returns the number of bytes `encode` would write, used for the PDU budget check.
    pub fn estimated_encoded_size(&self) -> (n: usize)
        requires
            self@.octets().len() <= usize::MAX,
        ensures
            n == self@.octets().len(),
    {
        match self {
            AccessResult::Success(d) => d.estimated_encoded_size(),
            AccessResult::Failure(_) => 3,
        }
    }

    /// Decodes an AccessResult; `data` starts at the tag byte. Returns the result and the
    /// number of bytes it takes.
    pub fn decode(data: &[u8]) -> (r: Result<(Self, usize), MmsError>)
        ensures
            ber::agrees_at(r, AccessResultView::parse(data@)),
            r matches Ok((_, n)) ==> 2 <= n <= data.len(),
    {
        if data.len() > 0 && data[0] == 0x80 {
            assert(data@.skip(0) =~= data@);
            let t: Tlv = take_element(data, 0)?;
            if t.val.len() == 0 {
                return Err(MmsError::InvalidLength);
            }
            let e: DataAccessError = DataAccessError::from_code(t.val[0])?;
            Ok((AccessResult::Failure(e), t.size))
        } else {
            let (d, consumed) = MmsData::decode(data)?;
            Ok((AccessResult::Success(d), consumed))
        }
    }
}

/// A result with at most 0xffff octets of content, whose value can be read back, decodes to
/// itself, whatever follows it.
pub proof fn law_access_result_round_trip(a: AccessResultView, rest: Seq<u8>)
    requires
        a.readable(),
        a.content().len() <= 0xffff,
    ensures
        AccessResultView::parse(a.octets() + rest) == Ok::<(AccessResultView, nat), MmsError>(
            (a, a.octets().len()),
        ),
{
    let s = a.octets() + rest;
    match a {
        AccessResultView::Success(d) => {
            data::law_data_round_trip(d, rest, 0, MAX_DATA_NESTING_DEPTH);
            assert(s[0] == d.tag()) by {
                ber::law_element_round_trip(d.tag(), d.content(), rest);
            }
        },
        AccessResultView::Failure(e) => {
            ber::law_element_round_trip(0x80, seq![e.wire_code()], rest);
        },
    }
}

/// The result of writing one item, as carried in an MMS WriteResponse.
///
/// Wire format:
/// - success: `0x81 0x00`, CONTEXT `[1]` primitive with length 0
/// - failure: `0x80 <len> <code>`, CONTEXT `[0]` primitive
#[derive(Debug, Clone, Copy, PartialEq, Eq)]
pub enum WriteOutcome {
    /// The write succeeded, encoded as `0x81 0x00`.
    Success,
    /// The write failed, encoded as `0x80 0x01 <code>`.
    Failure(DataAccessError),
}

impl WriteOutcome {
    /// The encoding of the outcome.
    pub open spec fn octets(self) -> Seq<u8> {
        match self {
            WriteOutcome::Success => seq![0x81, 0x00],
            WriteOutcome::Failure(e) => seq![0x80, 0x01, e.wire_code()],
        }
    }

    /// The outcome at the start of `s`, and how many octets it announces. A success may
    /// announce more than `s` holds.
    pub open spec fn parse(s: Seq<u8>) -> Result<(WriteOutcome, nat), MmsError> {
        if s.len() == 0 {
            Err(MmsError::TruncatedPdu)
        } else if s[0] == 0x81 {
            match asn1::length_at(s.skip(1)) {
                Err(e) => Err(error::length_error(e)),
                Ok((len, taken)) => Ok((WriteOutcome::Success, 1 + taken + len)),
            }
        } else if s[0] == 0x80 {
            match ber::element_at(s) {
                Err(e) => Err(e),
                Ok(e) => if e.val.len() == 0 || e.val.len() > 4 {
                    Err(MmsError::InvalidLength)
                } else {
                    match DataAccessError::of_code(e.val[0]) {
                        Err(x) => Err(x),
                        Ok(x) => Ok((WriteOutcome::Failure(x), e.size)),
                    }
                },
            }
        } else {
            Err(MmsError::UnknownWriteOutcomeTag(s[0]))
        }
    }

    /// Encodes the WriteOutcome into `buf`.
    pub fn encode(&self, buf: &mut BytesMut)
        requires
            buffer::contents(*old(buf)).len() + self.octets().len() <= isize::MAX,
        ensures
            buffer::contents(*final(buf)) == buffer::contents(*old(buf)) + self.octets(),
    {
        match self {
            WriteOutcome::Success => {
                let body: [u8; 2] = [0x81, 0x00];
                assert(body@ =~= self.octets());
                buf.extend_from_slice(&body);
            },
            WriteOutcome::Failure(e) => {
                let body: [u8; 3] = [0x80, 0x01, e.code()];
                assert(body@ =~= self.octets());
                buf.extend_from_slice(&body);
            },
        }
    }

    /// Decodes a WriteOutcome; `data` starts at the tag byte. Returns the outcome and the
    /// number of bytes it announces, as far as a `usize` can hold it.
    pub fn decode(data: &[u8]) -> (r: Result<(Self, usize), MmsError>)
        ensures
            match WriteOutcome::parse(data@) {
                Ok((v, n)) => r matches Ok((x, m)) && x == v && m == (if n > usize::MAX {
                    usize::MAX as nat
                } else {
                    n
                }),
                Err(e) => r == Err::<(WriteOutcome, usize), MmsError>(e),
            },
    {
        if data.len() == 0 {
            return Err(MmsError::TruncatedPdu);
        }
        match data[0] {
            0x81 => {
                let tail: &[u8] = &data[1..data.len()];
                assert(tail@ =~= data@.skip(1));
                match decode_length(tail) {
                    Err(e) => Err(MmsError::from(e)),
                    Ok((len, taken)) => {
                        let size: usize = (1 + taken).saturating_add(len);
                        Ok((WriteOutcome::Success, size))
                    },
                }
            },
            0x80 => {
                assert(data@.skip(0) =~= data@);
                let t: Tlv = take_element(data, 0)?;
                if t.val.len() == 0 || t.val.len() > 4 {
                    return Err(MmsError::InvalidLength);
                }
                let e: DataAccessError = DataAccessError::from_code(t.val[0])?;
                Ok((WriteOutcome::Failure(e), t.size))
            },
            other => Err(MmsError::UnknownWriteOutcomeTag(other)),
        }
    }
}

/// An outcome decodes to itself, whatever follows it.
pub proof fn law_write_outcome_round_trip(w: WriteOutcome, rest: Seq<u8>)
    ensures
        WriteOutcome::parse(w.octets() + rest) == Ok::<(WriteOutcome, nat), MmsError>(
            (w, w.octets().len()),
        ),
{
    let s = w.octets() + rest;
    match w {
        WriteOutcome::Success => {
            assert(s.skip(1)[0] == 0x00);
        },
        WriteOutcome::Failure(e) => {
            assert(w.octets() =~= ber::tlv(0x80, seq![e.wire_code()]));
            ber::law_element_round_trip(0x80, seq![e.wire_code()], rest);
        },
    }
}

} // verus!
