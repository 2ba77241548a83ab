//! Conclude request and response PDUs.
//!
//! Both carry an empty body:
//! - ConcludeRequest is `0x8b 0x00`, MmsPdu `[11]` primitive NULL
//! - ConcludeResponse is `0x8c 0x00`, MmsPdu `[12]` primitive NULL
//!
//! Both tags are primitive rather than constructed, hence 0x8b and 0x8c rather than
//! 0xab and 0xac.

use bytes::BytesMut;
use vstd::prelude::*;

use crate::buffer;
use crate::mms::error::MmsError;

verus! {

/// The fixed two-byte encoding of a ConcludeRequest.
pub const CONCLUDE_REQUEST_BYTES: [u8; 2] = [0x8b, 0x00];

/// The fixed two-byte encoding of a ConcludeResponse.
pub const CONCLUDE_RESPONSE_BYTES: [u8; 2] = [0x8c, 0x00];

/// An MMS Conclude-RequestPDU, `[11]`.
#[derive(Debug, Clone, Copy, PartialEq, Eq, Default)]
pub struct ConcludeRequestPdu;

/// An MMS Conclude-ResponsePDU, `[12]`, with a NULL body.
#[derive(Debug, Clone, Copy, PartialEq, Eq, Default)]
pub struct ConcludeResponsePdu;

/// What is wrong with a PDU that must have this tag and a NULL body.
pub open spec fn null_fault(s: Seq<u8>, tag: u8) -> Option<MmsError> {
    if s.len() < 2 {
        Some(MmsError::TruncatedPdu)
    } else if s[0] != tag {
        Some(MmsError::InvalidTag { expected: tag, actual: s[0] })
    } else if s[1] != 0 {
        Some(MmsError::InvalidPdu)
    } else {
        None
    }
}

/// Checks that `data` starts with this tag and a length of 0.
fn check_null(data: &[u8], tag: u8) -> (r: Result<(), MmsError>)
    ensures
        match null_fault(data@, tag) {
            Some(e) => r == Err::<(), MmsError>(e),
            None => r is Ok,
        },
{
    if data.len() < 2 {
        return Err(MmsError::TruncatedPdu);
    }
    if data[0] != tag {
        return Err(MmsError::InvalidTag { expected: tag, actual: data[0] });
    }
    if data[1] != 0 {
        return Err(MmsError::InvalidPdu);
    }
    Ok(())
}

impl ConcludeRequestPdu {
    /// Encodes the fixed two bytes `0x8b 0x00`.
    pub fn encode(&self, buf: &mut BytesMut)
        requires
            buffer::contents(*old(buf)).len() + 2 <= isize::MAX,
        ensures
            buffer::contents(*final(buf)) == buffer::contents(*old(buf)) + seq![0x8bu8, 0x00u8],
    {
        buf.extend_from_slice(&CONCLUDE_REQUEST_BYTES);
    }

    /// Decodes a request; `data` starts at the `0x8b` tag byte.
    ///
    /// The tag must be 0x8b and the length 0. A non-zero length returns
    /// `MmsError::InvalidPdu`, and fewer than two bytes returns `MmsError::TruncatedPdu`.
    ///
    /// The length is checked strictly because the body is a NULL.
    pub fn decode(data: &[u8]) -> (r: Result<Self, MmsError>)
        ensures
            r == (match null_fault(data@, 0x8b) {
                Some(e) => Err(e),
                None => Ok(ConcludeRequestPdu),
            }),
    {
        check_null(data, 0x8b)?;
        Ok(ConcludeRequestPdu)
    }
}

impl ConcludeResponsePdu {
    /// Encodes the fixed two bytes `0x8c 0x00`.
    pub fn encode(&self, buf: &mut BytesMut)
        requires
            buffer::contents(*old(buf)).len() + 2 <= isize::MAX,
        ensures
            buffer::contents(*final(buf)) == buffer::contents(*old(buf)) + seq![0x8cu8, 0x00u8],
    {
        buf.extend_from_slice(&CONCLUDE_RESPONSE_BYTES);
    }

    /// Decodes a response; `data` starts at the `0x8c` tag byte.
    ///
    /// The tag must be 0x8c and the length 0. A non-zero length returns
    /// `MmsError::InvalidPdu`, and fewer than two bytes returns `MmsError::TruncatedPdu`.
    pub fn decode(data: &[u8]) -> (r: Result<Self, MmsError>)
        ensures
            r == (match null_fault(data@, 0x8c) {
                Some(e) => Err(e),
                None => Ok(ConcludeResponsePdu),
            }),
    {
        check_null(data, 0x8c)?;
        Ok(ConcludeResponsePdu)
    }
}

/// A PDU with a NULL body is accepted under its own tag, whatever follows it, and under
/// no other.
pub proof fn law_conclude_round_trip(tag: u8, other: u8, rest: Seq<u8>)
    ensures
        null_fault(seq![tag, 0x00u8] + rest, other) is None <==> tag == other,
{
}

} // verus!
