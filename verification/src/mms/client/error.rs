//! Error type of the MMS client layer.
//!
//! Extends `MmsError` with the conditions connection management adds:
//! - `PduTooLarge`: an encoded PDU exceeds the negotiated maximum size
//! - `InvokeIdExhausted`: every invokeID is already in flight
//! - `OutstandingCallLimit`: the outstanding request ceiling has been reached
//! - `NotConnected`: a service was called while no association exists
//! - `ConcludeRejected`: the peer refused the release with `0x8d`
//! - `ServiceTimeout`: no answer arrived within the request timeout
//! - `ConnectionLost`: the transport closed
//! - `IsoError`: a lower ISO layer failed to parse
//! - `ServiceError`: the peer answered with a confirmed error PDU
//! - `DataAccessError`: a read or write reported a data access error
//! - `RejectError`: the peer answered with a reject PDU

use vstd::prelude::*;

use crate::mms::error::MmsError;
use crate::mms::pdu::access::DataAccessError;
use crate::mms::pdu::reject::RejectReason;
use crate::mms::pdu::service_error::ErrorClass;

verus! {

/// Errors raised by MMS client operations.
#[derive(Debug)]
pub enum ClientError {
    /// The encoded PDU exceeds the negotiated maximum size, so it is not sent.
    ///
    /// An oversized PDU is refused rather than truncated.
    PduTooLarge {
        /// Size of the encoded PDU.
        pdu_size: usize,
        /// Negotiated maximum PDU size.
        max_size: usize,
    },
    /// The next invokeID is already in flight, so no new request can be issued.
    ///
    /// A collision is reported rather than routed onto an existing request.
    InvokeIdExhausted,
    /// The negotiated ceiling on outstanding requests has been reached.
    OutstandingCallLimit,
    /// A service was called while the association was not established.
    NotConnected {
        /// Connection state at the time of the call.
        state: String,
    },
    /// The peer answered the release with `0x8d`, so the association stays open.
    ConcludeRejected,
    /// No answer arrived within the request timeout.
    ServiceTimeout {
        /// Request timeout that elapsed, in milliseconds.
        timeout_ms: u64,
    },
    /// The transport closed.
    ConnectionLost,
    /// A protocol error in the COTP, Session, Presentation or ACSE layer.
    IsoError(String),
    /// The peer answered with a ConfirmedError PDU carrying an MMS ServiceError.
    ServiceError {
        /// errorClass carried by the confirmed error PDU.
        error_class: ErrorClass,
    },
    /// The peer answered with a Reject PDU.
    RejectError {
        /// rejectReason carried by the reject PDU.
        reason: RejectReason,
    },
    /// A read or write reported a data access error.
    DataAccessError(DataAccessError),
    /// The ACSE association was refused.
    AssociateFailed,
    /// MMS Initiate negotiation failed and the peer answered with an Initiate error.
    InitiateFailed {
        /// Subcode carried by the Initiate error PDU.
        error_code: u8,
    },
    /// An MMS PDU failed to parse.
    PduParse(String),
    /// The association was not established within the connect timeout.
    ConnectTimeout {
        /// Connect timeout that elapsed, in milliseconds.
        timeout_ms: u64,
    },
}

/// A client error with its texts in view.
#[verifier::ext_equal]
pub enum ClientErrorView {
    /// The encoded PDU exceeds the negotiated maximum size.
    PduTooLarge {
        /// Size of the encoded PDU.
        pdu_size: usize,
        /// Negotiated maximum PDU size.
        max_size: usize,
    },
    /// The next invokeID is already in flight.
    InvokeIdExhausted,
    /// The ceiling on outstanding requests has been reached.
    OutstandingCallLimit,
    /// The association was not established.
    NotConnected {
        /// Connection state at the time of the call.
        state: Seq<char>,
    },
    /// The peer refused the release.
    ConcludeRejected,
    /// No answer arrived within the request timeout.
    ServiceTimeout {
        /// Request timeout that elapsed.
        timeout_ms: u64,
    },
    /// The transport closed.
    ConnectionLost,
    /// A protocol error in a lower layer.
    IsoError(Seq<char>),
    /// The peer answered with a ConfirmedError PDU.
    ServiceError {
        /// errorClass carried by the PDU.
        error_class: ErrorClass,
    },
    /// The peer answered with a Reject PDU.
    RejectError {
        /// rejectReason carried by the PDU.
        reason: RejectReason,
    },
    /// A read or write reported a data access error.
    DataAccessError(DataAccessError),
    /// The ACSE association was refused.
    AssociateFailed,
    /// The peer answered with an Initiate error.
    InitiateFailed {
        /// Subcode carried by the PDU.
        error_code: u8,
    },
    /// An MMS PDU failed to parse.
    PduParse(Seq<char>),
    /// The association was not established in time.
    ConnectTimeout {
        /// Connect timeout that elapsed.
        timeout_ms: u64,
    },
}

impl View for ClientError {
    type V = ClientErrorView;

    open spec fn view(&self) -> ClientErrorView {
        match *self {
            ClientError::PduTooLarge { pdu_size, max_size } => ClientErrorView::PduTooLarge {
                pdu_size,
                max_size,
            },
            ClientError::InvokeIdExhausted => ClientErrorView::InvokeIdExhausted,
            ClientError::OutstandingCallLimit => ClientErrorView::OutstandingCallLimit,
            ClientError::NotConnected { state } => ClientErrorView::NotConnected { state: state@ },
            ClientError::ConcludeRejected => ClientErrorView::ConcludeRejected,
            ClientError::ServiceTimeout { timeout_ms } => ClientErrorView::ServiceTimeout {
                timeout_ms,
            },
            ClientError::ConnectionLost => ClientErrorView::ConnectionLost,
            ClientError::IsoError(t) => ClientErrorView::IsoError(t@),
            ClientError::ServiceError { error_class } => ClientErrorView::ServiceError {
                error_class,
            },
            ClientError::RejectError { reason } => ClientErrorView::RejectError { reason },
            ClientError::DataAccessError(e) => ClientErrorView::DataAccessError(e),
            ClientError::AssociateFailed => ClientErrorView::AssociateFailed,
            ClientError::InitiateFailed { error_code } => ClientErrorView::InitiateFailed {
                error_code,
            },
            ClientError::PduParse(t) => ClientErrorView::PduParse(t@),
            ClientError::ConnectTimeout { timeout_ms } => ClientErrorView::ConnectTimeout {
                timeout_ms,
            },
        }
    }
}

/// The error that reports a PDU that failed to parse: it carries the message.
pub open spec fn parse_error(e: MmsError) -> ClientErrorView {
    ClientErrorView::PduParse(e@.text())
}

/// The result agrees with what was to be returned: the same error, or a value of this
/// view.
pub open spec fn agrees<T: View>(
    r: Result<T, ClientError>,
    want: Result<T::V, ClientErrorView>,
) -> bool {
    match want {
        Ok(v) => r matches Ok(x) && x@ == v,
        Err(e) => r matches Err(x) && x@ == e,
    }
}

impl ClientError {
    /// Reports a PDU that failed to parse.
    pub fn pdu_parse(e: &MmsError) -> (r: Self)
        ensures
            r@ == parse_error(*e),
    {
        ClientError::PduParse(e.message())
    }
}

} // verus!
