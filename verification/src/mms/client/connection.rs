//! The MMS side of a client connection: association, release, and what is in between.
//!
//! The transport and the ISO layers below MMS are driven from outside. This module holds
//! the state of the association and decides each step of it:
//!
//! 1. Association: the Initiate request to send, and what the answer negotiates.
//! 2. Release: the Conclude request to send, after which the connection closes.
//! 3. Sending: an encoded PDU larger than `negotiated_max_pdu_size` is rejected instead of
//!    being sent.
//! 4. Receiving: a PDU is handed to the caller, an Unconfirmed PDU that arrives while a
//!    confirmed call is in flight is stashed, and a Conclude request from the server
//!    (`0x8b`) is answered with `0x8c` and reported as a lost connection.

use bytes::{Bytes, BytesMut};
use std::collections::VecDeque;
use vstd::prelude::*;

use crate::buffer;
use crate::mms::client::error;
use crate::mms::client::error::{ClientError, ClientErrorView};
use crate::mms::error::MmsError;
use crate::mms::pdu::initiate;
use crate::mms::pdu::initiate::{
    InitiateRequestPdu,
    InitiateView,
    DEFAULT_MAX_PDU_SIZE,
    DEFAULT_MAX_SERV_OUTSTANDING_CALLED,
    DEFAULT_MAX_SERV_OUTSTANDING_CALLING,
};
use crate::mms::pdu::{MmsPdu, MmsPduView};
use crate::text;

verus! {

/// Default connect timeout in milliseconds.
pub const DEFAULT_CONNECT_TIMEOUT_MS: u64 = 10_000;

/// Default request timeout in milliseconds.
pub const DEFAULT_REQUEST_TIMEOUT_MS: u64 = 5_000;

/// MMS connection state.
#[derive(Debug, Clone, Copy, PartialEq, Eq, Structural)]
pub enum ConnectionState {
    /// No association; the transport is not connected.
    Closed,
    /// The association sequence is in progress.
    Connecting,
    /// The association is established and services may be issued.
    Connected,
    /// A Conclude request has been sent and the release is in progress.
    Closing,
}

impl ConnectionState {
    /// The name of the state.
    pub open spec fn label(self) -> Seq<char> {
        match self {
            ConnectionState::Closed => "Closed"@,
            ConnectionState::Connecting => "Connecting"@,
            ConnectionState::Connected => "Connected"@,
            ConnectionState::Closing => "Closing"@,
        }
    }

    /// Returns the name of the state.
    pub fn name(self) -> (r: &'static str)
        ensures
            r@ == self.label(),
    {
        match self {
            ConnectionState::Closed => "Closed",
            ConnectionState::Connecting => "Connecting",
            ConnectionState::Connected => "Connected",
            ConnectionState::Closing => "Closing",
        }
    }
}

/// The MMS state of a client connection.
pub struct MmsConnection {
    /// Connection state.
    pub state: ConnectionState,
    /// Negotiated maximum PDU size in bytes.
    pub negotiated_max_pdu_size: usize,
    /// Negotiated ceiling on outstanding calling requests.
    pub negotiated_max_calling: u16,
    /// Negotiated ceiling on outstanding called requests.
    pub negotiated_max_called: u16,
    /// Connect timeout in milliseconds.
    pub connect_timeout_ms: u64,
    /// Request timeout in milliseconds.
    pub request_timeout_ms: u64,
    /// `localDetail` proposed in the Initiate request, the proposedMaxPduSize.
    /// `None` uses `DEFAULT_MAX_PDU_SIZE`, that is 65000. A smaller value exercises
    /// the outbound size guard end to end.
    pub local_max_pdu_size: Option<u32>,
    /// Inner bytes of Unconfirmed PDUs, such as InformationReport, that arrived while
    /// a confirmed service was awaiting its response.
    ///
    /// A server may push an InformationReport, for a report control block or a
    /// command termination, in the middle of a confirmed exchange. Such a PDU is
    /// stashed here, which keeps the caller from mistaking it for the response. The queue
    /// preserves arrival order.
    pub pending_unconfirmed: VecDeque<Bytes>,
}

/// The state of a connection, with the stashed PDUs as bytes.
#[verifier::ext_equal]
pub struct ConnectionView {
    /// Connection state.
    pub state: ConnectionState,
    /// Negotiated maximum PDU size.
    pub max_pdu_size: usize,
    /// Negotiated ceiling on outstanding calling requests.
    pub max_calling: u16,
    /// Negotiated ceiling on outstanding called requests.
    pub max_called: u16,
    /// Connect timeout in milliseconds.
    pub connect_timeout_ms: u64,
    /// Request timeout in milliseconds.
    pub request_timeout_ms: u64,
    /// The maximum PDU size to propose.
    pub local_max_pdu_size: Option<u32>,
    /// The stashed Unconfirmed PDUs, the oldest first.
    pub stash: Seq<Seq<u8>>,
}

/// The contents of buffers in a row.
pub open spec fn contents_of(bufs: Seq<Bytes>) -> Seq<Seq<u8>> {
    bufs.map_values(|b: Bytes| buffer::frozen(b))
}

impl View for MmsConnection {
    type V = ConnectionView;

    open spec fn view(&self) -> ConnectionView {
        ConnectionView {
            state: self.state,
            max_pdu_size: self.negotiated_max_pdu_size,
            max_calling: self.negotiated_max_calling,
            max_called: self.negotiated_max_called,
            connect_timeout_ms: self.connect_timeout_ms,
            request_timeout_ms: self.request_timeout_ms,
            local_max_pdu_size: self.local_max_pdu_size,
            stash: contents_of(self.pending_unconfirmed@),
        }
    }
}

/// What arrived from the server.
pub enum Incoming {
    /// A PDU for the caller.
    Pdu(MmsPdu),
    /// The server ends the association: `reply` is to be sent to it, and `error` reported
    /// to the caller.
    Concluded {
        /// The Conclude response.
        reply: MmsPdu,
        /// A lost connection.
        error: ClientError,
    },
}

/// What arrived, in view.
#[verifier::ext_equal]
pub enum IncomingView {
    /// A PDU for the caller.
    Pdu(MmsPduView),
    /// The server ends the association.
    Concluded {
        /// What is to be sent.
        reply: MmsPduView,
        /// What is to be reported.
        error: ClientErrorView,
    },
}

impl View for Incoming {
    type V = IncomingView;

    open spec fn view(&self) -> IncomingView {
        match *self {
            Incoming::Pdu(p) => IncomingView::Pdu(p@),
            Incoming::Concluded { reply, error } => IncomingView::Concluded {
                reply: reply@,
                error: error@,
            },
        }
    }
}

/// The message that a PDU of another kind arrived.
pub open spec fn unexpected(head: Seq<char>, tag: u8, upper: bool) -> ClientErrorView {
    ClientErrorView::PduParse(head + text::hex_text(tag, upper))
}

impl ConnectionView {
    /// A connection before its association, with the default settings.
    pub open spec fn disconnected() -> ConnectionView {
        ConnectionView {
            state: ConnectionState::Closed,
            max_pdu_size: 65000,
            max_calling: 5,
            max_called: 5,
            connect_timeout_ms: DEFAULT_CONNECT_TIMEOUT_MS,
            request_timeout_ms: DEFAULT_REQUEST_TIMEOUT_MS,
            local_max_pdu_size: None,
            stash: Seq::empty(),
        }
    }

    /// What the Initiate request proposes: the defaults, with the maximum PDU size where
    /// one is set.
    pub open spec fn proposal(self) -> InitiateView {
        match self.local_max_pdu_size {
            Some(size) => InitiateView { local_detail: Some(size), ..InitiateView::default_view() },
            None => InitiateView::default_view(),
        }
    }

    /// The connection once the server has answered with these values: the PDU size is the
    /// smallest of 65000, the one proposed and the server's.
    pub open spec fn negotiated(self, answer: InitiateView) -> ConnectionView {
        let local_max: u32 = match self.local_max_pdu_size {
            Some(n) if n < DEFAULT_MAX_PDU_SIZE => n,
            _ => DEFAULT_MAX_PDU_SIZE,
        };
        let server_max: u32 = match answer.local_detail {
            Some(n) => n,
            None => DEFAULT_MAX_PDU_SIZE,
        };
        ConnectionView {
            state: ConnectionState::Connected,
            max_pdu_size: if server_max < local_max {
                server_max as usize
            } else {
                local_max as usize
            },
            max_calling: answer.calling,
            max_called: answer.called,
            ..self
        }
    }

    /// What the answer to the Initiate request, `s`, comes to.
    pub open spec fn association(self, s: Seq<u8>, over_tls: bool) -> Result<
        ConnectionView,
        ClientErrorView,
    > {
        match MmsPduView::parse(s) {
            Err(e) => Err(error::parse_error(e)),
            Ok(MmsPduView::InitiateResponse(answer)) => Ok(self.negotiated(answer)),
            Ok(MmsPduView::InitiateError(e)) => Err(
                ClientErrorView::InitiateFailed { error_code: e.error_class.parts().1 },
            ),
            Ok(other) => Err(
                unexpected(
                    if over_tls {
                        "expected InitiateResponse (tls), got tag=0x"@
                    } else {
                        "expected InitiateResponse, got tag=0x"@
                    },
                    other.tag(),
                    true,
                ),
            ),
        }
    }

    /// What the received octets `s` come to.
    pub open spec fn incoming(s: Seq<u8>) -> Result<IncomingView, ClientErrorView> {
        match MmsPduView::parse(s) {
            Err(e) => Err(error::parse_error(e)),
            Ok(MmsPduView::ConcludeRequest) => Ok(
                IncomingView::Concluded {
                    reply: MmsPduView::ConcludeResponse,
                    error: ClientErrorView::ConnectionLost,
                },
            ),
            Ok(p) => Ok(IncomingView::Pdu(p)),
        }
    }
}

/// Reports a PDU of another kind than was expected.
fn unexpected_pdu(head: &str, pdu: &MmsPdu, upper: bool) -> (e: ClientError)
    ensures
        e@ == unexpected(head@, pdu@.tag(), upper),
{
    let tag: String = text::hex(pdu.tag_byte(), upper);
    ClientError::PduParse(text::concat(head, tag.as_str()))
}

impl MmsConnection {
    /// Creates a disconnected connection.
    pub fn new() -> (r: Self)
        ensures
            r@ == ConnectionView::disconnected(),
    {
        let r = MmsConnection {
            state: ConnectionState::Closed,
            negotiated_max_pdu_size: DEFAULT_MAX_PDU_SIZE as usize,
            negotiated_max_calling: DEFAULT_MAX_SERV_OUTSTANDING_CALLING,
            negotiated_max_called: DEFAULT_MAX_SERV_OUTSTANDING_CALLED,
            connect_timeout_ms: DEFAULT_CONNECT_TIMEOUT_MS,
            request_timeout_ms: DEFAULT_REQUEST_TIMEOUT_MS,
            local_max_pdu_size: None,
            pending_unconfirmed: VecDeque::new(),
        };
        assert(r@ =~= ConnectionView::disconnected());
        r
    }

    /// Removes the oldest stashed Unconfirmed PDU, if any.
    ///
    /// `accept_confirmed` pushes the inner bytes of an InformationReport onto the stash
    /// while a confirmed call is in flight; a read of unconfirmed PDUs drains it before
    /// reading from the transport.
    pub fn pop_pending_unconfirmed(&mut self) -> (r: Option<Bytes>)
        ensures
            match r {
                Some(b) => {
                    &&& old(self)@.stash.len() > 0
                    &&& buffer::frozen(b) == old(self)@.stash[0]
                    &&& final(self)@ == (ConnectionView {
                        stash: old(self)@.stash.skip(1),
                        ..old(self)@
                    })
                },
                None => old(self)@.stash.len() == 0 && final(self)@ == old(self)@,
            },
    {
        let r: Option<Bytes> = self.pending_unconfirmed.pop_front();
        proof {
            if r is Some {
                assert(self@.stash =~= old(self)@.stash.skip(1));
            } else {
                assert(self@.stash =~= old(self)@.stash);
            }
        }
        r
    }

    /// Returns a set of Unconfirmed PDU inner bytes to the back of the stash.
    ///
    /// A command-termination wait that takes an InformationReport and finds it is a
    /// different kind of report puts it back here for the report dispatcher.
    pub fn push_pending_unconfirmed(&mut self, inner: Bytes)
        ensures
            final(self)@ == (ConnectionView {
                stash: old(self)@.stash.push(buffer::frozen(inner)),
                ..old(self)@
            }),
    {
        self.pending_unconfirmed.push_back(inner);
        assert(self@.stash =~= old(self)@.stash.push(buffer::frozen(inner)));
    }

    /// Starts the association sequence.
    pub fn begin_association(&mut self)
        ensures
            final(self)@ == (ConnectionView { state: ConnectionState::Connecting, ..old(self)@ }),
    {
        self.state = ConnectionState::Connecting;
    }

    /// Returns the encoded Initiate request that the association sends.
    pub fn initiate_request(&self) -> (r: BytesMut)
        ensures
            buffer::contents(r) == self@.proposal().octets(0xa8),
    {
        let mut request: InitiateRequestPdu = InitiateRequestPdu::default();
        if let Some(size) = self.local_max_pdu_size {
            request.local_detail_calling = Some(size);
        }
        let mut buf: BytesMut = BytesMut::new();
        assert(request@ =~= self@.proposal());
        proof {
            initiate::law_initiate_round_trip(request@, 0xa8, Seq::empty());
        }
        request.encode(&mut buf);
        assert(buffer::contents(buf) =~= self@.proposal().octets(0xa8));
        buf
    }

    /// Takes the answer to the Initiate request and establishes the association.
    ///
    /// The negotiated PDU size is the smallest of `DEFAULT_MAX_PDU_SIZE`,
    /// `local_max_pdu_size` and `localDetailCalled`, as far as they are set. Any answer but an
    /// Initiate response is an error, after which the connection is as before.
    pub fn complete_association(&mut self, answer: &[u8], over_tls: bool) -> (r: Result<
        (),
        ClientError,
    >)
        ensures
            match old(self)@.association(answer@, over_tls) {
                Ok(v) => r is Ok && final(self)@ == v,
                Err(e) => r matches Err(x) && x@ == e && final(self)@ == old(self)@,
            },
    {
        let pdu: MmsPdu = match MmsPdu::decode(answer) {
            Ok(p) => p,
            Err(e) => return Err(ClientError::pdu_parse(&e)),
        };
        match pdu {
            MmsPdu::InitiateResponse(resp) => {
                let local_max: u32 = match self.local_max_pdu_size {
                    Some(n) if n < DEFAULT_MAX_PDU_SIZE => n,
                    _ => DEFAULT_MAX_PDU_SIZE,
                };
                let server_max: u32 = match resp.local_detail_called {
                    Some(n) => n,
                    None => DEFAULT_MAX_PDU_SIZE,
                };
                self.negotiated_max_pdu_size = if server_max < local_max {
                    server_max as usize
                } else {
                    local_max as usize
                };
                self.negotiated_max_calling = resp.negotiated_max_serv_outstanding_calling;
                self.negotiated_max_called = resp.negotiated_max_serv_outstanding_called;
                self.state = ConnectionState::Connected;
                Ok(())
            },
            MmsPdu::InitiateError(err) => Err(
                ClientError::InitiateFailed { error_code: err.service_error.error_class.code() },
            ),
            other => Err(
                unexpected_pdu(
                    if over_tls {
                        "expected InitiateResponse (tls), got tag=0x"
                    } else {
                        "expected InitiateResponse, got tag=0x"
                    },
                    &other,
                    true,
                ),
            ),
        }
    }

    /// The error of a service called while there is no association.
    pub fn not_connected(&self) -> (e: ClientError)
        ensures
            e@ == (ClientErrorView::NotConnected { state: self@.state.label() }),
    {
        ClientError::NotConnected { state: self.state.name().to_owned() }
    }

    /// Starts the release: returns the Conclude request to send.
    ///
    /// Whatever the server answers, the connection is closed afterwards, with
    /// `close_raw`.
    pub fn begin_conclude(&mut self) -> (r: Result<MmsPdu, ClientError>)
        ensures
            if old(self)@.state == ConnectionState::Connected {
                &&& r matches Ok(p) && p@ == MmsPduView::ConcludeRequest
                &&& final(self)@ == (ConnectionView {
                    state: ConnectionState::Closing,
                    ..old(self)@
                })
            } else {
                &&& r matches Err(e) && e@ == (ClientErrorView::NotConnected {
                    state: old(self)@.state.label(),
                })
                &&& final(self)@ == old(self)@
            },
    {
        if self.state != ConnectionState::Connected {
            return Err(self.not_connected());
        }
        self.state = ConnectionState::Closing;
        Ok(MmsPdu::ConcludeRequest)
    }

    /// Closes the connection immediately, without any release handshake.
    pub fn close_raw(&mut self)
        ensures
            final(self)@ == (ConnectionView { state: ConnectionState::Closed, ..old(self)@ }),
    {
        self.state = ConnectionState::Closed;
    }

    /// The outbound PDU size guard.
    ///
    /// An encoded PDU larger than `negotiated_max_pdu_size` returns an error, and is not
    /// to be sent.
    pub fn check_outgoing_size(&self, pdu_size: usize) -> (r: Result<(), ClientError>)
        ensures
            if pdu_size > self@.max_pdu_size {
                r matches Err(e) && e@ == (ClientErrorView::PduTooLarge {
                    pdu_size,
                    max_size: self@.max_pdu_size,
                })
            } else {
                r is Ok
            },
    {
        if pdu_size > self.negotiated_max_pdu_size {
            return Err(
                ClientError::PduTooLarge { pdu_size, max_size: self.negotiated_max_pdu_size },
            );
        }
        Ok(())
    }

    /// Takes the octets of one received MMS PDU.
    ///
    /// A Conclude request from the server (`0x8b`) is to be answered with `0x8c`, moves the
    /// connection to `Closing`, and is to be reported as `ConnectionLost`.
    pub fn receive(&mut self, octets: &[u8]) -> (r: Result<Incoming, ClientError>)
        ensures
            error::agrees(r, ConnectionView::incoming(octets@)),
            final(self)@ == (if MmsPduView::parse(octets@) == Ok::<MmsPduView, MmsError>(
                MmsPduView::ConcludeRequest,
            ) {
                ConnectionView { state: ConnectionState::Closing, ..old(self)@ }
            } else {
                old(self)@
            }),
    {
        match MmsPdu::decode(octets) {
            Err(e) => Err(ClientError::pdu_parse(&e)),
            Ok(MmsPdu::ConcludeRequest) => {
                self.state = ConnectionState::Closing;
                Ok(
                    Incoming::Concluded {
                        reply: MmsPdu::ConcludeResponse,
                        error: ClientError::ConnectionLost,
                    },
                )
            },
            Ok(pdu) => Ok(Incoming::Pdu(pdu)),
        }
    }

    /// Takes one PDU for a confirmed call, stashing an Unconfirmed PDU.
    ///
    /// A server may push an InformationReport while a control, read or write call is
    /// awaiting its response. Stashing it here keeps the caller from mistaking it for
    /// the response. `None` means that the call reads on.
    pub fn accept_confirmed(&mut self, pdu: MmsPdu) -> (r: Option<MmsPdu>)
        ensures
            match pdu@ {
                MmsPduView::Unconfirmed(inner) => {
                    &&& r is None
                    &&& final(self)@ == (ConnectionView {
                        stash: old(self)@.stash.push(inner),
                        ..old(self)@
                    })
                },
                _ => r == Some(pdu) && final(self)@ == old(self)@,
            },
    {
        match pdu {
            MmsPdu::Unconfirmed(inner) => {
                self.push_pending_unconfirmed(inner);
                None
            },
            other => Some(other),
        }
    }
}

impl Default for MmsConnection {
    fn default() -> (r: Self)
        ensures
            r@ == ConnectionView::disconnected(),
    {
        MmsConnection::new()
    }
}

/// Takes the content of a PDU that must be Unconfirmed.
pub fn expect_unconfirmed(pdu: MmsPdu) -> (r: Result<Bytes, ClientError>)
    ensures
        match pdu@ {
            MmsPduView::Unconfirmed(inner) => r matches Ok(b) && buffer::frozen(b) == inner,
            _ => r matches Err(e) && e@ == unexpected(
                "expected Unconfirmed (0xa3), got tag=0x"@,
                pdu@.tag(),
                false,
            ),
        },
{
    match pdu {
        MmsPdu::Unconfirmed(inner) => Ok(inner),
        other => Err(unexpected_pdu("expected Unconfirmed (0xa3), got tag=0x", &other, false)),
    }
}

/// The negotiated PDU size is the smallest of 65000, of what the Initiate request proposed
/// and of what the server accepts, where it names a size.
pub proof fn law_negotiated_size_bounded(c: ConnectionView, s: Seq<u8>, over_tls: bool)
    ensures
        c.association(s, over_tls) matches Ok(v) ==> {
            &&& v.state == ConnectionState::Connected
            &&& MmsPduView::parse(s) matches Ok(MmsPduView::InitiateResponse(a)) && {
                let proposed = c.proposal().local_detail->0;
                let accepted = match a.local_detail {
                    Some(n) => n,
                    None => 65000u32,
                };
                &&& c.proposal().local_detail is Some
                &&& v.max_pdu_size <= 65000
                &&& v.max_pdu_size <= proposed && v.max_pdu_size <= accepted
                &&& v.max_pdu_size == 65000 || v.max_pdu_size == proposed || v.max_pdu_size
                    == accepted
            }
        },
{
}

} // verus!
