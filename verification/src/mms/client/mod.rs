//! MMS client: settings, the state of an association, and the services on it.
//!
//! ## Behavior
//!
//! - An invokeID that is still in flight returns `ClientError::InvokeIdExhausted`.
//! - A PDU above the negotiated maximum returns `ClientError::PduTooLarge`.
//! - A Conclude request from the server is answered with `0x8c` and reported as a
//!   lost connection.

use bytes::Bytes;
use vstd::prelude::*;

pub mod connection;
pub mod error;
pub mod invoke_id;
pub mod services;

use crate::buffer;
use crate::mms::client::connection::ConnectionView;
use crate::mms::client::invoke_id::{AllocatorView, InvokeIdAllocator};

pub use crate::mms::client::connection::{ConnectionState, MmsConnection};
pub use crate::mms::client::error::ClientError;
pub use crate::mms::client::services::MmsValue;

verus! {

/// How many requests may be outstanding at once, by default.
pub const DEFAULT_MAX_OUTSTANDING: u32 = 5;

/// Builder for [`MmsClient`].
#[derive(Debug)]
pub struct MmsClientBuilder {
    /// Connect timeout in milliseconds.
    pub connect_timeout_ms: Option<u64>,
    /// Request timeout in milliseconds.
    pub request_timeout_ms: Option<u64>,
    /// How many requests may be outstanding at once.
    pub max_outstanding: Option<u32>,
    /// The maximum PDU size proposed in the Initiate request.
    pub local_max_pdu_size: Option<u32>,
}

impl MmsClientBuilder {
    /// No setting is overridden.
    pub open spec fn no_settings() -> MmsClientBuilder {
        MmsClientBuilder {
            connect_timeout_ms: None,
            request_timeout_ms: None,
            max_outstanding: None,
            local_max_pdu_size: None,
        }
    }

    /// The connection that the settings describe: what is not set has its default.
    pub open spec fn connection(self) -> ConnectionView {
        let base = ConnectionView::disconnected();
        ConnectionView {
            connect_timeout_ms: match self.connect_timeout_ms {
                Some(t) => t,
                None => base.connect_timeout_ms,
            },
            request_timeout_ms: match self.request_timeout_ms {
                Some(t) => t,
                None => base.request_timeout_ms,
            },
            local_max_pdu_size: self.local_max_pdu_size,
            ..base
        }
    }

    /// The allocator that the settings describe.
    pub open spec fn allocator(self) -> AllocatorView {
        AllocatorView::fresh(
            match self.max_outstanding {
                Some(n) => n,
                None => DEFAULT_MAX_OUTSTANDING,
            },
        )
    }

    /// Creates a builder holding the default settings.
    pub fn new() -> (r: Self)
        ensures
            r == MmsClientBuilder::no_settings(),
    {
        MmsClientBuilder::default()
    }

    /// Sets the connect timeout in milliseconds.
    pub fn connect_timeout_ms(self, ms: u64) -> (r: Self)
        ensures
            r == (MmsClientBuilder { connect_timeout_ms: Some(ms), ..self }),
    {
        MmsClientBuilder { connect_timeout_ms: Some(ms), ..self }
    }

    /// Sets the request timeout in milliseconds.
    pub fn request_timeout_ms(self, ms: u64) -> (r: Self)
        ensures
            r == (MmsClientBuilder { request_timeout_ms: Some(ms), ..self }),
    {
        MmsClientBuilder { request_timeout_ms: Some(ms), ..self }
    }

    /// Sets how many requests may be outstanding at once.
    pub fn max_outstanding(self, n: u32) -> (r: Self)
        ensures
            r == (MmsClientBuilder { max_outstanding: Some(n), ..self }),
    {
        MmsClientBuilder { max_outstanding: Some(n), ..self }
    }

    /// Overrides `localDetailCalling`, the maximum PDU size proposed in the Initiate
    /// request, in bytes.
    ///
    /// Setting a small value negotiates a small `negotiated_max_pdu_size`, which
    /// exercises the outbound size guard end to end.
    /// Without it `DEFAULT_MAX_PDU_SIZE`, 65000, applies.
    pub fn local_max_pdu_size(self, size: u32) -> (r: Self)
        ensures
            r == (MmsClientBuilder { local_max_pdu_size: Some(size), ..self }),
    {
        MmsClientBuilder { local_max_pdu_size: Some(size), ..self }
    }

    /// Builds a client with these settings.
    pub fn build(self) -> (r: MmsClient)
        ensures
            r.conn@ == self.connection(),
            r.alloc@ == self.allocator(),
            r.alloc@.well_formed(),
    {
        let mut conn: MmsConnection = MmsConnection::new();
        if let Some(t) = self.connect_timeout_ms {
            conn.connect_timeout_ms = t;
        }
        if let Some(t) = self.request_timeout_ms {
            conn.request_timeout_ms = t;
        }
        if let Some(size) = self.local_max_pdu_size {
            conn.local_max_pdu_size = Some(size);
        }
        let max_outstanding: u32 = match self.max_outstanding {
            Some(n) => n,
            None => DEFAULT_MAX_OUTSTANDING,
        };
        MmsClient { conn, alloc: InvokeIdAllocator::new(max_outstanding) }
    }
}

impl Default for MmsClientBuilder {
    fn default() -> (r: Self)
        ensures
            r == MmsClientBuilder::no_settings(),
    {
        MmsClientBuilder {
            connect_timeout_ms: None,
            request_timeout_ms: None,
            max_outstanding: None,
            local_max_pdu_size: None,
        }
    }
}

/// The state of an MMS client: its connection and its invokeIDs.
pub struct MmsClient {
    /// The connection.
    pub conn: MmsConnection,
    /// The invokeIDs.
    pub alloc: InvokeIdAllocator,
}

impl MmsClient {
    /// Builds a client with the default settings.
    pub fn new() -> (r: Self)
        ensures
            r.conn@ == ConnectionView::disconnected(),
            r.alloc@ == AllocatorView::fresh(5),
            r.alloc@.well_formed(),
    {
        let r: MmsClient = MmsClientBuilder::new().build();
        assert(r.conn@ =~= ConnectionView::disconnected());
        r
    }

    /// Returns the current connection state.
    pub fn state(&self) -> (r: ConnectionState)
        ensures
            r == self.conn@.state,
    {
        self.conn.state
    }

    /// Returns the negotiated maximum PDU size.
    pub fn negotiated_max_pdu_size(&self) -> (r: usize)
        ensures
            r == self.conn@.max_pdu_size,
    {
        self.conn.negotiated_max_pdu_size
    }

    /// Closes the connection immediately, without any release handshake.
    pub fn close_raw(&mut self)
        ensures
            final(self).conn@ == (ConnectionView {
                state: ConnectionState::Closed,
                ..old(self).conn@
            }),
            final(self).alloc == old(self).alloc,
    {
        self.conn.close_raw();
    }

    /// Returns a set of Unconfirmed PDU content bytes to the back of the stash.
    ///
    /// A command-termination wait that takes a report it is not waiting for puts it
    /// back here for the report dispatcher.
    pub fn push_back_unconfirmed(&mut self, inner: Bytes)
        ensures
            final(self).conn@ == (ConnectionView {
                stash: old(self).conn@.stash.push(buffer::frozen(inner)),
                ..old(self).conn@
            }),
            final(self).alloc == old(self).alloc,
    {
        self.conn.push_pending_unconfirmed(inner);
    }
}

impl Default for MmsClient {
    fn default() -> (r: Self)
        ensures
            r.conn@ == ConnectionView::disconnected(),
            r.alloc@ == AllocatorView::fresh(5),
            r.alloc@.well_formed(),
    {
        MmsClient::new()
    }
}

} // verus!
