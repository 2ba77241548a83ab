//! invokeID allocation.
//!
//! In-flight identifiers are tracked in a set:
//!
//! - allocation starts at 1
//! - each call increments the counter and skips 0 on wrap-around
//! - an identifier already in the pending set means the space has wrapped onto a live
//!   request, which returns `ClientError::InvokeIdExhausted`

use std::collections::HashSet;
use vstd::prelude::*;

use crate::mms::client::error::{ClientError, ClientErrorView};

verus! {

broadcast use vstd::std_specs::hash::group_hash_axioms;

/// Allocator for invokeIDs; not thread safe, and owned by one client.
pub struct InvokeIdAllocator {
    /// The identifier last tried, one-based so 0 is never used.
    pub next: u32,
    /// Identifiers currently in flight, used to detect a collision.
    pending: HashSet<u32>,
    /// Maximum number of outstanding requests.
    max_outstanding: u32,
}

/// What an allocator holds.
#[verifier::ext_equal]
pub struct AllocatorView {
    /// The identifier last tried.
    pub next: u32,
    /// Identifiers in flight.
    pub pending: Set<u32>,
    /// Maximum number of outstanding requests.
    pub max_outstanding: u32,
}

impl View for InvokeIdAllocator {
    type V = AllocatorView;

    closed spec fn view(&self) -> AllocatorView {
        AllocatorView {
            next: self.next,
            pending: self.pending@,
            max_outstanding: self.max_outstanding,
        }
    }
}

impl AllocatorView {
    /// An allocator that nothing has been taken from.
    pub open spec fn fresh(max_outstanding: u32) -> AllocatorView {
        AllocatorView { next: 0, pending: Set::empty(), max_outstanding }
    }

    /// No more identifiers are in flight than are allowed, and 0 is not among them.
    pub open spec fn well_formed(self) -> bool {
        &&& self.pending.finite()
        &&& self.pending.len() <= self.max_outstanding
        &&& !self.pending.contains(0)
    }

    /// The identifier that is tried next: one more, without 0.
    pub open spec fn candidate(self) -> u32 {
        if self.next == u32::MAX {
            1
        } else {
            (self.next + 1) as u32
        }
    }

    /// What the next allocation returns.
    pub open spec fn allocation(self) -> Result<u32, ClientErrorView> {
        if self.pending.len() >= self.max_outstanding {
            Err(ClientErrorView::OutstandingCallLimit)
        } else if self.pending.contains(self.candidate()) {
            Err(ClientErrorView::InvokeIdExhausted)
        } else {
            Ok(self.candidate())
        }
    }

    /// What an allocation leaves: the counter has moved on, and the identifier is in
    /// flight where one was returned.
    pub open spec fn after_allocation(self) -> AllocatorView {
        AllocatorView {
            next: self.candidate(),
            pending: if self.allocation() is Ok {
                self.pending.insert(self.candidate())
            } else {
                self.pending
            },
            max_outstanding: self.max_outstanding,
        }
    }

    /// What releasing an identifier leaves.
    pub open spec fn released(self, id: u32) -> AllocatorView {
        AllocatorView { pending: self.pending.remove(id), ..self }
    }
}

impl InvokeIdAllocator {
    /// Creates an allocator bounded by `max_outstanding`.
    pub fn new(max_outstanding: u32) -> (r: Self)
        ensures
            r@ == AllocatorView::fresh(max_outstanding),
            r@.well_formed(),
    {
        InvokeIdAllocator {
            next: 0,
            pending: HashSet::new(),
            max_outstanding,
        }
    }

    /// Allocates the next free invokeID.
    ///
    /// The steps are:
    /// 1. increment the counter, skipping 0;
    /// 2. return `OutstandingCallLimit` when the pending set is full;
    /// 3. return `InvokeIdExhausted` when the identifier is already pending;
    /// 4. insert the identifier and return it.
    pub fn allocate(&mut self) -> (r: Result<u32, ClientError>)
        requires
            old(self)@.well_formed(),
        ensures
            match old(self)@.allocation() {
                Ok(id) => r matches Ok(i) && i == id,
                Err(e) => r matches Err(x) && x@ == e,
            },
            final(self)@ == old(self)@.after_allocation(),
            final(self)@.well_formed(),
    {
        self.next = if self.next == u32::MAX {
            1
        } else {
            self.next + 1
        };
        if self.pending.len() as u64 >= self.max_outstanding as u64 {
            return Err(ClientError::OutstandingCallLimit);
        }
        if self.pending.contains(&self.next) {
            return Err(ClientError::InvokeIdExhausted);
        }
        self.pending.insert(self.next);
        Ok(self.next)
    }

    /// Releases an invokeID once its response has arrived.
    ///
    /// An identifier that is not pending is ignored, which covers a response arriving
    /// after its timeout.
    pub fn release(&mut self, id: u32)
        ensures
            final(self)@ == old(self)@.released(id),
            old(self)@.well_formed() ==> final(self)@.well_formed(),
    {
        self.pending.remove(&id);
        assert(self@ =~= old(self)@.released(id));
    }

    /// Returns whether an invokeID is pending.
    pub fn is_pending(&self, id: u32) -> (r: bool)
        ensures
            r == self@.pending.contains(id),
    {
        self.pending.contains(&id)
    }

    /// Clears every pending identifier, for instance when the connection is lost.
    pub fn clear(&mut self)
        ensures
            final(self)@ == (AllocatorView { pending: Set::empty(), ..old(self)@ }),
            final(self)@.well_formed(),
    {
        self.pending.clear();
    }

    /// Returns how many requests are pending.
    pub fn pending_count(&self) -> (n: usize)
        ensures
            n == self@.pending.len(),
    {
        self.pending.len()
    }
}

/// A returned identifier is not 0 and was not in flight, and is in flight afterwards.
pub proof fn law_allocation_is_fresh(a: AllocatorView)
    requires
        a.well_formed(),
    ensures
        a.allocation() matches Ok(id) ==> {
            &&& id != 0
            &&& !a.pending.contains(id)
            &&& a.after_allocation().pending == a.pending.insert(id)
            &&& a.after_allocation().pending.len() == a.pending.len() + 1
        },
{
}

/// Releasing an identifier that was just allocated leaves the same identifiers in flight
/// as before.
pub proof fn law_release_undoes_allocation(a: AllocatorView, id: u32)
    requires
        a.well_formed(),
        a.allocation() == Ok::<u32, ClientErrorView>(id),
    ensures
        a.after_allocation().released(id).pending == a.pending,
        a.after_allocation().released(id).well_formed(),
{
    assert(a.pending.insert(id).remove(id) =~= a.pending);
}

/// Every operation keeps the allocator well formed: never more identifiers in flight than
/// allowed, and never 0.
pub proof fn law_allocator_stays_well_formed(a: AllocatorView, id: u32)
    requires
        a.well_formed(),
    ensures
        a.after_allocation().well_formed(),
        a.released(id).well_formed(),
        AllocatorView::fresh(a.max_outstanding).well_formed(),
{
}


/// How an identifier is chosen: one more than the last one tried, without 0. The counter
/// moves on in any case. Where as many are in flight as are allowed, or the identifier is
/// itself in flight, none is taken.
pub proof fn law_allocation_rules(a: AllocatorView)
    requires
        a.well_formed(),
    ensures
        ({
            let id: u32 = if a.next == 0xffff_ffff {
                1
            } else {
                (a.next + 1) as u32
            };
            let left = a.after_allocation();
            &&& left.next == id
            &&& left.max_outstanding == a.max_outstanding
            &&& a.pending.len() >= a.max_outstanding ==> a.allocation() == Err::<
                u32,
                ClientErrorView,
            >(ClientErrorView::OutstandingCallLimit) && left.pending == a.pending
            &&& a.pending.len() < a.max_outstanding && a.pending.contains(id) ==> a.allocation()
                == Err::<u32, ClientErrorView>(ClientErrorView::InvokeIdExhausted) && left.pending
                == a.pending
            &&& a.pending.len() < a.max_outstanding && !a.pending.contains(id) ==> a.allocation()
                == Ok::<u32, ClientErrorView>(id) && left.pending == a.pending.insert(id)
        }),
{
}

/// Releasing takes one identifier out of flight and changes nothing else; an allocator
/// that nothing was taken from has none in flight and starts from 0.
pub proof fn law_release_rules(a: AllocatorView, id: u32, other: u32)
    ensures
        a.released(id).next == a.next,
        a.released(id).max_outstanding == a.max_outstanding,
        a.released(id).pending.contains(other) <==> other != id && a.pending.contains(other),
        AllocatorView::fresh(id).next == 0,
        AllocatorView::fresh(id).max_outstanding == id,
        !AllocatorView::fresh(id).pending.contains(other),
{
}

} // verus!
