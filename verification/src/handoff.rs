//! The bounded hand-off queue between the queue-reading task and the
//! batching writer. It is the backpressure point: a send on a full queue
//! fails at once and hands the record back, rather than blocking the
//! network-receive path.

use vstd::prelude::*;
use crate::model::ProcessedEvent;

verus! {

/// A bounded FIFO of records. `pending` is everything sent and not yet
/// received, oldest first; it never exceeds the capacity fixed at
/// construction.
pub struct HandoffQueue {
    items: Vec<ProcessedEvent>,
    capacity: usize,
}

impl HandoffQueue {
    /// The records sent and not yet received, oldest first.
    pub closed spec fn pending(&self) -> Seq<ProcessedEvent> {
        self.items@
    }

    /// The bound fixed at construction.
    pub closed spec fn cap(&self) -> nat {
        self.capacity as nat
    }

    pub open spec fn wf(&self) -> bool {
        &&& self.cap() >= 1
        &&& self.pending().len() <= self.cap()
    }

    /// An empty queue with the given capacity.
    pub fn with_capacity(capacity: usize) -> (q: Self)
        requires
            capacity >= 1,
        ensures
            q.wf(),
            q.cap() == capacity as nat,
            q.pending() == Seq::<ProcessedEvent>::empty(),
    {
        HandoffQueue { items: Vec::new(), capacity }
    }

    /// Non-blocking send. Below capacity the record is appended and the
    /// send succeeds; at capacity the send fails immediately and the very
    /// record is handed back as the drop indication, the queue unchanged.
    pub fn try_send(&mut self, e: ProcessedEvent) -> (r: Result<(), ProcessedEvent>)
        requires
            old(self).wf(),
        ensures
            final(self).wf(),
            final(self).cap() == old(self).cap(),
            if old(self).pending().len() < old(self).cap() {
                &&& r is Ok
                &&& final(self).pending() == old(self).pending().push(e)
            } else {
                &&& r == Result::<(), ProcessedEvent>::Err(e)
                &&& final(self).pending() == old(self).pending()
            },
    {
        if self.items.len() < self.capacity {
            self.items.push(e);
            Ok(())
        } else {
            Err(e)
        }
    }

    /// Receive the oldest pending record, if any.
    pub fn recv(&mut self) -> (r: Option<ProcessedEvent>)
        requires
            old(self).wf(),
        ensures
            final(self).wf(),
            final(self).cap() == old(self).cap(),
            if old(self).pending().len() > 0 {
                &&& r == Some(old(self).pending()[0])
                &&& final(self).pending() == old(self).pending().drop_first()
            } else {
                &&& r is None
                &&& final(self).pending() == old(self).pending()
            },
    {
        if self.items.len() > 0 {
            Some(self.items.remove(0))
        } else {
            None
        }
    }

    /// How many records are pending.
    pub fn len(&self) -> (n: usize)
        ensures
            n as nat == self.pending().len(),
    {
        self.items.len()
    }

    /// Whether a further non-blocking send would fail.
    pub fn is_full(&self) -> (full: bool)
        ensures
            full == (self.pending().len() >= self.cap()),
    {
        self.items.len() >= self.capacity
    }
}

} // verus!
