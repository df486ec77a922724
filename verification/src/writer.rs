//! The batching writer: exclusive owner of the in-memory buffer, reacting
//! to exactly two inputs — arrival of a record and a periodic timer tick.
//! A record is appended; when the buffer reaches the flush threshold it is
//! handed out as one batch and the buffer is left empty. A tick hands out
//! whatever is buffered (and is a no-op on an empty buffer). The driver
//! that owns the timer and the channel performs the storage write for each
//! batch handed out.

use vstd::prelude::*;
use crate::model::ProcessedEvent;

verus! {

/// One step of the writer on a record arrival: append, and flush the whole
/// buffer if it has reached the threshold. Returns the new buffer and the
/// flushed batch, if any.
pub open spec fn record_step(
    buf: Seq<ProcessedEvent>,
    threshold: nat,
    e: ProcessedEvent,
) -> (Seq<ProcessedEvent>, Option<Seq<ProcessedEvent>>) {
    let arrived = buf.push(e);
    if arrived.len() >= threshold {
        (Seq::empty(), Some(arrived))
    } else {
        (arrived, None)
    }
}

/// One step of the writer on a timer tick: flush the whole buffer if it is
/// non-empty, otherwise do nothing.
pub open spec fn tick_step(
    buf: Seq<ProcessedEvent>,
) -> (Seq<ProcessedEvent>, Option<Seq<ProcessedEvent>>) {
    if buf.len() > 0 {
        (Seq::empty(), Some(buf))
    } else {
        (buf, None)
    }
}

/// Run a sequence of record arrivals (with no tick in between) through the
/// writer: returns the final buffer and every batch flushed on the way, in
/// order.
pub open spec fn feed(
    buf: Seq<ProcessedEvent>,
    threshold: nat,
    records: Seq<ProcessedEvent>,
) -> (Seq<ProcessedEvent>, Seq<Seq<ProcessedEvent>>)
    decreases records.len(),
{
    if records.len() == 0 {
        (buf, Seq::empty())
    } else {
        let stepped = record_step(buf, threshold, records[0]);
        let rest = feed(stepped.0, threshold, records.skip(1));
        (
            rest.0,
            match stepped.1 {
                Some(b) => seq![b] + rest.1,
                None => rest.1,
            },
        )
    }
}

/// View of an optional flushed batch.
pub open spec fn batch_view(b: Option<Vec<ProcessedEvent>>) -> Option<Seq<ProcessedEvent>> {
    match b {
        Some(v) => Some(v@),
        None => None,
    }
}

/// The buffer owner. Between steps the buffer is always strictly below the
/// threshold: reaching it flushes at once.
pub struct BatchingWriter {
    buffer: Vec<ProcessedEvent>,
    threshold: usize,
}

impl BatchingWriter {
    /// The records currently buffered, in arrival order.
    pub closed spec fn buffered(&self) -> Seq<ProcessedEvent> {
        self.buffer@
    }

    /// The size that triggers an immediate flush.
    pub closed spec fn flush_threshold(&self) -> nat {
        self.threshold as nat
    }

    pub open spec fn wf(&self) -> bool {
        &&& 1 <= self.flush_threshold()
        &&& self.buffered().len() < self.flush_threshold()
    }

    /// A writer with an empty buffer.
    pub fn new(threshold: usize) -> (w: Self)
        requires
            threshold >= 1,
        ensures
            w.wf(),
            w.flush_threshold() == threshold as nat,
            w.buffered() == Seq::<ProcessedEvent>::empty(),
    {
        BatchingWriter { buffer: Vec::new(), threshold }
    }

    /// React to one record arrival, exactly as `record_step` says: the
    /// record is appended, and if the buffer has reached the threshold the
    /// whole buffer — every buffered record followed by the new one — is
    /// returned as one batch, leaving the buffer empty.
    pub fn on_record(&mut self, e: ProcessedEvent) -> (flush: Option<Vec<ProcessedEvent>>)
        requires
            old(self).wf(),
        ensures
            final(self).wf(),
            final(self).flush_threshold() == old(self).flush_threshold(),
            (final(self).buffered(), batch_view(flush)) == record_step(
                old(self).buffered(),
                old(self).flush_threshold(),
                e,
            ),
    {
        self.buffer.push(e);
        if self.buffer.len() >= self.threshold {
            let mut batch: Vec<ProcessedEvent> = Vec::new();
            core::mem::swap(&mut batch, &mut self.buffer);
            Some(batch)
        } else {
            None
        }
    }

    /// React to one timer tick, exactly as `tick_step` says: a non-empty
    /// buffer is returned whole as one batch and left empty; an empty
    /// buffer is a no-op.
    pub fn on_tick(&mut self) -> (flush: Option<Vec<ProcessedEvent>>)
        requires
            old(self).wf(),
        ensures
            final(self).wf(),
            final(self).flush_threshold() == old(self).flush_threshold(),
            (final(self).buffered(), batch_view(flush)) == tick_step(old(self).buffered()),
    {
        if self.buffer.len() > 0 {
            let mut batch: Vec<ProcessedEvent> = Vec::new();
            core::mem::swap(&mut batch, &mut self.buffer);
            Some(batch)
        } else {
            None
        }
    }

    /// How many records are currently buffered.
    pub fn buffered_len(&self) -> (n: usize)
        ensures
            n as nat == self.buffered().len(),
    {
        self.buffer.len()
    }
}

/// Law: the writer loses, duplicates and reorders nothing. Feeding any
/// records into any buffer yields flushed batches and a final buffer whose
/// concatenation is exactly the old buffer followed by the records fed.
pub proof fn lemma_feed_conserves_records(
    buf: Seq<ProcessedEvent>,
    threshold: nat,
    records: Seq<ProcessedEvent>,
)
    ensures
        feed(buf, threshold, records).1.flatten() + feed(buf, threshold, records).0 == buf
            + records,
    decreases records.len(),
{
    if records.len() == 0 {
        assert(feed(buf, threshold, records).1.flatten() =~= Seq::empty());
        assert(buf + records =~= buf);
    } else {
        let stepped = record_step(buf, threshold, records[0]);
        lemma_feed_conserves_records(stepped.0, threshold, records.skip(1));
        let rest = feed(stepped.0, threshold, records.skip(1));
        match stepped.1 {
            Some(b) => {
                assert((seq![b] + rest.1).flatten() == b + rest.1.flatten()) by {
                    assert((seq![b] + rest.1).drop_first() =~= rest.1);
                }
                assert(b + (stepped.0 + records.skip(1)) =~= buf + records);
                assert((b + rest.1.flatten()) + rest.0 =~= b + (rest.1.flatten() + rest.0));
            },
            None => {
                assert(stepped.0 + records.skip(1) =~= buf + records);
            },
        }
    }
}

/// Law of the size trigger: starting below the threshold, feeding exactly
/// enough records to reach it (and fewer than enough to reach it twice)
/// flushes exactly once; the single batch carries the old buffer followed
/// by the first records up to the threshold, and the remaining records
/// stay buffered. With an empty starting buffer and exactly `threshold`
/// records this is: one flush carrying all of them, empty buffer after.
pub proof fn lemma_feed_flushes_once(
    buf: Seq<ProcessedEvent>,
    threshold: nat,
    records: Seq<ProcessedEvent>,
)
    requires
        buf.len() < threshold,
        threshold <= buf.len() + records.len(),
        buf.len() + records.len() < 2 * threshold,
    ensures
        ({
            let take = (threshold - buf.len()) as int;
            feed(buf, threshold, records) == (
                records.skip(take),
                seq![buf + records.take(take)],
            )
        }),
    decreases records.len(),
{
    let take = (threshold - buf.len()) as int;
    let stepped = record_step(buf, threshold, records[0]);
    if buf.len() + 1 == threshold {
        assert(stepped == (Seq::<ProcessedEvent>::empty(), Some(buf.push(records[0]))));
        lemma_feed_stays_below(Seq::empty(), threshold, records.skip(1));
        assert(feed(stepped.0, threshold, records.skip(1)) == (
            Seq::empty() + records.skip(1),
            Seq::<Seq<ProcessedEvent>>::empty(),
        ));
        assert(Seq::empty() + records.skip(1) =~= records.skip(take));
        assert(buf.push(records[0]) =~= buf + records.take(take));
        assert(seq![buf + records.take(take)] + Seq::<Seq<ProcessedEvent>>::empty() =~= seq![
            buf + records.take(take),
        ]);
    } else {
        assert(stepped == (buf.push(records[0]), None::<Seq<ProcessedEvent>>));
        lemma_feed_flushes_once(buf.push(records[0]), threshold, records.skip(1));
        let take2 = (threshold - buf.len() - 1) as int;
        assert(records.skip(1).skip(take2) =~= records.skip(take));
        assert(buf.push(records[0]) + records.skip(1).take(take2) =~= buf + records.take(take));
    }
}

/// Law of the quiet case: while the threshold is out of reach, nothing is
/// flushed and the records simply accumulate in arrival order.
pub proof fn lemma_feed_stays_below(
    buf: Seq<ProcessedEvent>,
    threshold: nat,
    records: Seq<ProcessedEvent>,
)
    requires
        buf.len() + records.len() < threshold,
    ensures
        feed(buf, threshold, records) == (buf + records, Seq::<Seq<ProcessedEvent>>::empty()),
    decreases records.len(),
{
    if records.len() == 0 {
        assert(buf + records =~= buf);
    } else {
        let stepped = record_step(buf, threshold, records[0]);
        assert(stepped == (buf.push(records[0]), None::<Seq<ProcessedEvent>>));
        lemma_feed_stays_below(buf.push(records[0]), threshold, records.skip(1));
        assert(buf.push(records[0]) + records.skip(1) =~= buf + records);
    }
}

} // verus!
