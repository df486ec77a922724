//! The consumer loop's decisions. For every message received from the
//! queue the driver calls `accept_message`, then commits the message's
//! offset regardless of the outcome — a decode failure or a hand-off drop
//! consumes the message for good. The batching writer's driver calls
//! `record_flush` with each flush outcome.

use vstd::prelude::*;
use crate::codec::{decode_record, decode_spec};
use crate::handoff::HandoffQueue;
use crate::metrics::{MetricsCounter, record_error};

verus! {

/// What became of one received message.
#[derive(PartialEq, Eq, Structural, Clone, Copy, Debug)]
pub enum MessageOutcome {
    /// Decoded and handed off to the batching writer.
    Forwarded,
    /// The body was not a well-formed record: counted as an error and
    /// skipped.
    DecodeFailed,
    /// The hand-off queue was full: the record was dropped rather than
    /// blocking the receive path, and counted as an error.
    Dropped,
}

/// Decide one received message: decode it, attempt a non-blocking hand-off,
/// and count errors. The success counter is only advanced by storage
/// flushes, never here; the offset is committed by the driver in every
/// case.
pub fn accept_message(
    payload: &str,
    queue: &mut HandoffQueue,
    metrics: &mut MetricsCounter,
) -> (outcome: MessageOutcome)
    requires
        old(queue).wf(),
        old(metrics).total_errors < u64::MAX,
    ensures
        final(queue).wf(),
        final(queue).cap() == old(queue).cap(),
        final(metrics).total_events == old(metrics).total_events,
        final(metrics).interval_secs == old(metrics).interval_secs,
        match decode_spec(payload@) {
            None => {
                &&& outcome == MessageOutcome::DecodeFailed
                &&& final(queue).pending() == old(queue).pending()
                &&& final(metrics).total_errors == old(metrics).total_errors + 1
            },
            Some(rec) => if old(queue).pending().len() < old(queue).cap() {
                &&& outcome == MessageOutcome::Forwarded
                &&& final(queue).pending().len() == old(queue).pending().len() + 1
                &&& final(queue).pending().drop_last() == old(queue).pending()
                &&& final(queue).pending().last()@ == rec
                &&& final(metrics).total_errors == old(metrics).total_errors
            } else {
                &&& outcome == MessageOutcome::Dropped
                &&& final(queue).pending() == old(queue).pending()
                &&& final(metrics).total_errors == old(metrics).total_errors + 1
            },
        },
{
    match decode_record(payload) {
        None => {
            record_error(metrics);
            MessageOutcome::DecodeFailed
        },
        Some(rec) => {
            let ghost before = queue.pending();
            match queue.try_send(rec) {
                Ok(()) => {
                    proof {
                        assert(queue.pending().drop_last() =~= before);
                    }
                    MessageOutcome::Forwarded
                },
                Err(_dropped) => {
                    record_error(metrics);
                    MessageOutcome::Dropped
                },
            }
        },
    }
}

/// Note a flush outcome in the metrics: a successful flush counts every
/// record of the batch as stored; a failed flush counts one storage error
/// (the batch is discarded by the writer's driver either way).
pub fn record_flush(metrics: &mut MetricsCounter, batch_len: u64, ok: bool)
    requires
        ok ==> old(metrics).total_events + batch_len <= u64::MAX,
        !ok ==> old(metrics).total_errors < u64::MAX,
    ensures
        final(metrics).interval_secs == old(metrics).interval_secs,
        if ok {
            &&& final(metrics).total_events == old(metrics).total_events + batch_len
            &&& final(metrics).total_errors == old(metrics).total_errors
        } else {
            &&& final(metrics).total_events == old(metrics).total_events
            &&& final(metrics).total_errors == old(metrics).total_errors + 1
        },
{
    if ok {
        metrics.total_events = metrics.total_events + batch_len;
    } else {
        record_error(metrics);
    }
}

} // verus!
