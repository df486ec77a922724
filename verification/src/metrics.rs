//! Process-wide event and error counters with a configurable reporting
//! interval. The counters are modelled as an explicit context that is
//! created once at startup and handed to every task that records outcomes;
//! the periodic reporter only reads them.

use vstd::prelude::*;

verus! {

/// Monotonically increasing counters of stored events and of errors
/// (decode failures, hand-off drops, storage failures), plus the
/// reporting interval in seconds chosen at startup.
pub struct MetricsCounter {
    pub total_events: u64,
    pub total_errors: u64,
    pub interval_secs: u64,
}

/// Create the metrics context with a caller-chosen reporting interval.
/// Both counters start at zero and are never reset afterwards.
pub fn init_with_interval(interval_secs: u64) -> (m: MetricsCounter)
    ensures
        m.total_events == 0,
        m.total_errors == 0,
        m.interval_secs == interval_secs,
{
    MetricsCounter { total_events: 0, total_errors: 0, interval_secs }
}

/// Create the metrics context with the default reporting interval of 5 s.
pub fn init() -> (m: MetricsCounter)
    ensures
        m.total_events == 0,
        m.total_errors == 0,
        m.interval_secs == 5,
{
    init_with_interval(5)
}

/// Record a successfully stored event: the success counter grows by one
/// and nothing else changes.
pub fn record_success(m: &mut MetricsCounter)
    requires
        old(m).total_events < u64::MAX,
    ensures
        final(m).total_events == old(m).total_events + 1,
        final(m).total_errors == old(m).total_errors,
        final(m).interval_secs == old(m).interval_secs,
{
    m.total_events = m.total_events + 1;
}

/// Record a failure (decode error, hand-off drop or storage error): the
/// error counter grows by one and nothing else changes.
pub fn record_error(m: &mut MetricsCounter)
    requires
        old(m).total_errors < u64::MAX,
    ensures
        final(m).total_errors == old(m).total_errors + 1,
        final(m).total_events == old(m).total_events,
        final(m).interval_secs == old(m).interval_secs,
{
    m.total_errors = m.total_errors + 1;
}

} // verus!
