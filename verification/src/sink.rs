//! The storage sink's write planning. A batch write partitions its records
//! into fixed-size chunks to respect the storage engine's batch-size limit
//! and executes the chunks sequentially as unlogged batches: there is no
//! atomicity across chunks, so a failure leaves every chunk executed before
//! it applied. The chunk plan and the bookkeeping of a chunked execution
//! are verified here; the driver that actually executes each chunk against
//! the storage session lives outside the library and reports each chunk's
//! outcome back.

use vstd::prelude::*;
use vstd::math::min;
use vstd::arithmetic::div_mod::{lemma_basic_div, lemma_div_plus_one};
use crate::model::ProcessedEvent;

verus! {

/// Upper bound on the records grouped into one storage batch.
pub const STORAGE_CHUNK_CAPACITY: usize = 100;

/// The records partitioned into maximal runs of at most `k`, in the
/// original order.
pub open spec fn chunks_of(s: Seq<ProcessedEvent>, k: nat) -> Seq<Seq<ProcessedEvent>>
    decreases s.len(),
{
    if k == 0 || s.len() == 0 {
        Seq::empty()
    } else if s.len() <= k {
        seq![s]
    } else {
        seq![s.take(k as int)] + chunks_of(s.skip(k as int), k)
    }
}

/// Law: a batch of K records is executed as exactly ceil(K / k) chunks.
pub proof fn lemma_chunks_count(s: Seq<ProcessedEvent>, k: nat)
    requires
        k >= 1,
    ensures
        chunks_of(s, k).len() == (s.len() + k - 1) / (k as int),
    decreases s.len(),
{
    if s.len() == 0 {
        lemma_basic_div(k as int - 1, k as int);
    } else if s.len() <= k {
        lemma_basic_div(s.len() as int - 1, k as int);
        lemma_div_plus_one(s.len() as int - 1, k as int);
    } else {
        lemma_chunks_count(s.skip(k as int), k);
        lemma_div_plus_one(s.len() as int - 1, k as int);
    }
}

/// Law: every chunk is non-empty and holds at most `k` records, and every
/// chunk but the last is exactly full.
pub proof fn lemma_chunks_shape(s: Seq<ProcessedEvent>, k: nat)
    requires
        k >= 1,
    ensures
        forall|i: int|
            0 <= i < chunks_of(s, k).len() ==> 1 <= (#[trigger] chunks_of(s, k)[i]).len() <= k,
        forall|i: int|
            0 <= i < chunks_of(s, k).len() - 1 ==> (#[trigger] chunks_of(s, k)[i]).len() == k,
    decreases s.len(),
{
    if s.len() == 0 || s.len() <= k {
    } else {
        lemma_chunks_shape(s.skip(k as int), k);
        assert forall|i: int| 0 <= i < chunks_of(s, k).len() implies 1 <= (#[trigger] chunks_of(
            s,
            k,
        )[i]).len() <= k by {
            if i > 0 {
                assert(chunks_of(s, k)[i] == chunks_of(s.skip(k as int), k)[i - 1]);
            }
        }
        assert forall|i: int| 0 <= i < chunks_of(s, k).len() - 1 implies (#[trigger] chunks_of(
            s,
            k,
        )[i]).len() == k by {
            if i > 0 {
                assert(chunks_of(s, k)[i] == chunks_of(s.skip(k as int), k)[i - 1]);
            }
        }
    }
}

/// Law: concatenating the chunks in order gives back exactly the original
/// records — chunking loses, duplicates and reorders nothing.
pub proof fn lemma_chunks_flatten(s: Seq<ProcessedEvent>, k: nat)
    requires
        k >= 1,
    ensures
        chunks_of(s, k).flatten() == s,
    decreases s.len(),
{
    if s.len() == 0 {
        assert(chunks_of(s, k).flatten() =~= s);
    } else if s.len() <= k {
        chunks_of(s, k).lemma_flatten_one_element();
    } else {
        lemma_chunks_flatten(s.skip(k as int), k);
        let rest = chunks_of(s.skip(k as int), k);
        assert((seq![s.take(k as int)] + rest).drop_first() =~= rest);
        assert(chunks_of(s, k).flatten() =~= s.take(k as int) + s.skip(k as int));
        assert(s.take(k as int) + s.skip(k as int) =~= s);
    }
}

/// Law: the first `i` chunks together hold exactly the first `i * k`
/// records (all of them, when `i * k` passes the end).
pub proof fn lemma_chunks_prefix(s: Seq<ProcessedEvent>, k: nat, i: int)
    requires
        k >= 1,
        0 <= i <= chunks_of(s, k).len(),
    ensures
        chunks_of(s, k).take(i).flatten() == s.take(min(i * (k as int), s.len() as int)),
    decreases s.len(),
{
    let cs = chunks_of(s, k);
    if i == 0 {
        assert(i * (k as int) == 0) by (nonlinear_arith)
            requires
                i == 0,
        ;
        assert(cs.take(0).flatten() =~= s.take(0));
    } else if s.len() <= k {
        assert(i * (k as int) == k) by (nonlinear_arith)
            requires
                i == 1,
        ;
        assert(cs.take(1) =~= cs);
        lemma_chunks_flatten(s, k);
        assert(s.take(s.len() as int) =~= s);
    } else {
        let rest = chunks_of(s.skip(k as int), k);
        lemma_chunks_prefix(s.skip(k as int), k, i - 1);
        assert((i - 1) * (k as int) == i * (k as int) - k) by (nonlinear_arith);
        assert((i - 1) * (k as int) >= 0) by (nonlinear_arith)
            requires
                i >= 1,
                k >= 1,
        ;
        assert(cs.take(i).len() == i);
        assert(cs.take(i).drop_first() =~= rest.take(i - 1));
        assert(cs.take(i).first() == s.take(k as int));
        assert(cs.take(i).flatten() == cs.take(i).first() + cs.take(i).drop_first().flatten());
        let m = min((i - 1) * (k as int), s.len() - k);
        assert(cs.take(i).flatten() == s.take(k as int) + s.skip(k as int).take(m));
        assert(s.take(k as int) + s.skip(k as int).take(m) =~= s.take(
            min(i * (k as int), s.len() as int),
        ));
    }
}

/// Partition the records into storage chunks, exactly as `chunks_of` says,
/// preserving the original order.
pub fn plan_chunks(events: Vec<ProcessedEvent>) -> (chunks: Vec<Vec<ProcessedEvent>>)
    ensures
        chunks@.map_values(|c: Vec<ProcessedEvent>| c@) == chunks_of(
            events@,
            STORAGE_CHUNK_CAPACITY as nat,
        ),
{
    let ghost all = events@;
    let mut rest = events;
    let mut chunks: Vec<Vec<ProcessedEvent>> = Vec::new();
    while rest.len() > 0
        invariant
            chunks@.map_values(|c: Vec<ProcessedEvent>| c@) + chunks_of(
                rest@,
                STORAGE_CHUNK_CAPACITY as nat,
            ) =~= chunks_of(all, STORAGE_CHUNK_CAPACITY as nat),
        decreases rest.len(),
    {
        let ghost before = rest@;
        let ghost planned = chunks@.map_values(|c: Vec<ProcessedEvent>| c@);
        if rest.len() <= STORAGE_CHUNK_CAPACITY {
            let mut chunk = rest;
            rest = Vec::new();
            chunks.push(chunk);
            proof {
                assert(chunks@.map_values(|c: Vec<ProcessedEvent>| c@) =~= planned + seq![before]);
                assert(planned + seq![before] + chunks_of(
                    rest@,
                    STORAGE_CHUNK_CAPACITY as nat,
                ) =~= planned + chunks_of(before, STORAGE_CHUNK_CAPACITY as nat));
            }
        } else {
            let mut chunk = rest;
            let tail = chunk.split_off(STORAGE_CHUNK_CAPACITY);
            rest = tail;
            chunks.push(chunk);
            proof {
                assert(chunks@.map_values(|c: Vec<ProcessedEvent>| c@) =~= planned + seq![
                    before.take(STORAGE_CHUNK_CAPACITY as int),
                ]);
                assert(planned + seq![before.take(STORAGE_CHUNK_CAPACITY as int)] + chunks_of(
                    rest@,
                    STORAGE_CHUNK_CAPACITY as nat,
                ) =~= planned + chunks_of(before, STORAGE_CHUNK_CAPACITY as nat));
            }
        }
    }
    proof {
        assert(chunks@.map_values(|c: Vec<ProcessedEvent>| c@) + chunks_of(
            rest@,
            STORAGE_CHUNK_CAPACITY as nat,
        ) =~= chunks@.map_values(|c: Vec<ProcessedEvent>| c@));
    }
    chunks
}

/// One bound parameter row of the prepared insert, in exactly the column
/// order of the storage schema. The order is significant: the driver binds
/// the fields positionally.
pub struct StorageRow {
    pub room_id: String,
    pub timestamp: i64,
    pub event_id: String,
    pub event_type: String,
    pub user_id: String,
    pub payload: String,
    pub metadata_json: String,
    pub server_timestamp: i64,
}

/// Map a record onto the insert's parameter row.
pub fn storage_row(e: &ProcessedEvent) -> (r: StorageRow)
    ensures
        r.room_id@ == e@.room_id,
        r.timestamp as int == e@.timestamp,
        r.event_id@ == e@.event_id,
        r.event_type@ == e@.event_type,
        r.user_id@ == e@.user_id,
        r.payload@ == e@.payload,
        r.metadata_json@ == e@.metadata_json,
        r.server_timestamp as int == e@.server_timestamp,
{
    StorageRow {
        room_id: e.room_id.clone(),
        timestamp: e.timestamp,
        event_id: e.event_id.clone(),
        event_type: e.event_type.clone(),
        user_id: e.user_id.clone(),
        payload: e.payload.clone(),
        metadata_json: e.metadata_json.clone(),
        server_timestamp: e.server_timestamp,
    }
}

/// The parameterized insert statement the rows are bound to, parameters in
/// exactly the `StorageRow` field order.
pub fn insert_statement() -> (s: &'static str)
    ensures
        s@
            == "INSERT INTO messages (room_id, timestamp, event_id, event_type, user_id, payload, metadata_json, server_timestamp) VALUES (?, ?, ?, ?, ?, ?, ?, ?)"@,
{
    "INSERT INTO messages (room_id, timestamp, event_id, event_type, user_id, payload, metadata_json, server_timestamp) VALUES (?, ?, ?, ?, ?, ?, ?, ?)"
}

/// Bookkeeping of one chunked batch write. The chunks are executed one at
/// a time; each outcome is reported back. `stored` is what the storage
/// engine has durably applied so far: a failure stops the execution but
/// takes nothing already applied back.
pub struct BatchExecution {
    chunks: Vec<Vec<ProcessedEvent>>,
    next: usize,
    failed: bool,
    records: Ghost<Seq<ProcessedEvent>>,
}

impl BatchExecution {
    /// The chunk plan, in execution order.
    pub closed spec fn plan(&self) -> Seq<Seq<ProcessedEvent>> {
        self.chunks@.map_values(|c: Vec<ProcessedEvent>| c@)
    }

    /// The records the batch write was asked to store.
    pub closed spec fn records(&self) -> Seq<ProcessedEvent> {
        self.records@
    }

    /// How many chunks have been executed successfully.
    pub closed spec fn executed(&self) -> nat {
        self.next as nat
    }

    /// Whether a chunk execution has failed.
    pub closed spec fn has_failed(&self) -> bool {
        self.failed
    }

    /// What the storage engine has applied: every successfully executed
    /// chunk, in order.
    pub open spec fn stored(&self) -> Seq<ProcessedEvent> {
        self.plan().take(self.executed() as int).flatten()
    }

    pub open spec fn wf(&self) -> bool {
        &&& self.plan() == chunks_of(self.records(), STORAGE_CHUNK_CAPACITY as nat)
        &&& self.executed() <= self.plan().len()
        &&& (self.has_failed() ==> self.executed() < self.plan().len())
    }

    /// The execution is over: everything was applied, or a chunk failed.
    pub open spec fn is_done(&self) -> bool {
        self.has_failed() || self.executed() == self.plan().len()
    }

    /// Plan the chunked execution of the given records. On empty input the
    /// execution is already done, successfully — a no-op.
    pub fn start(events: Vec<ProcessedEvent>) -> (b: Self)
        ensures
            b.wf(),
            b.records() == events@,
            b.executed() == 0,
            !b.has_failed(),
    {
        let ghost records = events@;
        let chunks = plan_chunks(events);
        BatchExecution { chunks, next: 0, failed: false, records: Ghost(records) }
    }

    /// The next chunk to execute, if the execution is not done yet.
    pub fn next_chunk(&self) -> (c: Option<&Vec<ProcessedEvent>>)
        requires
            self.wf(),
        ensures
            match c {
                Some(v) => !self.is_done() && v@ == self.plan()[self.executed() as int],
                None => self.is_done(),
            },
    {
        if self.failed {
            None
        } else if self.next < self.chunks.len() {
            Some(&self.chunks[self.next])
        } else {
            None
        }
    }

    /// Note the outcome of executing the current chunk. On success its
    /// records are now stored; on failure nothing more is stored and the
    /// execution stops, keeping what earlier chunks applied.
    pub fn on_chunk_result(&mut self, ok: bool)
        requires
            old(self).wf(),
            !old(self).is_done(),
        ensures
            final(self).wf(),
            final(self).records() == old(self).records(),
            final(self).plan() == old(self).plan(),
            final(self).is_done() == (old(self).executed() + 1 == old(self).plan().len() || !ok),
            if ok {
                &&& final(self).executed() == old(self).executed() + 1
                &&& !final(self).has_failed()
                &&& final(self).stored() == old(self).stored() + old(self).plan()[old(
                    self,
                ).executed() as int]
            } else {
                &&& final(self).has_failed()
                &&& final(self).executed() == old(self).executed()
                &&& final(self).stored() == old(self).stored()
            },
    {
        if ok {
            let ghost i = self.next as int;
            let n = self.chunks.len();
            assert(self.next < n);
            self.next = self.next + 1;
            proof {
                assert(self.plan().take(i + 1) =~= self.plan().take(i).push(self.plan()[i]));
                self.plan().take(i).lemma_flatten_push(self.plan()[i]);
            }
        } else {
            self.failed = true;
        }
    }

    /// Whether the execution is over.
    pub fn done(&self) -> (d: bool)
        requires
            self.wf(),
        ensures
            d == self.is_done(),
    {
        self.failed || self.next >= self.chunks.len()
    }

    /// Whether every chunk was applied.
    pub fn succeeded(&self) -> (s: bool)
        ensures
            s == !self.has_failed(),
    {
        !self.failed
    }
}

/// Law of partial failure: at any point of a chunked execution, what is
/// stored is exactly the leading records of the input — `executed()` full
/// chunks of them. A failure at chunk `f` thus leaves precisely the first
/// `f * STORAGE_CHUNK_CAPACITY` records applied, never a record of a later
/// chunk and never a hole.
pub proof fn lemma_stored_is_input_prefix(b: BatchExecution)
    requires
        b.wf(),
    ensures
        b.stored() == b.records().take(
            min(
                b.executed() as int * (STORAGE_CHUNK_CAPACITY as int),
                b.records().len() as int,
            ),
        ),
{
    lemma_chunks_prefix(b.records(), STORAGE_CHUNK_CAPACITY as nat, b.executed() as int);
}

} // verus!
