use event_pipeline::handoff::HandoffQueue;
use event_pipeline::model::ProcessedEvent;
use event_pipeline::sink::{plan_chunks, BatchExecution};
use event_pipeline::writer::BatchingWriter;

fn record(n: i64) -> ProcessedEvent {
    ProcessedEvent {
        event_type: String::from("chat"),
        user_id: format!("user-{}", n),
        room_id: String::from("room"),
        journey_id: None,
        timestamp: n,
        payload: String::new(),
        metadata_json: String::from("{}"),
        event_id: format!("id-{}", n),
        server_timestamp: n,
    }
}

#[test]
fn threshold_of_500_flushes_once_with_all_500() {
    let mut writer = BatchingWriter::new(500);
    let mut flushes: Vec<Vec<ProcessedEvent>> = Vec::new();
    for n in 0..500i64 {
        if let Some(batch) = writer.on_record(record(n)) {
            flushes.push(batch);
        }
    }
    assert_eq!(flushes.len(), 1);
    assert_eq!(flushes[0].len(), 500);
    for (n, rec) in flushes[0].iter().enumerate() {
        assert_eq!(rec.timestamp, n as i64);
    }
    assert_eq!(writer.buffered_len(), 0);
}

#[test]
fn tick_flushes_everything_buffered() {
    let mut writer = BatchingWriter::new(500);
    for n in 0..7i64 {
        assert!(writer.on_record(record(n)).is_none());
    }
    let batch = writer.on_tick().expect("non-empty buffer flushes on tick");
    assert_eq!(batch.len(), 7);
    for (n, rec) in batch.iter().enumerate() {
        assert_eq!(rec.timestamp, n as i64);
    }
    assert_eq!(writer.buffered_len(), 0);
}

#[test]
fn tick_on_empty_buffer_is_a_no_op() {
    let mut writer = BatchingWriter::new(500);
    assert!(writer.on_tick().is_none());
    assert_eq!(writer.buffered_len(), 0);
}

#[test]
fn records_550_flush_once_at_500_and_50_stay_buffered() {
    let mut writer = BatchingWriter::new(500);
    let mut flushes: Vec<Vec<ProcessedEvent>> = Vec::new();
    for n in 0..550i64 {
        if let Some(batch) = writer.on_record(record(n)) {
            flushes.push(batch);
        }
    }
    assert_eq!(flushes.len(), 1);
    assert_eq!(flushes[0].len(), 500);
    assert_eq!(flushes[0][499].timestamp, 499);
    assert_eq!(writer.buffered_len(), 50);
    let rest = writer.on_tick().expect("the remainder flushes on the next tick");
    assert_eq!(rest.len(), 50);
    assert_eq!(rest[0].timestamp, 500);
    assert_eq!(rest[49].timestamp, 549);
}

#[test]
fn chunks_are_ceil_of_k_over_100_at_most_100_each_in_order() {
    let records: Vec<ProcessedEvent> = (0..250i64).map(record).collect();
    let chunks = plan_chunks(records);
    assert_eq!(chunks.len(), 3);
    assert_eq!(chunks[0].len(), 100);
    assert_eq!(chunks[1].len(), 100);
    assert_eq!(chunks[2].len(), 50);
    let mut n: i64 = 0;
    for chunk in &chunks {
        for rec in chunk {
            assert_eq!(rec.timestamp, n);
            n += 1;
        }
    }
    assert_eq!(n, 250);
}

#[test]
fn chunks_of_empty_and_exact_multiples() {
    assert_eq!(plan_chunks(Vec::new()).len(), 0);
    let records: Vec<ProcessedEvent> = (0..200i64).map(record).collect();
    let chunks = plan_chunks(records);
    assert_eq!(chunks.len(), 2);
    assert_eq!(chunks[0].len(), 100);
    assert_eq!(chunks[1].len(), 100);
    let one: Vec<ProcessedEvent> = (0..1i64).map(record).collect();
    assert_eq!(plan_chunks(one).len(), 1);
}

#[test]
fn batch_execution_of_empty_input_is_done_successfully() {
    let exec = BatchExecution::start(Vec::new());
    assert!(exec.done());
    assert!(exec.succeeded());
    assert!(exec.next_chunk().is_none());
}

#[test]
fn failure_on_third_of_five_chunks_keeps_first_two_applied() {
    let records: Vec<ProcessedEvent> = (0..500i64).map(record).collect();
    let mut exec = BatchExecution::start(records);
    let mut applied: Vec<ProcessedEvent> = Vec::new();
    // first two chunks succeed
    for _ in 0..2 {
        let chunk = exec.next_chunk().expect("chunk pending");
        for rec in chunk {
            applied.push(rec.duplicate());
        }
        exec.on_chunk_result(true);
    }
    // the third fails
    let third = exec.next_chunk().expect("third chunk pending");
    assert_eq!(third.len(), 100);
    assert_eq!(third[0].timestamp, 200);
    exec.on_chunk_result(false);
    // execution is over, reported failed, nothing after chunk two applied
    assert!(exec.done());
    assert!(!exec.succeeded());
    assert!(exec.next_chunk().is_none());
    assert_eq!(applied.len(), 200);
    for (n, rec) in applied.iter().enumerate() {
        assert_eq!(rec.timestamp, n as i64);
    }
}

#[test]
fn batch_execution_completes_when_every_chunk_succeeds() {
    let records: Vec<ProcessedEvent> = (0..150i64).map(record).collect();
    let mut exec = BatchExecution::start(records);
    let mut seen: usize = 0;
    while let Some(chunk) = exec.next_chunk() {
        seen += chunk.len();
        exec.on_chunk_result(true);
    }
    assert!(exec.done());
    assert!(exec.succeeded());
    assert_eq!(seen, 150);
}

#[test]
fn full_handoff_queue_rejects_without_blocking() {
    let mut queue = HandoffQueue::with_capacity(3);
    assert!(queue.try_send(record(0)).is_ok());
    assert!(queue.try_send(record(1)).is_ok());
    assert!(queue.try_send(record(2)).is_ok());
    assert!(queue.is_full());
    let rejected = queue.try_send(record(3));
    let back = rejected.expect_err("send on a full queue fails immediately");
    assert_eq!(back.timestamp, 3);
    assert_eq!(queue.len(), 3);
}

#[test]
fn handoff_queue_is_fifo() {
    let mut queue = HandoffQueue::with_capacity(10);
    for n in 0..4i64 {
        assert!(queue.try_send(record(n)).is_ok());
    }
    for n in 0..4i64 {
        let rec = queue.recv().expect("pending record");
        assert_eq!(rec.timestamp, n);
    }
    assert!(queue.recv().is_none());
    // space freed by recv can be used again
    assert!(queue.try_send(record(9)).is_ok());
    assert_eq!(queue.len(), 1);
}
