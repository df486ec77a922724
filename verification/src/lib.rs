//! Core of a streaming event-ingestion pipeline: events are decoded from a
//! JSON wire form, buffered by a batching writer with size and time flush
//! triggers, partitioned into bounded chunks for storage writes, and counted
//! by process-wide metrics. The buffering, flushing, chunking and
//! backpressure rules are verified; the network edges live outside the
//! library.

pub mod codec;
pub mod consumer;
pub mod event;
pub mod handoff;
pub mod ingress;
pub mod json;
pub mod metrics;
pub mod model;
pub mod processor;
pub mod sink;
pub mod writer;
