//! Clipboard history core: a deduplicating poller feeds captured text into an
//! append-only record store and pulses a change bus for consumers.

pub mod record;
pub mod db;
pub mod clipboard;
pub mod bus;
pub mod pipeline;
