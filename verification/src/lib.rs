//! A verified bridge between a deterministic simulation host and a pluggable
//! test workload.
//!
//! The host owns simulated time, randomness and configuration; the workload
//! calls back into it to log, read options, obtain deterministic random
//! numbers, resolve one-shot promises and report metrics.  Everything that
//! crosses the boundary is modeled here over plain values: text as
//! null-byte-free UTF-8 byte strings, host resources as explicit state
//! machines, and the host-side effects of each call as views that the
//! contracts pin down exactly.

pub mod context;
pub mod decode;
pub mod error;
pub mod marshal;
pub mod metrics;
pub mod options;
pub mod promise;
pub mod severity;
pub mod table;
