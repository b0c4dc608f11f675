//! Orchestration core of a batch loudness meter: the per-file result cache,
//! the rules that pick and name target files, the decisions a batch run and
//! a single measurement take at each step, a lock-guarded session that
//! parallel workers share, and the properties of whole runs.

pub mod batch;
pub mod cache;
pub mod laws;
pub mod measure;
pub mod naming;
pub mod shared;
