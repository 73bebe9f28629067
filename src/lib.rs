//! Tee a byte stream into a rotating, size-bounded sequence of log files.
//!
//! The library holds every decision of the pipeline: how files are named,
//! which bytes are safe to write now, when to start a new file and which old
//! file to delete. The program around it performs the reads, writes, clock
//! readings and deletions that those decisions call for.

pub mod naming;
pub mod buffer;
pub mod writer;
pub mod pipeline;
pub mod config;
pub mod retention;
pub mod ingest;
