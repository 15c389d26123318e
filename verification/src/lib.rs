//! A verified job-orchestration core for batch image compression.
//!
//! A batch of file paths becomes a set of stateful jobs; the dispatcher
//! decides per batch whether jobs may run concurrently or must run
//! serially, drives each job through its status transitions exactly once
//! unless it is explicitly resubmitted, and hands every state change to
//! the caller for publication.
//!
//! The crate holds the decision logic: the format catalog, the path
//! computations, the planning and checking of codec runs, the job store,
//! the strategy rule, and the dispatcher. The pixel-level codec work,
//! file I/O, and the event transport stay with the caller, which feeds
//! their outcomes back in as plain values.

pub mod compresser;
pub mod converter;
pub mod dispatcher;
pub mod format_meta;
pub mod paths;
pub mod store;
pub mod strategy;
