//! Compute-dispatch core: routes execution requests to per-identity workers,
//! each of which drives one child process over a line-framed protocol.
//!
//! This crate holds the decisions of that system: how a runtime becomes a
//! command line, how a worker reacts to each message, write result and chunk
//! of output, and how the routing table changes. The processes, pipes, timers
//! and channels are driven by an async shell around it.

pub mod frame;
pub mod lifecycle;
pub mod messages;
pub mod router;
pub mod runtime;
pub mod worker;

pub use messages::{DirectorCommand, ExecError};
pub use runtime::Runtime;
pub use worker::Worker;
