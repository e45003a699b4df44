//! The lifecycle notification a worker sends to the router, and the error
//! taxonomy of a routed call.

use vstd::prelude::*;

verus! {

/// A message from a worker to the router's maintenance loop.
#[derive(Debug)]
pub enum DirectorCommand {
    /// The worker for `id` has left its loop and its child has been killed;
    /// the router must forget `id`.
    WorkerTerminated { id: String },
}

impl DirectorCommand {
    /// The identity this notification is about.
    pub open spec fn identity(&self) -> Seq<char> {
        match self {
            DirectorCommand::WorkerTerminated { id } => id@,
        }
    }
}

/// Why a routed call failed.
#[derive(Debug)]
pub enum ExecError {
    /// The child process could not be started or its pipes captured; no
    /// worker and no table entry resulted.
    SpawnFailure { detail: String },
    /// Writing the request to the child failed; the worker stays alive.
    WriteFailure,
    /// The child's output closed before the sentinel; the worker retires.
    ProtocolViolation,
    /// The worker's mailbox was closed: it had already exited.
    WorkerUnavailable,
    /// The worker dropped the reply slot without answering.
    WorkerDroppedChannel,
}

} // verus!
