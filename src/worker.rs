//! The decisions of a worker actor.
//!
//! A worker owns one child process. Its loop waits for a message (bounded by
//! the inactivity window), writes requests to the child, reads output until the
//! sentinel, and replies. `Worker` holds the state of that loop and decides,
//! for each event the loop observes, the state that follows and what the loop
//! must do next; the loop itself performs the I/O.

use vstd::prelude::*;

use crate::frame::{
    contains_seq, encode_request, extract_response, has_sentinel, request_line, response_text,
    sentinel,
};
use crate::messages::{DirectorCommand, ExecError};

verus! {

/// Seconds without a message after which a worker terminates itself.
pub const IDLE_TIMEOUT_SECONDS: u64 = 60;

/// Capacity of a worker's mailbox.
pub const MAILBOX_CAPACITY: usize = 32;

/// Where a worker's loop stands.
#[derive(Debug, Clone, Copy, PartialEq, Eq, Structural)]
pub enum Phase {
    /// Waiting for the next message.
    Idle,
    /// A request line is being written to the child.
    Writing,
    /// Output is being read until the sentinel appears.
    Reading,
    /// The loop has ended; the child must be killed and the router told.
    Stopped,
}

/// What the worker's loop observed.
#[derive(Debug)]
pub enum WorkerEvent {
    /// A request arrived in the mailbox.
    Execute { payload: String },
    /// A shutdown was requested.
    Shutdown,
    /// No sender of the mailbox remains.
    MailboxClosed,
    /// The inactivity window passed with no message.
    IdleTimeout,
    /// The request line was written in full.
    WriteDone,
    /// Writing the request line failed.
    WriteFailed,
    /// The child wrote these bytes.
    Output { chunk: Vec<u8> },
    /// The child's output ended, or reading it failed.
    OutputClosed,
}

/// What the worker's loop must do next.
#[derive(Debug)]
pub enum WorkerAction {
    /// Write these bytes to the child's input.
    Write { line: Vec<u8> },
    /// Read the next chunk of the child's output.
    Read,
    /// Answer the current request, then wait for the next message.
    Reply { result: Result<String, ExecError> },
    /// Answer the current request if there is one, then leave the loop: kill
    /// the child and send `notice` to the router.
    Stop { reply: Option<Result<String, ExecError>>, notice: DirectorCommand },
}

/// Whether a worker in `phase` can observe `event`.
pub open spec fn accepts(phase: Phase, event: WorkerEvent) -> bool {
    match phase {
        Phase::Idle => event is Execute || event is Shutdown || event is MailboxClosed
            || event is IdleTimeout,
        Phase::Writing => event is WriteDone || event is WriteFailed,
        Phase::Reading => event is Output || event is OutputClosed,
        Phase::Stopped => false,
    }
}

/// The output accumulated after `event`, from `pending` before it.
pub open spec fn next_pending(pending: Seq<u8>, event: WorkerEvent) -> Seq<u8> {
    match event {
        WorkerEvent::Output { chunk } => if contains_seq(pending + chunk@, sentinel()) {
            Seq::empty()
        } else {
            pending + chunk@
        },
        WorkerEvent::Execute { .. } => Seq::empty(),
        WorkerEvent::WriteDone => Seq::empty(),
        _ => pending,
    }
}

/// The phase after `event`, from `pending` output before it.
pub open spec fn next_phase(pending: Seq<u8>, event: WorkerEvent) -> Phase {
    match event {
        WorkerEvent::Execute { .. } => Phase::Writing,
        WorkerEvent::Shutdown => Phase::Stopped,
        WorkerEvent::MailboxClosed => Phase::Stopped,
        WorkerEvent::IdleTimeout => Phase::Stopped,
        WorkerEvent::WriteDone => Phase::Reading,
        WorkerEvent::WriteFailed => Phase::Idle,
        WorkerEvent::Output { chunk } => if contains_seq(pending + chunk@, sentinel()) {
            Phase::Idle
        } else {
            Phase::Reading
        },
        WorkerEvent::OutputClosed => Phase::Stopped,
    }
}

/// Whether `notice` tells the router that the worker for `identity` ended.
pub open spec fn notifies(notice: DirectorCommand, identity: Seq<char>) -> bool {
    notice.identity() == identity
}

/// Whether `action` is what a worker for `identity`, with `pending` output,
/// must do after `event`.
pub open spec fn action_fits(
    action: WorkerAction,
    identity: Seq<char>,
    pending: Seq<u8>,
    event: WorkerEvent,
) -> bool {
    match event {
        WorkerEvent::Execute { payload } => match action {
            WorkerAction::Write { line } => line@ == request_line(payload@),
            _ => false,
        },
        WorkerEvent::WriteDone => action is Read,
        WorkerEvent::WriteFailed => match action {
            WorkerAction::Reply { result: Err(e) } => e is WriteFailure,
            _ => false,
        },
        WorkerEvent::Output { chunk } => if contains_seq(pending + chunk@, sentinel()) {
            match action {
                WorkerAction::Reply { result: Ok(text) } => text@ == response_text(
                    pending + chunk@,
                ),
                _ => false,
            }
        } else {
            action is Read
        },
        WorkerEvent::OutputClosed => match action {
            WorkerAction::Stop { reply: Some(Err(e)), notice } => e is ProtocolViolation
                && notifies(notice, identity),
            _ => false,
        },
        _ => match action {
            WorkerAction::Stop { reply: None, notice } => notifies(notice, identity),
            _ => false,
        },
    }
}

/// A worker takes a request only when idle, so two requests never interleave:
/// no payload is written while another request is being written or its output
/// read, and each request's output is gathered from a buffer emptied once its
/// own line was written.
pub proof fn lemma_requests_never_interleave(
    phase: Phase,
    pending: Seq<u8>,
    identity: Seq<char>,
    event: WorkerEvent,
    action: WorkerAction,
)
    requires
        accepts(phase, event),
        action_fits(action, identity, pending, event),
    ensures
        action is Write ==> phase == Phase::Idle && event is Execute,
        phase == Phase::Writing || phase == Phase::Reading ==> !(action is Write),
        event is WriteDone ==> next_pending(pending, event) == Seq::<u8>::empty()
            && next_phase(pending, event) == Phase::Reading,
{
}

/// The state of one worker's loop.
pub struct Worker {
    id: String,
    phase: Phase,
    pending: Vec<u8>,
}

impl Worker {
    /// The identity this worker serves.
    pub closed spec fn identity(&self) -> Seq<char> {
        self.id@
    }

    /// Where the loop stands.
    pub closed spec fn phase(&self) -> Phase {
        self.phase
    }

    /// The output read so far for the request in progress.
    pub closed spec fn pending(&self) -> Seq<u8> {
        self.pending@
    }

    /// A worker for `id` whose child has just been spawned: idle, with nothing
    /// read.
    pub fn new(id: String) -> (w: Worker)
        ensures
            w.identity() == id@,
            w.phase() == Phase::Idle,
            w.pending() == Seq::<u8>::empty(),
    {
        Worker { id, phase: Phase::Idle, pending: Vec::new() }
    }

    /// Where the loop stands.
    pub fn current_phase(&self) -> (p: Phase)
        ensures
            p == self.phase(),
    {
        self.phase
    }

    /// Whether the loop may hand `event` to `step` now.
    pub fn can_accept(&self, event: &WorkerEvent) -> (r: bool)
        ensures
            r == accepts(self.phase(), *event),
    {
        match self.phase {
            Phase::Idle => match event {
                WorkerEvent::Execute { .. } => true,
                WorkerEvent::Shutdown => true,
                WorkerEvent::MailboxClosed => true,
                WorkerEvent::IdleTimeout => true,
                _ => false,
            },
            Phase::Writing => match event {
                WorkerEvent::WriteDone => true,
                WorkerEvent::WriteFailed => true,
                _ => false,
            },
            Phase::Reading => match event {
                WorkerEvent::Output { .. } => true,
                WorkerEvent::OutputClosed => true,
                _ => false,
            },
            Phase::Stopped => false,
        }
    }

    fn notice(&self) -> (n: DirectorCommand)
        ensures
            notifies(n, self.identity()),
    {
        DirectorCommand::WorkerTerminated { id: self.id.clone() }
    }

    /// Takes one observed event and decides the next state and action.
    pub fn step(&mut self, event: WorkerEvent) -> (action: WorkerAction)
        requires
            accepts(old(self).phase(), event),
        ensures
            final(self).identity() == old(self).identity(),
            final(self).phase() == next_phase(old(self).pending(), event),
            final(self).pending() == next_pending(old(self).pending(), event),
            action_fits(action, old(self).identity(), old(self).pending(), event),
    {
        match event {
            WorkerEvent::Execute { payload } => {
                self.phase = Phase::Writing;
                self.pending = Vec::new();
                let line = encode_request(payload.as_str());
                WorkerAction::Write { line }
            },
            WorkerEvent::WriteDone => {
                self.phase = Phase::Reading;
                self.pending = Vec::new();
                WorkerAction::Read
            },
            WorkerEvent::WriteFailed => {
                self.phase = Phase::Idle;
                WorkerAction::Reply { result: Err(ExecError::WriteFailure) }
            },
            WorkerEvent::Output { chunk } => {
                let ghost before = self.pending@;
                let mut i: usize = 0;
                while i < chunk.len()
                    invariant
                        self.id@ == old(self).id@,
                        self.phase == old(self).phase,
                        i <= chunk@.len(),
                        self.pending@ == before + chunk@.subrange(0, i as int),
                    decreases chunk@.len() - i,
                {
                    self.pending.push(chunk[i]);
                    i = i + 1;
                    assert(self.pending@ =~= before + chunk@.subrange(0, i as int));
                }
                assert(chunk@.subrange(0, i as int) =~= chunk@);
                if has_sentinel(self.pending.as_slice()) {
                    let text = extract_response(self.pending.as_slice());
                    self.phase = Phase::Idle;
                    self.pending = Vec::new();
                    WorkerAction::Reply { result: Ok(text) }
                } else {
                    WorkerAction::Read
                }
            },
            WorkerEvent::OutputClosed => {
                self.phase = Phase::Stopped;
                let notice = self.notice();
                WorkerAction::Stop { reply: Some(Err(ExecError::ProtocolViolation)), notice }
            },
            _ => {
                self.phase = Phase::Stopped;
                let notice = self.notice();
                WorkerAction::Stop { reply: None, notice }
            },
        }
    }
}

} // verus!
