//! How a worker's end reaches the routing table, and what the next call for
//! its identity then does.

use vstd::prelude::*;

use crate::router::{after_cold_start, cold_starts, lemma_no_cold_start_when_live, lemma_single_cold_start};
use crate::worker::{action_fits, next_phase, Phase, WorkerAction, WorkerEvent};

verus! {

/// A worker stops only on a shutdown, a closed mailbox, an elapsed inactivity
/// window or a broken protocol. So while calls for an identity keep coming
/// within the window and its child keeps to the protocol, the worker stays
/// live, no notice names the identity, and the router keeps sending its calls
/// to the same mailbox without starting another worker.
pub proof fn lemma_live_worker_is_reused<H>(
    pending: Seq<u8>,
    event: WorkerEvent,
    m: Map<Seq<char>, H>,
    id: Seq<char>,
    other: Seq<char>,
    mailbox: H,
    n: nat,
)
    requires
        !(event is Shutdown || event is MailboxClosed || event is IdleTimeout
            || event is OutputClosed),
        m.contains_key(id),
        other != id,
    ensures
        next_phase(pending, event) != Phase::Stopped,
        m.remove(other).contains_key(id),
        m.remove(other)[id] == m[id],
        cold_starts(m.remove(other), id, mailbox, n) == 0,
{
    lemma_no_cold_start_when_live(m.remove(other), id, mailbox, n);
}

/// A worker that receives no message for the whole inactivity window stops,
/// asks for its child to be killed and names its identity in its notice; once
/// the router applies that notice, the next call for the identity starts a new
/// worker.
pub proof fn lemma_idle_worker_is_replaced<H>(
    identity: Seq<char>,
    pending: Seq<u8>,
    action: WorkerAction,
    m: Map<Seq<char>, H>,
    mailbox: H,
)
    requires
        action_fits(action, identity, pending, WorkerEvent::IdleTimeout),
    ensures
        next_phase(pending, WorkerEvent::IdleTimeout) == Phase::Stopped,
        match action {
            WorkerAction::Stop { reply: None, notice } => notice.identity() == identity
                && !m.remove(notice.identity()).contains_key(identity) && cold_starts(
                m.remove(notice.identity()),
                identity,
                mailbox,
                1,
            ) == 1 && after_cold_start(m.remove(notice.identity()), identity, mailbox)[identity]
                == mailbox,
            _ => false,
        },
{
    lemma_single_cold_start(m.remove(identity), identity, mailbox, 1);
}

/// A child whose output closes before the sentinel fails the call in progress
/// with a protocol violation and retires its worker; once the router applies
/// the worker's notice, the next call for the identity starts a new child.
pub proof fn lemma_broken_worker_is_replaced<H>(
    identity: Seq<char>,
    pending: Seq<u8>,
    action: WorkerAction,
    m: Map<Seq<char>, H>,
    mailbox: H,
)
    requires
        action_fits(action, identity, pending, WorkerEvent::OutputClosed),
    ensures
        next_phase(pending, WorkerEvent::OutputClosed) == Phase::Stopped,
        match action {
            WorkerAction::Stop { reply: Some(Err(e)), notice } => e is ProtocolViolation
                && notice.identity() == identity && !m.remove(notice.identity()).contains_key(
                identity,
            ) && cold_starts(m.remove(notice.identity()), identity, mailbox, 1) == 1,
            _ => false,
        },
{
    lemma_single_cold_start(m.remove(identity), identity, mailbox, 1);
}

} // verus!
