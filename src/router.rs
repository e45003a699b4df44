//! The router's routing table and the decisions around one routed call.
//!
//! The table maps an identity to the mailbox of its live worker. A caller
//! looks its identity up; on a miss it enters the exclusive section, looks up
//! again, and only then cold-starts a worker and installs its mailbox. Entries
//! leave the table only when the maintenance loop applies a worker's
//! termination notice.

use vstd::prelude::*;

use crate::messages::{DirectorCommand, ExecError};

verus! {

/// Capacity of the router's notification mailbox.
pub const NOTICE_CAPACITY: usize = 100;

/// How a request handed to a worker's mailbox came back.
#[derive(Debug)]
pub enum Delivery {
    /// The mailbox was closed: the worker had already exited.
    Rejected,
    /// The reply slot closed without a value.
    Dropped,
    /// The worker answered.
    Answered { result: Result<String, ExecError> },
}

/// What a routed call returns for `delivery`.
pub open spec fn settled(delivery: Delivery) -> Result<String, ExecError> {
    match delivery {
        Delivery::Rejected => Err(ExecError::WorkerUnavailable),
        Delivery::Dropped => Err(ExecError::WorkerDroppedChannel),
        Delivery::Answered { result } => result,
    }
}

/// The result of a routed call, from how its request came back: a worker's
/// answer is returned as it is, and a closed mailbox or reply slot becomes
/// its own error.
pub fn settle(delivery: Delivery) -> (r: Result<String, ExecError>)
    ensures
        r == settled(delivery),
{
    match delivery {
        Delivery::Rejected => Err(ExecError::WorkerUnavailable),
        Delivery::Dropped => Err(ExecError::WorkerDroppedChannel),
        Delivery::Answered { result } => result,
    }
}

/// The table after the exclusive section of a cold start for `id`, where a
/// worker whose mailbox is `mailbox` is started only if `id` is still absent.
pub open spec fn after_cold_start<H>(m: Map<Seq<char>, H>, id: Seq<char>, mailbox: H) -> Map<
    Seq<char>,
    H,
> {
    if m.contains_key(id) {
        m
    } else {
        m.insert(id, mailbox)
    }
}

/// How many workers `n` callers for `id` start, one after another in the
/// exclusive section, each re-checking the table and starting a worker only
/// on a miss.
pub open spec fn cold_starts<H>(m: Map<Seq<char>, H>, id: Seq<char>, mailbox: H, n: nat) -> nat
    decreases n,
{
    if n == 0 {
        0
    } else if m.contains_key(id) {
        cold_starts(m, id, mailbox, (n - 1) as nat)
    } else {
        1 + cold_starts(m.insert(id, mailbox), id, mailbox, (n - 1) as nat)
    }
}

/// Any number of callers for an identity that has a worker start no other.
pub proof fn lemma_no_cold_start_when_live<H>(
    m: Map<Seq<char>, H>,
    id: Seq<char>,
    mailbox: H,
    n: nat,
)
    requires
        m.contains_key(id),
    ensures
        cold_starts(m, id, mailbox, n) == 0,
    decreases n,
{
    if n > 0 {
        lemma_no_cold_start_when_live(m, id, mailbox, (n - 1) as nat);
    }
}

/// However many callers race for an identity never seen before, the
/// re-checked exclusive section starts exactly one worker for it, and every
/// later caller finds that worker's mailbox.
pub proof fn lemma_single_cold_start<H>(m: Map<Seq<char>, H>, id: Seq<char>, mailbox: H, n: nat)
    requires
        !m.contains_key(id),
        n >= 1,
    ensures
        cold_starts(m, id, mailbox, n) == 1,
        after_cold_start(after_cold_start(m, id, mailbox), id, mailbox) == m.insert(id, mailbox),
{
    lemma_no_cold_start_when_live(m.insert(id, mailbox), id, mailbox, (n - 1) as nat);
}

/// Maps identities to the mailbox handles of their live workers.
pub struct RoutingTable<H> {
    entries: Vec<(String, H)>,
}

impl<H> View for RoutingTable<H> {
    type V = Map<Seq<char>, H>;

    closed spec fn view(&self) -> Map<Seq<char>, H> {
        Map::new(
            |k: Seq<char>| exists|i: int| 0 <= i < self.entries@.len() && self.entries@[i].0@ == k,
            |k: Seq<char>|
                self.entries@[choose|i: int|
                    0 <= i < self.entries@.len() && self.entries@[i].0@ == k].1,
        )
    }
}

impl<H> RoutingTable<H> {
    /// No identity has two entries.
    pub closed spec fn wf(&self) -> bool {
        forall|i: int, j: int|
            0 <= i < j < self.entries@.len() ==> self.entries@[i].0@ != self.entries@[j].0@
    }

    proof fn lemma_entry(&self, i: int)
        requires
            self.wf(),
            0 <= i < self.entries@.len(),
        ensures
            self@.contains_key(self.entries@[i].0@),
            self@[self.entries@[i].0@] == self.entries@[i].1,
    {
        let k = self.entries@[i].0@;
        assert(exists|j: int| 0 <= j < self.entries@.len() && self.entries@[j].0@ == k) by {
            assert(self.entries@[i].0@ == k);
        }
        let j = choose|j: int| 0 <= j < self.entries@.len() && self.entries@[j].0@ == k;
        assert(i == j) by {
            if i < j {
                assert(self.entries@[i].0@ != self.entries@[j].0@);
            } else if j < i {
                assert(self.entries@[j].0@ != self.entries@[i].0@);
            }
        }
    }

    /// An empty table.
    pub fn new() -> (t: RoutingTable<H>)
        ensures
            t.wf(),
            t@ == Map::<Seq<char>, H>::empty(),
    {
        let t = RoutingTable { entries: Vec::new() };
        assert(t@ =~= Map::<Seq<char>, H>::empty());
        t
    }

    /// The number of live identities.
    pub fn len(&self) -> (n: usize)
        requires
            self.wf(),
        ensures
            n == self@.len(),
    {
        proof {
            self.lemma_len();
        }
        self.entries.len()
    }

    proof fn lemma_len(&self)
        requires
            self.wf(),
        ensures
            self@.dom().finite(),
            self@.len() == self.entries@.len(),
        decreases self.entries@.len(),
    {
        let keys = self.entries@.map_values(|e: (String, H)| e.0@);
        assert forall|i: int, j: int| 0 <= i < j < keys.len() implies keys[i] != keys[j] by {
            assert(self.entries@[i].0@ != self.entries@[j].0@);
        }
        assert(keys.no_duplicates());
        assert(self@.dom() =~= keys.to_set()) by {
            assert forall|k: Seq<char>| self@.dom().contains(k) implies keys.to_set().contains(k) by {
                let i = choose|i: int| 0 <= i < self.entries@.len() && self.entries@[i].0@ == k;
                assert(keys[i] == k);
            }
            assert forall|k: Seq<char>| keys.to_set().contains(k) implies self@.dom().contains(k) by {
                let i = choose|i: int| 0 <= i < keys.len() && keys[i] == k;
                assert(self.entries@[i].0@ == k);
            }
        }
        keys.unique_seq_to_set();
    }

    fn position(&self, id: &String) -> (r: Option<usize>)
        requires
            self.wf(),
        ensures
            match r {
                Some(i) => i < self.entries@.len() && self.entries@[i as int].0@ == id@,
                None => !self@.contains_key(id@),
            },
    {
        let mut i: usize = 0;
        while i < self.entries.len()
            invariant
                i <= self.entries@.len(),
                forall|j: int| 0 <= j < i ==> self.entries@[j].0@ != id@,
            decreases self.entries@.len() - i,
        {
            if self.entries[i].0 == *id {
                return Some(i);
            }
            i = i + 1;
        }
        None
    }

    /// The mailbox of the live worker for `id`, if there is one.
    pub fn lookup(&self, id: &String) -> (r: Option<&H>)
        requires
            self.wf(),
        ensures
            match r {
                Some(h) => self@.contains_key(id@) && self@[id@] == *h,
                None => !self@.contains_key(id@),
            },
    {
        match self.position(id) {
            Some(i) => {
                proof {
                    self.lemma_entry(i as int);
                }
                Some(&self.entries[i].1)
            },
            None => None,
        }
    }

    /// Whether `id` has a live worker.
    pub fn contains(&self, id: &String) -> (r: bool)
        requires
            self.wf(),
        ensures
            r == self@.contains_key(id@),
    {
        self.position(id).is_some()
    }

    /// Records the mailbox of a worker just started for `id`, which had none.
    pub fn insert(&mut self, id: String, mailbox: H)
        requires
            old(self).wf(),
            !old(self)@.contains_key(id@),
        ensures
            final(self).wf(),
            final(self)@ == old(self)@.insert(id@, mailbox),
    {
        let ghost k = id@;
        let ghost before = *self;
        self.entries.push((id, mailbox));
        let ghost n = self.entries@.len() - 1;
        assert forall|i: int| 0 <= i < n implies self.entries@[i] == before.entries@[i] by {}
        assert forall|i: int| 0 <= i < n implies self.entries@[i].0@ != k by {
            if self.entries@[i].0@ == k {
                before.lemma_entry(i);
            }
        }
        assert(self.wf());
        assert(self@ =~= before@.insert(k, mailbox)) by {
            assert forall|q: Seq<char>| #[trigger] self@.contains_key(q) == before@.insert(
                k,
                mailbox,
            ).contains_key(q) by {
                if self@.contains_key(q) {
                    let i = choose|i: int| 0 <= i < self.entries@.len() && self.entries@[i].0@ == q;
                    if i < n {
                        before.lemma_entry(i);
                    }
                }
                if before@.contains_key(q) {
                    let i = choose|i: int|
                        0 <= i < before.entries@.len() && before.entries@[i].0@ == q;
                    self.lemma_entry(i);
                }
                if q == k {
                    self.lemma_entry(n);
                }
            }
            assert forall|q: Seq<char>| #[trigger] self@.contains_key(q) implies self@[q]
                == before@.insert(k, mailbox)[q] by {
                let i = choose|i: int| 0 <= i < self.entries@.len() && self.entries@[i].0@ == q;
                self.lemma_entry(i);
                if i < n {
                    before.lemma_entry(i);
                }
            }
        }
    }

    /// Ends the exclusive section of a cold start for `id`, which the caller
    /// found absent on its re-check: a started worker's mailbox is recorded;
    /// a failed start leaves the table as it was and is reported as a spawn
    /// failure.
    pub fn install(&mut self, id: String, started: Result<H, String>) -> (r: Result<(), ExecError>)
        requires
            old(self).wf(),
            !old(self)@.contains_key(id@),
        ensures
            final(self).wf(),
            match started {
                Ok(mailbox) => r is Ok && final(self)@ == after_cold_start(old(self)@, id@, mailbox),
                Err(detail) => final(self)@ == old(self)@ && match r {
                    Err(ExecError::SpawnFailure { detail: d }) => d == detail,
                    _ => false,
                },
            },
    {
        match started {
            Ok(mailbox) => {
                self.insert(id, mailbox);
                Ok(())
            },
            Err(detail) => Err(ExecError::SpawnFailure { detail }),
        }
    }

    /// The maintenance loop's handling of a notice: the identity it names is
    /// forgotten, whichever worker now serves it.
    pub fn apply(&mut self, notice: DirectorCommand)
        requires
            old(self).wf(),
        ensures
            final(self).wf(),
            final(self)@ == old(self)@.remove(notice.identity()),
    {
        match notice {
            DirectorCommand::WorkerTerminated { id } => self.remove(&id),
        }
    }

    /// Forgets `id`, whether or not it had a live worker.
    pub fn remove(&mut self, id: &String)
        requires
            old(self).wf(),
        ensures
            final(self).wf(),
            final(self)@ == old(self)@.remove(id@),
    {
        let ghost before = *self;
        match self.position(id) {
            None => {
                assert(self@ =~= before@.remove(id@));
            },
            Some(p) => {
                self.entries.remove(p);
                let ghost k = id@;
                assert forall|i: int| 0 <= i < self.entries@.len() implies self.entries@[i] == (if i
                    < p {
                    before.entries@[i]
                } else {
                    before.entries@[i + 1]
                }) by {}
                assert forall|i: int| 0 <= i < self.entries@.len() implies self.entries@[i].0@
                    != k by {
                    let oi = if i < p {
                        i
                    } else {
                        i + 1
                    };
                    assert(before.entries@[oi].0@ != before.entries@[p as int].0@);
                }
                assert(self.wf()) by {
                    assert forall|i: int, j: int|
                        0 <= i < j < self.entries@.len() implies self.entries@[i].0@
                        != self.entries@[j].0@ by {
                        let oi = if i < p {
                            i
                        } else {
                            i + 1
                        };
                        let oj = if j < p {
                            j
                        } else {
                            j + 1
                        };
                        assert(before.entries@[oi].0@ != before.entries@[oj].0@);
                    }
                }
                assert(self@ =~= before@.remove(k)) by {
                    assert forall|q: Seq<char>| #[trigger] self@.contains_key(q) == before@.remove(
                        k,
                    ).contains_key(q) by {
                        if self@.contains_key(q) {
                            let i = choose|i: int|
                                0 <= i < self.entries@.len() && self.entries@[i].0@ == q;
                            let oi = if i < p {
                                i
                            } else {
                                i + 1
                            };
                            before.lemma_entry(oi);
                        }
                        if before@.contains_key(q) && q != k {
                            let oi = choose|i: int|
                                0 <= i < before.entries@.len() && before.entries@[i].0@ == q;
                            let i = if oi < p {
                                oi
                            } else {
                                oi - 1
                            };
                            self.lemma_entry(i);
                        }
                    }
                    assert forall|q: Seq<char>| #[trigger] self@.contains_key(q) implies self@[q]
                        == before@.remove(k)[q] by {
                        let i = choose|i: int|
                            0 <= i < self.entries@.len() && self.entries@[i].0@ == q;
                        self.lemma_entry(i);
                        let oi = if i < p {
                            i
                        } else {
                            i + 1
                        };
                        before.lemma_entry(oi);
                    }
                }
            },
        }
    }
}

} // verus!
