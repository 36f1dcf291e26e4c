//! A minimal in-process cooperative task scheduler, verified.
//!
//! Independently-suspendable computations ("tasks") are run to
//! completion across a pool of workers sharing one FIFO ready queue.
//! A caller either fetches a task's eventual result through a
//! [`handle::JoinHandle`] or drives one computation to completion with
//! [`Runtime::block_on`]. This crate holds the scheduling logic itself:
//! the task representation, the ready queue and its FIFO discipline, the
//! wake protocol that re-admits a suspended task, and the decisions the
//! worker loop and the blocking entry point take at each step. The
//! threads, locks and channels that carry these decisions live outside
//! the library.

use vstd::prelude::*;

pub mod handle;
pub mod task;
pub mod worker;

use crate::handle::{JoinHandle, JoinStep, RecvState, resolve_recv};
use crate::task::{Computation, Step, Task};
use crate::worker::Worker;

verus! {

/// What one worker iteration did: found the queue empty (and would wait
/// on the condition variable), completed the dispatched task, or docked
/// it suspended. The identifier names the task's completion slot.
#[derive(PartialEq, Eq, Structural)]
pub enum Dispatch {
    Idle,
    Completed(usize),
    Suspended(usize),
}

/// No completion slot is named twice within `s`.
pub open spec fn ids_distinct(s: Seq<Task>) -> bool {
    forall|k1: int, k2: int|
        0 <= k1 < k2 < s.len() ==> (#[trigger] s[k1]).id != (#[trigger] s[k2]).id
}

/// No completion slot is named both in `a` and in `b`.
pub open spec fn ids_disjoint(a: Seq<Task>, b: Seq<Task>) -> bool {
    forall|k1: int, k2: int|
        0 <= k1 < a.len() && 0 <= k2 < b.len()
            ==> (#[trigger] a[k1]).id != (#[trigger] b[k2]).id
}

/// Every task in `s` names a completion slot that exists and has not
/// been filled: a task still scheduled has not delivered its result.
pub open spec fn unresolved(s: Seq<Task>, results: Seq<Option<u64>>) -> bool {
    forall|k: int|
        0 <= k < s.len() ==> (#[trigger] s[k]).id < results.len()
            && results[s[k].id as int] is None
}

/// The runtime: the worker pool's shared scheduler state together with
/// the completion slots that deliver each task's result to its
/// `JoinHandle`. A slot holds `None` until its task completes.
pub struct Runtime {
    /// The shared ready queue and the docked (suspended) tasks.
    pub worker: Worker,
    /// One completion slot per spawned task, indexed by task identifier.
    pub results: Vec<Option<u64>>,
}

impl Runtime {
    /// The key scheduling invariant: a task that is not being advanced
    /// sits in exactly one place — each completion slot is named at
    /// most once across the ready queue and the docked tasks — and a
    /// task still scheduled has not yet delivered its result.
    pub open spec fn wf(&self) -> bool {
        &&& ids_distinct(self.worker.ready@)
        &&& ids_distinct(self.worker.docked@)
        &&& ids_disjoint(self.worker.ready@, self.worker.docked@)
        &&& unresolved(self.worker.ready@, self.results@)
        &&& unresolved(self.worker.docked@, self.results@)
    }

    /// A runtime with no tasks admitted yet.
    pub fn new() -> (rt: Runtime)
        ensures
            rt.wf(),
            rt.worker.ready@ == Seq::<Task>::empty(),
            rt.worker.docked@ == Seq::<Task>::empty(),
            rt.results@ == Seq::<Option<u64>>::empty(),
    {
        Runtime { worker: Worker::new(), results: Vec::new() }
    }

    /// Admits a new task: wraps the computation with a fresh completion
    /// slot, pushes it at the back of the ready queue, and returns the
    /// handle that observes that slot. Non-blocking; the queue is
    /// unbounded and never rejects.
    pub fn spawn(&mut self, comp: Computation) -> (h: JoinHandle)
        requires
            old(self).wf(),
            old(self).results@.len() < usize::MAX,
        ensures
            final(self).wf(),
            h.id == old(self).results@.len(),
            final(self).results@ == old(self).results@.push(None),
            final(self).worker.ready@ == old(self).worker.ready@.push(
                (Task { id: h.id, comp }),
            ),
            final(self).worker.docked@ == old(self).worker.docked@,
    {
        let id = self.results.len();
        self.results.push(None);
        let (t, h) = Task::new(id, comp);
        self.worker.insert_task(t);
        h
    }

    /// One worker iteration: pop the front of the ready queue and
    /// advance the task it holds. A task that finishes delivers exactly
    /// its computation's value into its completion slot and is
    /// discarded; a task that suspends is docked, with one suspension
    /// spent, to await its wake. An empty queue dispatches nothing and
    /// changes nothing. Every task docked beforehand stays docked,
    /// untouched, with its completion slot still empty: stepping never
    /// resolves or re-admits a suspended task.
    pub fn step(&mut self) -> (d: Dispatch)
        requires
            old(self).wf(),
        ensures
            final(self).wf(),
            final(self).results@.len() == old(self).results@.len(),
            old(self).worker.ready@.len() == 0 ==> {
                &&& d == Dispatch::Idle
                &&& final(self).worker.ready@ == old(self).worker.ready@
                &&& final(self).worker.docked@ == old(self).worker.docked@
                &&& final(self).results@ == old(self).results@
            },
            old(self).worker.ready@.len() > 0 ==> ({
                let t = old(self).worker.ready@.first();
                &&& final(self).worker.ready@ == old(self).worker.ready@.drop_first()
                &&& t.comp.suspends_remaining == 0 ==> {
                    &&& d == Dispatch::Completed(t.id)
                    &&& final(self).results@ == old(self).results@.update(
                        t.id as int,
                        Some(t.comp.value),
                    )
                    &&& final(self).worker.docked@ == old(self).worker.docked@
                }
                &&& t.comp.suspends_remaining > 0 ==> {
                    &&& d == Dispatch::Suspended(t.id)
                    &&& final(self).results@ == old(self).results@
                    &&& final(self).worker.docked@ == old(self).worker.docked@.push(
                        (Task {
                            id: t.id,
                            comp: (Computation {
                                suspends_remaining: (t.comp.suspends_remaining - 1) as u64,
                                value: t.comp.value,
                            }),
                        }),
                    )
                }
            }),
            forall|k: int|
                0 <= k < old(self).worker.docked@.len() ==> {
                    let t = #[trigger] old(self).worker.docked@[k];
                    &&& k < final(self).worker.docked@.len()
                    &&& final(self).worker.docked@[k] == t
                    &&& final(self).results@[t.id as int] == old(self).results@[t.id as int]
                },
    {
        match self.worker.next_task() {
            None => Dispatch::Idle,
            Some(t) => {
                let mut t = t;
                let id = t.id;
                match t.comp.advance() {
                    Step::Finished(v) => {
                        self.results[id] = Some(v);
                        proof {
                            let r0 = old(self).worker.ready@;
                            let r1 = self.worker.ready@;
                            assert forall|k: int| 0 <= k < r1.len() implies #[trigger] r1[k]
                                == r0[k + 1] by {}
                            assert(self.wf());
                        }
                        Dispatch::Completed(id)
                    },
                    Step::Suspended => {
                        self.worker.dock_task(t);
                        proof {
                            let r0 = old(self).worker.ready@;
                            let r1 = self.worker.ready@;
                            assert forall|k: int| 0 <= k < r1.len() implies #[trigger] r1[k]
                                == r0[k + 1] by {}
                            assert(self.wf());
                        }
                        Dispatch::Suspended(id)
                    },
                }
            },
        }
    }

    /// Delivers a wake notification for the task bound to completion
    /// slot `id`: if such a task is docked, it is taken out of its dock
    /// and re-admitted at the back of the shared ready queue (waking one
    /// idle worker); otherwise the notification is a no-op. Never
    /// resolves, drops or duplicates a task, and never touches a
    /// completion slot.
    pub fn wake(&mut self, id: usize) -> (found: bool)
        requires
            old(self).wf(),
        ensures
            final(self).wf(),
            final(self).results@ == old(self).results@,
            found <==> exists|k: int|
                0 <= k < old(self).worker.docked@.len() && (#[trigger] old(
                    self,
                ).worker.docked@[k]).id == id,
            found ==> exists|k: int|
                {
                    &&& 0 <= k < old(self).worker.docked@.len()
                    &&& (#[trigger] old(self).worker.docked@[k]).id == id
                    &&& final(self).worker.docked@ == old(self).worker.docked@.remove(k)
                    &&& final(self).worker.ready@ == old(self).worker.ready@.push(
                        old(self).worker.docked@[k],
                    )
                },
            !found ==> *final(self) == *old(self),
    {
        let found = self.worker.wake_task(id);
        proof {
            if found {
                let k = choose|k: int|
                    0 <= k < old(self).worker.docked@.len() && (#[trigger] old(
                        self,
                    ).worker.docked@[k]).id == id && self.worker.docked@ == old(
                        self,
                    ).worker.docked@.remove(k) && self.worker.ready@ == old(
                        self,
                    ).worker.ready@.push(old(self).worker.docked@[k]);
                let d0 = old(self).worker.docked@;
                let d1 = self.worker.docked@;
                d0.remove_ensures(k);
                assert forall|i: int| 0 <= i < d1.len() implies #[trigger] d1[i] == (
                    if i < k {
                        d0[i]
                    } else {
                        d0[i + 1]
                    }) by {}
                assert(self.wf());
            }
        }
        found
    }

    /// Advances a join handle once: reports the task's delivered value
    /// if its completion slot was filled (`Finished` with exactly that
    /// value), and `Suspended` while the slot is still empty.
    pub fn poll_join(&self, h: &JoinHandle) -> (s: JoinStep<u64>)
        requires
            h.id < self.results@.len(),
        ensures
            self.results@[h.id as int] matches Some(v) ==> s == JoinStep::<u64>::Finished(v),
            self.results@[h.id as int] is None ==> s == JoinStep::<u64>::Suspended,
    {
        match self.results[h.id] {
            Some(v) => resolve_recv(RecvState::Value(v)),
            None => resolve_recv(RecvState::<u64>::Pending),
        }
    }

    /// Spawns a computation and drives the scheduler until that task
    /// completes, answering each of its suspensions with a wake: the
    /// round trip a worker pool and a prompt waker perform. However
    /// many suspend/resume cycles the computation takes, the returned
    /// value — what its join handle resolves to — is exactly the value
    /// the computation produced, every other completion slot is left
    /// untouched, and every task docked beforehand stays docked.
    pub fn spawn_and_join(&mut self, comp: Computation) -> (r: u64)
        requires
            old(self).wf(),
            old(self).worker.ready@.len() == 0,
            old(self).results@.len() < usize::MAX,
        ensures
            final(self).wf(),
            r == comp.value,
            final(self).results@ == old(self).results@.push(Some(comp.value)),
            final(self).worker.ready@ == old(self).worker.ready@,
            final(self).worker.docked@ == old(self).worker.docked@,
    {
        let ghost rt0 = *self;
        let h = self.spawn(comp);
        loop
            invariant_except_break
                self.wf(),
                rt0.wf(),
                rt0.worker.ready@.len() == 0,
                h.id == rt0.results@.len(),
                self.results@ == rt0.results@.push(None),
                self.worker.docked@ == rt0.worker.docked@,
                self.worker.ready@.len() == 1,
                self.worker.ready@[0].id == h.id,
                self.worker.ready@[0].comp.value == comp.value,
            ensures
                self.wf(),
                self.results@ == rt0.results@.push(Some(comp.value)),
                self.worker.ready@.len() == 0,
                self.worker.docked@ == rt0.worker.docked@,
            decreases self.worker.ready@[0].comp.suspends_remaining,
        {
            match self.step() {
                Dispatch::Completed(_) => {
                    proof {
                        assert(self.results@ =~= rt0.results@.push(Some(comp.value)));
                    }
                    break;
                },
                Dispatch::Suspended(id) => {
                    let ghost docked_before = self.worker.docked@;
                    let ghost ready_before = self.worker.ready@;
                    let found = self.wake(id);
                    proof {
                        let last = docked_before.len() - 1;
                        assert(docked_before[last].id == id);
                        assert(found);
                        let k = choose|k: int|
                            {
                                &&& 0 <= k < docked_before.len()
                                &&& (#[trigger] docked_before[k]).id == id
                                &&& self.worker.docked@ == docked_before.remove(k)
                                &&& self.worker.ready@ == ready_before.push(docked_before[k])
                            };
                        assert(k == last) by {
                            if k < last {
                                assert(rt0.worker.docked@[k].id == id);
                                assert(rt0.worker.docked@[k].id < rt0.results@.len());
                            }
                        }
                        assert(self.worker.docked@ =~= rt0.worker.docked@);
                    }
                },
                Dispatch::Idle => {
                    proof {
                        assert(false);
                    }
                    break;
                },
            }
        }
        proof {
            assert(self.worker.ready@ =~= rt0.worker.ready@);
        }
        match self.poll_join(&h) {
            JoinStep::Finished(v) => v,
            JoinStep::LostTask => {
                proof {
                    assert(false);
                }
                0
            },
            JoinStep::Suspended => {
                proof {
                    assert(false);
                }
                0
            },
        }
    }

    /// Dispatches every admitted task exactly once, in admission order
    /// — the FIFO guarantee at the scheduler's level: the returned
    /// identifiers are the queued tasks' identifiers in exactly the
    /// order they were admitted. Every queued computation completes at
    /// once here (none suspends), and each delivers exactly its own
    /// value into its own completion slot: every issued handle resolves
    /// to the value its computation produced, whatever order the
    /// spawns came in, and every other slot is left untouched.
    pub fn run_ready(&mut self) -> (order: Vec<usize>)
        requires
            old(self).wf(),
            forall|k: int|
                0 <= k < old(self).worker.ready@.len() ==> (#[trigger] old(
                    self,
                ).worker.ready@[k]).comp.suspends_remaining == 0,
        ensures
            final(self).wf(),
            order@ == old(self).worker.ready@.map_values(|t: Task| t.id),
            final(self).worker.ready@.len() == 0,
            final(self).worker.docked@ == old(self).worker.docked@,
            final(self).results@.len() == old(self).results@.len(),
            forall|k: int|
                0 <= k < old(self).worker.ready@.len() ==> final(self).results@[(#[trigger] old(
                    self,
                ).worker.ready@[k]).id as int] == Some(old(self).worker.ready@[k].comp.value),
            forall|j: int|
                0 <= j < old(self).results@.len() && (forall|k: int|
                    0 <= k < old(self).worker.ready@.len() ==> (#[trigger] old(
                        self,
                    ).worker.ready@[k]).id != j) ==> final(self).results@[j] == old(
                    self,
                ).results@[j],
    {
        let ghost rt0 = *self;
        let ghost queued = rt0.worker.ready@;
        let mut order: Vec<usize> = Vec::new();
        loop
            invariant_except_break
                self.wf(),
                rt0.wf(),
                queued == rt0.worker.ready@,
                forall|k: int|
                    0 <= k < queued.len() ==> (#[trigger] queued[k]).comp.suspends_remaining
                        == 0,
                order@.len() <= queued.len(),
                self.worker.ready@ == queued.subrange(order@.len() as int, queued.len() as int),
                order@ == queued.subrange(0, order@.len() as int).map_values(|t: Task| t.id),
                self.worker.docked@ == rt0.worker.docked@,
                self.results@.len() == rt0.results@.len(),
                forall|k: int|
                    0 <= k < order@.len() ==> self.results@[(#[trigger] queued[k]).id as int]
                        == Some(queued[k].comp.value),
                forall|j: int|
                    0 <= j < rt0.results@.len() && (forall|k: int|
                        0 <= k < order@.len() ==> (#[trigger] queued[k]).id != j)
                        ==> self.results@[j] == rt0.results@[j],
            ensures
                self.wf(),
                order@ == queued.map_values(|t: Task| t.id),
                self.worker.ready@.len() == 0,
                self.worker.docked@ == rt0.worker.docked@,
                self.results@.len() == rt0.results@.len(),
                forall|k: int|
                    0 <= k < queued.len() ==> self.results@[(#[trigger] queued[k]).id as int]
                        == Some(queued[k].comp.value),
                forall|j: int|
                    0 <= j < rt0.results@.len() && (forall|k: int|
                        0 <= k < queued.len() ==> (#[trigger] queued[k]).id != j)
                        ==> self.results@[j] == rt0.results@[j],
            decreases self.worker.ready@.len(),
        {
            let ghost done = order@.len() as int;
            match self.step() {
                Dispatch::Idle => {
                    proof {
                        assert(queued.subrange(done, queued.len() as int).len() == 0);
                        assert(order@ =~= queued.map_values(|t: Task| t.id));
                    }
                    break;
                },
                Dispatch::Completed(id) => {
                    order.push(id);
                    proof {
                        assert(queued[done].id == id);
                        assert(self.worker.ready@ =~= queued.subrange(
                            done + 1,
                            queued.len() as int,
                        ));
                        assert(order@ =~= queued.subrange(0, done + 1).map_values(
                            |t: Task| t.id,
                        ));
                    }
                },
                Dispatch::Suspended(_) => {
                    proof {
                        assert(queued[done].comp.suspends_remaining == 0);
                        assert(false);
                    }
                },
            }
        }
        order
    }

    /// Drives one computation to completion on the calling thread,
    /// advancing it and parking between suspensions until it finishes,
    /// and returns exactly the value the computation produced. The
    /// thread's wake carries a delivered-wake permit, so a wake that
    /// arrives before the park is not lost and every suspension is
    /// eventually re-advanced.
    pub fn block_on(&self, comp: Computation) -> (r: u64)
        ensures
            r == comp.value,
    {
        let mut c = comp;
        loop
            invariant
                c.value == comp.value,
            decreases c.suspends_remaining,
        {
            match c.advance() {
                Step::Finished(v) => {
                    return v;
                },
                Step::Suspended => {},
            }
        }
    }
}

/// A task that sits docked — suspended, having never signalled
/// completion — has an empty completion slot, so its join handle is
/// still unresolved. `step` leaves every docked task docked with its
/// slot untouched, and `wake` is the only operation that re-admits one;
/// hence a task that is never woken leaves its handle unresolved
/// through any number of worker iterations.
pub proof fn lemma_docked_task_unresolved(rt: &Runtime, k: int)
    requires
        rt.wf(),
        0 <= k < rt.worker.docked@.len(),
    ensures
        rt.worker.docked@[k].id < rt.results@.len(),
        rt.results@[rt.worker.docked@[k].id as int] is None,
{
    assert(unresolved(rt.worker.docked@, rt.results@));
}

} // verus!
