//! The worker pool's shared state: the FIFO ready queue, the dock that
//! binds a suspended task to its wake notification, and the pool sizing
//! rule.
//!
//! The queue is the whole scheduling policy: tasks leave in exactly the
//! order they were admitted (`lemma_fifo_order`). A wake that arrives
//! before its task is docked is recorded in a pending-wake flag and
//! honoured at dock time, so no wakeup is ever lost.

use vstd::prelude::*;
use crate::task::Task;

verus! {

/// Number of worker threads the pool starts with: the detected hardware
/// concurrency, or 1 if detection failed.
pub fn pool_size(detected: Option<usize>) -> (n: usize)
    ensures
        detected matches Some(c) ==> n == c,
        detected is None ==> n == 1,
{
    match detected {
        Some(c) => c,
        None => 1,
    }
}

/// The shared FIFO ready queue: an ordered sequence of items awaiting a
/// worker, with insertion order as the sole ordering discipline.
pub struct ReadyQueue<T> {
    items: Vec<T>,
}

impl<T> View for ReadyQueue<T> {
    type V = Seq<T>;

    closed spec fn view(&self) -> Seq<T> {
        self.items@
    }
}

impl<T> ReadyQueue<T> {
    /// An empty queue.
    pub fn new() -> (q: Self)
        ensures
            q@ == Seq::<T>::empty(),
    {
        ReadyQueue { items: Vec::new() }
    }

    pub fn len(&self) -> (n: usize)
        ensures
            n == self@.len(),
    {
        self.items.len()
    }

    /// Admits an item at the back of the queue.
    pub fn push_back(&mut self, t: T)
        ensures
            final(self)@ == old(self)@.push(t),
    {
        self.items.push(t);
    }

    /// Removes and returns the front item: the one admitted earliest
    /// among those still queued. Returns `None` only on an empty queue.
    pub fn pop_front(&mut self) -> (r: Option<T>)
        ensures
            old(self)@.len() == 0 ==> r is None && final(self)@ == old(self)@,
            old(self)@.len() > 0 ==> (
                r matches Some(t) && t == old(self)@.first()
                && final(self)@ == old(self)@.drop_first()
            ),
    {
        if self.items.len() == 0 {
            None
        } else {
            let t = self.items.remove(0);
            proof {
                assert(final(self)@ =~= old(self)@.drop_first());
            }
            Some(t)
        }
    }
}

/// The contents of a queue after its front item has been popped `k`
/// times, following `pop_front`'s contract.
pub open spec fn after_pops<T>(s: Seq<T>, k: int) -> Seq<T>
    decreases k,
{
    if k <= 0 {
        s
    } else {
        after_pops(s, k - 1).drop_first()
    }
}

/// After `k` pops, exactly the first `k` admitted items are gone and the
/// rest still stand in admission order.
pub proof fn lemma_after_pops<T>(s: Seq<T>, k: int)
    requires
        0 <= k <= s.len(),
    ensures
        after_pops(s, k) == s.subrange(k, s.len() as int),
    decreases k,
{
    if k == 0 {
        assert(after_pops(s, 0) =~= s.subrange(0, s.len() as int));
    } else {
        lemma_after_pops(s, k - 1);
        assert(after_pops(s, k) =~= s.subrange(k, s.len() as int));
    }
}

/// FIFO dispatch: of two items admitted to the queue, the earlier one
/// (index `i`) is the item dispatched by pop number `i`, and the later
/// one (index `j`, `i < j`) is the item dispatched by the strictly later
/// pop number `j`. While no pops intervene between two admissions, queue
/// indices are admission order, so admission order is dispatch order.
pub proof fn lemma_fifo_order<T>(s: Seq<T>, i: int, j: int)
    requires
        0 <= i < j < s.len(),
    ensures
        after_pops(s, i).first() == s[i],
        after_pops(s, j).first() == s[j],
{
    lemma_after_pops(s, i);
    lemma_after_pops(s, j);
}

/// The one-slot dock that binds exactly one currently-suspended task to
/// a wake notification. Created fresh for each suspension attempt. The
/// pending-wake flag closes the lost-wakeup race: a wake delivered
/// before the worker docks the task is recorded here and answered at
/// dock time by re-admitting the task at once, instead of being dropped.
pub struct TaskWaker<T> {
    slot: Option<T>,
    pending_wake: bool,
}

impl<T> TaskWaker<T> {
    /// The task currently held by the dock, if any.
    pub closed spec fn docked(&self) -> Option<T> {
        self.slot
    }

    /// Whether a wake arrived while the dock was still empty.
    pub closed spec fn pending(&self) -> bool {
        self.pending_wake
    }

    /// A fresh dock for one suspension attempt: empty, no wake seen.
    pub fn new() -> (w: Self)
        ensures
            w.docked() is None,
            !w.pending(),
    {
        TaskWaker { slot: None, pending_wake: false }
    }

    /// Delivers a wake notification. If the dock holds a task, the task
    /// is drained and returned so the caller re-admits it to the ready
    /// queue; otherwise the wake is recorded as pending and nothing is
    /// returned. Callable any number of times: a wake of an empty dock
    /// never produces a task.
    pub fn wake(&mut self) -> (r: Option<T>)
        ensures
            (old(self).docked() matches Some(t) ==> (
                r == Some(t)
                && final(self).docked() is None
                && final(self).pending() == old(self).pending()
            )),
            old(self).docked() is None ==> (
                r is None
                && final(self).docked() is None
                && final(self).pending()
            ),
    {
        match self.slot.take() {
            Some(t) => Some(t),
            None => {
                self.pending_wake = true;
                None
            }
        }
    }

    /// Places a suspended task into the dock. If a wake already arrived
    /// (pending flag set), the task is handed straight back for
    /// immediate re-admission to the ready queue and the flag is
    /// cleared; otherwise the task stays docked until its wake. Each
    /// dock holds at most one task and is filled at most once.
    pub fn dock(&mut self, t: T) -> (r: Option<T>)
        requires
            old(self).docked() is None,
        ensures
            old(self).pending() ==> (
                r == Some(t)
                && final(self).docked() is None
                && !final(self).pending()
            ),
            !old(self).pending() ==> (
                r is None
                && final(self).docked() == Some(t)
                && !final(self).pending()
            ),
    {
        if self.pending_wake {
            self.pending_wake = false;
            Some(t)
        } else {
            self.slot = Some(t);
            None
        }
    }
}

/// The scheduler state every worker thread shares: the FIFO ready queue
/// of admitted tasks and the tasks currently docked awaiting a wake.
/// A task that is not being advanced sits in exactly one of the two.
pub struct Worker {
    /// Tasks awaiting dispatch, in admission order.
    pub ready: ReadyQueue<Task>,
    /// Suspended tasks awaiting a wake notification.
    pub docked: Vec<Task>,
}

impl Worker {
    /// A scheduler with no tasks anywhere.
    pub fn new() -> (w: Self)
        ensures
            w.ready@ == Seq::<Task>::empty(),
            w.docked@ == Seq::<Task>::empty(),
    {
        Worker { ready: ReadyQueue::new(), docked: Vec::new() }
    }

    /// Admits a task at the back of the shared ready queue. Never
    /// blocks and never rejects: the queue is unbounded.
    pub fn insert_task(&mut self, t: Task)
        ensures
            final(self).ready@ == old(self).ready@.push(t),
            final(self).docked@ == old(self).docked@,
    {
        self.ready.push_back(t);
    }

    /// Takes the next task to dispatch: the front of the ready queue,
    /// the task admitted earliest among those still queued.
    pub fn next_task(&mut self) -> (r: Option<Task>)
        ensures
            final(self).docked@ == old(self).docked@,
            old(self).ready@.len() == 0 ==> r is None && final(self).ready@ == old(self).ready@,
            old(self).ready@.len() > 0 ==> (
                r == Some(old(self).ready@.first())
                && final(self).ready@ == old(self).ready@.drop_first()
            ),
    {
        self.ready.pop_front()
    }

    /// Docks a task that reported itself suspended: it joins the tasks
    /// awaiting a wake notification.
    pub fn dock_task(&mut self, t: Task)
        ensures
            final(self).ready@ == old(self).ready@,
            final(self).docked@ == old(self).docked@.push(t),
    {
        self.docked.push(t);
    }

    /// Answers a wake notification for completion slot `id`: if a task
    /// bound to that slot is docked, it is taken out and re-admitted at
    /// the back of the ready queue; otherwise nothing changes.
    pub fn wake_task(&mut self, id: usize) -> (found: bool)
        ensures
            found <==> exists|k: int|
                0 <= k < old(self).docked@.len() && (#[trigger] old(self).docked@[k]).id == id,
            found ==> exists|k: int|
                {
                    &&& 0 <= k < old(self).docked@.len()
                    &&& (#[trigger] old(self).docked@[k]).id == id
                    &&& final(self).docked@ == old(self).docked@.remove(k)
                    &&& final(self).ready@ == old(self).ready@.push(old(self).docked@[k])
                },
            !found ==> *final(self) == *old(self),
    {
        let mut i: usize = 0;
        while i < self.docked.len()
            invariant
                i <= self.docked.len(),
                *self == *old(self),
                forall|k: int| 0 <= k < i ==> (#[trigger] self.docked@[k]).id != id,
            decreases self.docked@.len() - i,
        {
            if self.docked[i].id == id {
                let t = self.docked.remove(i);
                self.ready.push_back(t);
                return true;
            }
            i = i + 1;
        }
        false
    }
}

} // verus!
