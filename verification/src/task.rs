//! Tasks and the suspendable computations they wrap.
//!
//! A computation is modelled explicitly: it suspends a known number of
//! times and then finishes with its value. `advance` is the single step
//! operation: it runs the computation until it either finishes or must
//! suspend again.

use vstd::prelude::*;
use crate::handle::JoinHandle;

verus! {

/// One advance of a computation either suspends it or finishes it with
/// its produced value.
pub enum Step {
    Suspended,
    Finished(u64),
}

/// A suspendable computation: it returns `Suspended` from `advance` a
/// bounded number of times, then `Finished` with its value.
pub struct Computation {
    /// How many more times `advance` will suspend before finishing.
    pub suspends_remaining: u64,
    /// The value the computation produces when it completes.
    pub value: u64,
}

impl Computation {
    /// Builds a computation that suspends `suspends_remaining` times and
    /// then completes with `value`.
    pub fn new(suspends_remaining: u64, value: u64) -> (c: Computation)
        ensures
            c.suspends_remaining == suspends_remaining,
            c.value == value,
    {
        Computation { suspends_remaining, value }
    }

    /// Runs the computation until it suspends or finishes. A computation
    /// with no suspensions left completes at once with its value; any
    /// other suspends and has one fewer suspension left.
    pub fn advance(&mut self) -> (s: Step)
        ensures
            old(self).suspends_remaining == 0 ==> (
                s matches Step::Finished(v) && v == old(self).value
                && *final(self) == *old(self)
            ),
            old(self).suspends_remaining > 0 ==> (
                s matches Step::Suspended
                && final(self).suspends_remaining == old(self).suspends_remaining - 1
                && final(self).value == old(self).value
            ),
    {
        if self.suspends_remaining == 0 {
            Step::Finished(self.value)
        } else {
            self.suspends_remaining = self.suspends_remaining - 1;
            Step::Suspended
        }
    }
}

/// A unit of scheduled work: one suspendable computation together with
/// the identity of the one-shot completion slot its result is delivered
/// through. A task is exclusively owned at any instant by exactly one of
/// the ready queue, a dock, or the worker advancing it.
pub struct Task {
    /// Identifies the completion slot shared with the paired `JoinHandle`.
    pub id: usize,
    /// The wrapped computation.
    pub comp: Computation,
}

impl Task {
    /// Wraps a computation as a task whose eventual value is delivered
    /// through completion slot `id`, and returns the paired handle that
    /// observes that same slot.
    pub fn new(id: usize, comp: Computation) -> (r: (Task, JoinHandle))
        ensures
            r.0.id == id,
            r.0.comp == comp,
            r.1.id == id,
    {
        (Task { id, comp }, JoinHandle { id })
    }
}

} // verus!
