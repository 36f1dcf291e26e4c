//! Join handles and resolution of a task's eventual result.
//!
//! A `JoinHandle` is the caller-held means of observing a task's result:
//! it names the one-shot completion slot that the paired task fills.
//! `resolve_recv` is the decision at the heart of polling a handle: it
//! maps what the consumer end of the completion channel reports to the
//! handle's next step.

use vstd::prelude::*;

verus! {

/// What the consumer end of a one-shot completion channel reports when
/// polled: a delivered value, a producer that went away without sending,
/// or nothing yet.
pub enum RecvState<T> {
    Value(T),
    ProducerGone,
    Pending,
}

/// The outcome of advancing a join handle once: the task's value, a
/// fatal loss of the producing task, or not done yet.
pub enum JoinStep<T> {
    Finished(T),
    LostTask,
    Suspended,
}

/// The caller-held means of eventually observing a task's result.
/// Consuming it to completion is valid exactly once.
pub struct JoinHandle {
    /// Identifies the completion slot the paired task fills.
    pub id: usize,
}

/// Maps one observation of the completion channel to the handle's next
/// step: a delivered value finishes the handle with exactly that value,
/// a lost producer is fatal (`LostTask`), and an empty channel suspends
/// the handle until the task delivers.
pub fn resolve_recv<T>(obs: RecvState<T>) -> (s: JoinStep<T>)
    ensures
        (obs matches RecvState::Value(v) ==> s matches JoinStep::Finished(w) && w == v),
        (obs matches RecvState::ProducerGone ==> s matches JoinStep::LostTask),
        (obs matches RecvState::Pending ==> s matches JoinStep::Suspended),
{
    match obs {
        RecvState::Value(v) => JoinStep::Finished(v),
        RecvState::ProducerGone => JoinStep::LostTask,
        RecvState::Pending => JoinStep::Suspended,
    }
}

} // verus!
