use minirt::handle::{JoinStep, RecvState, resolve_recv};
use minirt::task::{Computation, Step, Task};
use minirt::worker::{pool_size, ReadyQueue, TaskWaker};
use minirt::{Dispatch, Runtime};

#[test]
fn test_runtime() {
    let rt = Runtime::new();
    let value = rt.block_on(Computation::new(0, 1));
    assert_eq!(value, 1);
}

#[test]
fn spawn_immediate_resolves_to_five() {
    let mut rt = Runtime::new();
    let h = rt.spawn(Computation::new(0, 5));
    let d = rt.step();
    assert!(d == Dispatch::Completed(h.id));
    assert!(matches!(rt.poll_join(&h), JoinStep::Finished(5)));
}

#[test]
fn thousand_tasks_each_resolve_to_index() {
    let mut rt = Runtime::new();
    let mut handles = Vec::new();
    for i in 0..1000u64 {
        handles.push(rt.spawn(Computation::new(0, i)));
    }
    loop {
        if rt.step() == Dispatch::Idle {
            break;
        }
    }
    for (i, h) in handles.iter().enumerate() {
        match rt.poll_join(h) {
            JoinStep::Finished(v) => assert_eq!(v, i as u64),
            _ => panic!("task {} did not resolve", i),
        }
    }
}

#[test]
fn suspend_then_external_wake_completes_with_42() {
    let mut rt = Runtime::new();
    let h = rt.spawn(Computation::new(1, 42));
    // First dispatch: the task suspends and is docked.
    let d = rt.step();
    assert!(d == Dispatch::Suspended(h.id));
    assert!(matches!(rt.poll_join(&h), JoinStep::Suspended));
    // An explicit signal from elsewhere re-admits it.
    assert!(rt.wake(h.id));
    let d = rt.step();
    assert!(d == Dispatch::Completed(h.id));
    assert!(matches!(rt.poll_join(&h), JoinStep::Finished(42)));
}

#[test]
fn block_on_suspending_computation_returns_value() {
    let rt = Runtime::new();
    let value = rt.block_on(Computation::new(3, 7));
    assert_eq!(value, 7);
}

#[test]
fn self_wake_before_docking_is_not_lost() {
    // A computation that wakes its own waker during the very advance
    // that suspends it: the wake finds the dock still empty. The dock
    // records it as pending and hands the task straight back at dock
    // time, so the task completes instead of stalling forever.
    let mut waker: TaskWaker<u64> = TaskWaker::new();
    assert_eq!(waker.wake(), None);
    let handed_back = waker.dock(17);
    assert_eq!(handed_back, Some(17));

    // Re-admitted immediately, the task then runs to completion.
    let mut rt = Runtime::new();
    let h = rt.spawn(Computation::new(0, 17));
    assert!(rt.step() == Dispatch::Completed(h.id));
    assert!(matches!(rt.poll_join(&h), JoinStep::Finished(17)));
}

#[test]
fn dock_then_wake_hands_task_back_once() {
    let mut waker: TaskWaker<u64> = TaskWaker::new();
    assert_eq!(waker.dock(3), None);
    assert_eq!(waker.wake(), Some(3));
    // Further wakes of the drained dock are no-ops.
    assert_eq!(waker.wake(), None);
}

#[test]
fn unwoken_task_stays_unresolved() {
    let mut rt = Runtime::new();
    let h = rt.spawn(Computation::new(4, 99));
    assert!(rt.step() == Dispatch::Suspended(h.id));
    // The task never signals completion and nobody wakes it: within a
    // bounded number of further worker iterations the handle is still
    // unresolved.
    for _ in 0..100 {
        assert!(rt.step() == Dispatch::Idle);
        assert!(matches!(rt.poll_join(&h), JoinStep::Suspended));
    }
}

#[test]
fn fifo_dispatch_order() {
    let mut rt = Runtime::new();
    let a = rt.spawn(Computation::new(0, 1));
    let b = rt.spawn(Computation::new(0, 2));
    let c = rt.spawn(Computation::new(0, 3));
    // Admitted strictly in the order a, b, c with no idle worker:
    // dispatched in exactly that order.
    assert!(rt.step() == Dispatch::Completed(a.id));
    assert!(rt.step() == Dispatch::Completed(b.id));
    assert!(rt.step() == Dispatch::Completed(c.id));
}

#[test]
fn run_ready_dispatches_in_admission_order() {
    let mut rt = Runtime::new();
    let mut ids = Vec::new();
    for i in 0..50u64 {
        ids.push(rt.spawn(Computation::new(0, i * 2)).id);
    }
    let order = rt.run_ready();
    assert_eq!(order, ids);
    for (i, id) in ids.iter().enumerate() {
        let h = minirt::handle::JoinHandle { id: *id };
        match rt.poll_join(&h) {
            JoinStep::Finished(v) => assert_eq!(v, (i as u64) * 2),
            _ => panic!("task {} did not resolve", i),
        }
    }
}

#[test]
fn ready_queue_is_fifo() {
    let mut q: ReadyQueue<u64> = ReadyQueue::new();
    assert_eq!(q.pop_front(), None);
    q.push_back(10);
    q.push_back(20);
    q.push_back(30);
    assert_eq!(q.len(), 3);
    assert_eq!(q.pop_front(), Some(10));
    assert_eq!(q.pop_front(), Some(20));
    assert_eq!(q.pop_front(), Some(30));
    assert_eq!(q.pop_front(), None);
}

#[test]
fn pool_size_matches_detection() {
    assert_eq!(pool_size(Some(8)), 8);
    assert_eq!(pool_size(Some(1)), 1);
    assert_eq!(pool_size(None), 1);
}

#[test]
fn resolve_recv_maps_each_observation() {
    assert!(matches!(resolve_recv(RecvState::Value(5u64)), JoinStep::Finished(5)));
    assert!(matches!(resolve_recv(RecvState::<u64>::Pending), JoinStep::Suspended));
    // A producer that went away without sending is fatal to the waiter.
    assert!(matches!(resolve_recv(RecvState::<u64>::ProducerGone), JoinStep::LostTask));
}

#[test]
fn wake_without_docked_task_is_noop() {
    let mut rt = Runtime::new();
    let h = rt.spawn(Computation::new(0, 4));
    // Not suspended yet: nothing is docked under this identifier.
    assert!(!rt.wake(h.id));
    assert!(rt.step() == Dispatch::Completed(h.id));
    // Already completed: the wake still finds nothing.
    assert!(!rt.wake(h.id));
    assert!(matches!(rt.poll_join(&h), JoinStep::Finished(4)));
}

#[test]
fn spawn_and_join_round_trip() {
    let mut rt = Runtime::new();
    assert_eq!(rt.spawn_and_join(Computation::new(0, 5)), 5);
    assert_eq!(rt.spawn_and_join(Computation::new(6, 42)), 42);
}

#[test]
fn step_on_empty_runtime_is_idle() {
    let mut rt = Runtime::new();
    assert!(rt.step() == Dispatch::Idle);
}

#[test]
fn computation_advance_counts_down() {
    let mut c = Computation::new(2, 11);
    assert!(matches!(c.advance(), Step::Suspended));
    assert!(matches!(c.advance(), Step::Suspended));
    assert!(matches!(c.advance(), Step::Finished(11)));
}

#[test]
fn task_new_pairs_task_with_handle() {
    let (t, h) = Task::new(7, Computation::new(0, 3));
    assert_eq!(t.id, 7);
    assert_eq!(h.id, 7);
    assert_eq!(t.comp.suspends_remaining, 0);
    assert_eq!(t.comp.value, 3);
}
