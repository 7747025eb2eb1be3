use task_executor::bridge::{after_join_poll, BridgeAction};
use task_executor::cell::{JoinPoll, Phase, RunAction, StepAction};
use task_executor::executor::Executor;

#[test]
fn spawn_enqueues_the_task() {
    let mut e: Executor<i32> = Executor::new();
    assert_eq!(e.num_tasks(), 0);
    assert_eq!(e.pending_runs(), 0);
    let a = e.spawn();
    let b = e.spawn();
    assert_eq!((a, b), (0, 1));
    assert_eq!(e.pending_runs(), 2);
    assert_eq!(e.phase(a), Some(Phase::Scheduled));
    assert_eq!(e.phase(9), None);
}

#[test]
fn queue_is_fifo() {
    let mut e: Executor<i32> = Executor::new();
    let a = e.spawn();
    let b = e.spawn();
    assert_eq!(e.run_next(), Some((a, RunAction::Poll)));
    assert_eq!(e.run_next(), Some((b, RunAction::Poll)));
    assert_eq!(e.run_next(), None);
}

#[test]
fn many_wakes_enqueue_nothing_more() {
    let mut e: Executor<i32> = Executor::new();
    let a = e.spawn();
    for _ in 0..100 {
        assert!(!e.wake(a));
    }
    assert_eq!(e.pending_runs(), 1);
    assert_eq!(e.run_next(), Some((a, RunAction::Poll)));
    for _ in 0..100 {
        assert!(!e.wake(a));
    }
    assert_eq!(e.pending_runs(), 0);
    assert_eq!(e.end_step(a, None), StepAction::Reschedule);
    assert_eq!(e.pending_runs(), 1);
}

#[test]
fn running_task_is_never_handed_out_again() {
    let mut e: Executor<i32> = Executor::new();
    let a = e.spawn();
    assert_eq!(e.run_next(), Some((a, RunAction::Poll)));
    e.wake(a);
    assert_eq!(e.run_next(), None);
    assert_eq!(e.phase(a), Some(Phase::Running));
}

#[test]
fn unwoken_suspended_task_never_runs() {
    let mut e: Executor<i32> = Executor::new();
    let a = e.spawn();
    let b = e.spawn();
    e.run_next();
    assert_eq!(e.end_step(a, None), StepAction::Suspend);
    e.run_next();
    e.end_step(b, None);
    e.wake(b);
    assert_eq!(e.run_next(), Some((b, RunAction::Poll)));
    assert_eq!(e.end_step(b, Some(2)), StepAction::Complete { wake: false });
    assert_eq!(e.run_next(), None);
    assert_eq!(e.phase(a), Some(Phase::Suspended));
}

#[test]
fn woken_task_runs_again() {
    let mut e: Executor<i32> = Executor::new();
    let a = e.spawn();
    e.run_next();
    e.end_step(a, None);
    assert!(e.wake(a));
    assert!(!e.wake(a));
    assert_eq!(e.run_next(), Some((a, RunAction::Poll)));
}

#[test]
fn signalled_value_reaches_the_waiter() {
    let mut e: Executor<i32> = Executor::new();
    let t = e.spawn();
    assert_eq!(e.poll_join(t), Some(JoinPoll::Pending));
    assert_eq!(e.run_next(), Some((t, RunAction::Poll)));
    assert_eq!(e.end_step(t, None), StepAction::Suspend);
    // the one-shot signal fires: its waker wakes the task
    assert!(e.wake(t));
    assert_eq!(e.run_next(), Some((t, RunAction::Poll)));
    assert_eq!(e.end_step(t, Some(1024)), StepAction::Complete { wake: true });
    let r = after_join_poll(e.poll_join(t).unwrap());
    assert_eq!(r, Ok(BridgeAction::Return(Some(1024))));
}

#[test]
fn cancelled_waiting_task_resolves_to_no_result() {
    let mut e: Executor<i32> = Executor::new();
    let t = e.spawn();
    e.run_next();
    assert_eq!(e.end_step(t, None), StepAction::Suspend);
    assert_eq!(e.poll_join(t), Some(JoinPoll::Pending));
    assert!(e.cancel(t));
    assert_eq!(e.run_next(), Some((t, RunAction::Teardown { wake: true })));
    assert_eq!(e.phase(t), Some(Phase::Closed));
    // the signal that fires later finds nothing to resume
    assert!(!e.wake(t));
    assert_eq!(e.run_next(), None);
    let r = after_join_poll(e.poll_join(t).unwrap());
    assert_eq!(r, Ok(BridgeAction::Return(None)));
}

#[test]
fn unknown_ids_change_nothing() {
    let mut e: Executor<i32> = Executor::new();
    assert!(!e.wake(3));
    assert!(!e.cancel(3));
    assert_eq!(e.end_step(3, Some(1)), StepAction::Ignore);
    assert_eq!(e.poll_join(3), None);
    assert_eq!(e.pending_runs(), 0);
}
