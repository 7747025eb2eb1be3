use task_executor::cell::{JoinPoll, Phase, RunAction, StepAction, TaskCell};

#[test]
fn new_cell_is_idle() {
    let c: TaskCell<i32> = TaskCell::new();
    assert_eq!(c.phase(), Phase::Idle);
    assert!(!c.is_closing());
}

#[test]
fn completion_is_delivered_once() {
    let mut c: TaskCell<i32> = TaskCell::new();
    assert!(c.schedule());
    assert_eq!(c.start_run(), RunAction::Poll);
    assert_eq!(c.poll_join(), JoinPoll::Pending);
    assert_eq!(c.finish_step(Some(1024)), StepAction::Complete { wake: true });
    assert_eq!(c.phase(), Phase::Completed);
    assert_eq!(c.poll_join(), JoinPoll::Ready(1024));
    assert_eq!(c.poll_join(), JoinPoll::Consumed);
    assert_eq!(c.poll_join(), JoinPoll::Consumed);
}

#[test]
fn completion_without_awaiter_wakes_nobody() {
    let mut c: TaskCell<u8> = TaskCell::new();
    c.schedule();
    c.start_run();
    assert_eq!(c.finish_step(Some(7)), StepAction::Complete { wake: false });
    assert!(!c.schedule());
    assert!(!c.cancel());
    assert_eq!(c.phase(), Phase::Completed);
    assert_eq!(c.poll_join(), JoinPoll::Ready(7));
}

#[test]
fn schedule_while_scheduled_is_coalesced() {
    let mut c: TaskCell<i32> = TaskCell::new();
    assert!(c.schedule());
    assert!(!c.schedule());
    assert!(!c.schedule());
    assert_eq!(c.phase(), Phase::Scheduled);
}

#[test]
fn wake_during_run_reschedules_once() {
    let mut c: TaskCell<i32> = TaskCell::new();
    c.schedule();
    assert_eq!(c.start_run(), RunAction::Poll);
    assert!(!c.schedule());
    assert!(!c.schedule());
    assert_eq!(c.finish_step(None), StepAction::Reschedule);
    assert_eq!(c.phase(), Phase::Scheduled);
    assert_eq!(c.start_run(), RunAction::Poll);
    assert_eq!(c.finish_step(None), StepAction::Suspend);
    assert_eq!(c.phase(), Phase::Suspended);
}

#[test]
fn suspended_task_is_rescheduled_by_wake() {
    let mut c: TaskCell<i32> = TaskCell::new();
    c.schedule();
    c.start_run();
    c.finish_step(None);
    assert_eq!(c.phase(), Phase::Suspended);
    assert!(c.schedule());
    assert_eq!(c.phase(), Phase::Scheduled);
}

#[test]
fn cancel_before_first_run() {
    let mut c: TaskCell<i32> = TaskCell::new();
    assert!(c.cancel());
    assert!(c.is_closing());
    assert_eq!(c.phase(), Phase::Scheduled);
    assert_eq!(c.poll_join(), JoinPoll::Pending);
    assert_eq!(c.start_run(), RunAction::Teardown { wake: true });
    assert_eq!(c.phase(), Phase::Closed);
    assert_eq!(c.poll_join(), JoinPoll::Cancelled);
    assert_eq!(c.poll_join(), JoinPoll::Consumed);
}

#[test]
fn cancel_while_scheduled_needs_no_second_enqueue() {
    let mut c: TaskCell<i32> = TaskCell::new();
    assert!(c.schedule());
    assert!(!c.cancel());
    assert_eq!(c.start_run(), RunAction::Teardown { wake: false });
    assert_eq!(c.phase(), Phase::Closed);
}

#[test]
fn cancel_mid_run_discards_the_value() {
    let mut c: TaskCell<i32> = TaskCell::new();
    c.schedule();
    c.start_run();
    assert!(!c.cancel());
    assert_eq!(c.phase(), Phase::Running);
    assert_eq!(c.finish_step(Some(5)), StepAction::Close { wake: false });
    assert_eq!(c.phase(), Phase::Closed);
    assert_eq!(c.poll_join(), JoinPoll::Cancelled);
}

#[test]
fn cancel_after_completion_keeps_the_value() {
    let mut c: TaskCell<i32> = TaskCell::new();
    c.schedule();
    c.start_run();
    c.finish_step(Some(3));
    assert!(!c.cancel());
    assert!(!c.is_closing());
    assert_eq!(c.poll_join(), JoinPoll::Ready(3));
}

#[test]
fn cancel_is_idempotent() {
    let mut c: TaskCell<i32> = TaskCell::new();
    c.schedule();
    c.start_run();
    c.finish_step(None);
    assert!(c.cancel());
    assert!(!c.cancel());
    assert!(!c.schedule());
    assert_eq!(c.start_run(), RunAction::Teardown { wake: false });
    assert!(!c.cancel());
    assert_eq!(c.phase(), Phase::Closed);
}

#[test]
fn run_of_unscheduled_task_is_skipped() {
    let mut c: TaskCell<i32> = TaskCell::new();
    assert_eq!(c.start_run(), RunAction::Skip);
    assert_eq!(c.finish_step(Some(1)), StepAction::Ignore);
    assert_eq!(c.phase(), Phase::Idle);
}
