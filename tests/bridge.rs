use task_executor::bridge::{after_join_poll, after_poll, BlockOnError, BlockOnGuard, BridgeAction};
use task_executor::cell::JoinPoll;

#[test]
fn ready_poll_returns_the_value() {
    assert_eq!(after_poll(Some(1024)), BridgeAction::Return(1024));
}

#[test]
fn pending_poll_parks() {
    assert_eq!(after_poll::<i32>(None), BridgeAction::Park);
}

#[test]
fn join_poll_outcomes() {
    assert_eq!(after_join_poll(JoinPoll::Ready(4)), Ok(BridgeAction::Return(Some(4))));
    assert_eq!(after_join_poll::<i32>(JoinPoll::Cancelled), Ok(BridgeAction::Return(None)));
    assert_eq!(after_join_poll::<i32>(JoinPoll::Pending), Ok(BridgeAction::Park));
    assert_eq!(after_join_poll::<i32>(JoinPoll::Consumed), Err(BlockOnError::AlreadyConsumed));
}

#[test]
fn nested_wait_is_refused() {
    let mut g = BlockOnGuard::new();
    assert!(!g.is_active());
    assert_eq!(g.enter(), Ok(()));
    assert_eq!(g.enter(), Err(BlockOnError::Reentrant));
    assert!(g.is_active());
    g.leave();
    assert!(!g.is_active());
    assert_eq!(g.enter(), Ok(()));
}
