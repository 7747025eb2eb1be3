//! The blocking bridge: a plain thread drives a computation, parking
//! between polls until its waker unparks it.

use vstd::prelude::*;
use crate::cell::JoinPoll;

verus! {

/// What the blocked thread does after one poll.
#[derive(Debug, PartialEq, Eq)]
pub enum BridgeAction<T> {
    /// The computation finished: hand the value back to the caller.
    Return(T),
    /// Not ready: park until the waker unparks this thread, then poll again.
    Park,
}

/// Misuses of the bridge that are reported rather than waited on.
#[derive(Clone, Copy, Debug, PartialEq, Eq, Structural)]
pub enum BlockOnError {
    /// A blocking wait was entered while another one on the same parker
    /// was still in progress.
    Reentrant,
    /// The join handle's outcome was already handed out.
    AlreadyConsumed,
}

/// The decision after polling the driven computation (`None`: not ready).
pub fn after_poll<T>(p: Option<T>) -> (a: BridgeAction<T>)
    ensures
        match p {
            Some(v) => a == BridgeAction::Return(v),
            None => a == BridgeAction::<T>::Park,
        },
{
    match p {
        Some(v) => BridgeAction::Return(v),
        None => BridgeAction::Park,
    }
}

/// The decision after polling a join handle: its value or "no result"
/// ends the wait, a pending handle parks the thread, and a handle whose
/// outcome was already taken is an error.
pub fn after_join_poll<R>(p: JoinPoll<R>) -> (r: Result<BridgeAction<Option<R>>, BlockOnError>)
    ensures
        match p {
            JoinPoll::Ready(v) => r == Ok::<_, BlockOnError>(BridgeAction::Return(Some(v))),
            JoinPoll::Cancelled => r == Ok::<_, BlockOnError>(BridgeAction::Return(None::<R>)),
            JoinPoll::Pending => r == Ok::<_, BlockOnError>(BridgeAction::<Option<R>>::Park),
            JoinPoll::Consumed => r == Err::<BridgeAction<Option<R>>, _>(
                BlockOnError::AlreadyConsumed,
            ),
        },
{
    match p {
        JoinPoll::Ready(v) => Ok(BridgeAction::Return(Some(v))),
        JoinPoll::Cancelled => Ok(BridgeAction::Return(None)),
        JoinPoll::Pending => Ok(BridgeAction::Park),
        JoinPoll::Consumed => Err(BlockOnError::AlreadyConsumed),
    }
}

/// Guards a parker and its waker that are shared by the blocking waits of
/// one thread: at most one wait uses them at a time.
pub struct BlockOnGuard {
    active: bool,
}

impl View for BlockOnGuard {
    type V = bool;

    /// Whether a wait is in progress.
    closed spec fn view(&self) -> bool {
        self.active
    }
}

impl BlockOnGuard {
    pub fn new() -> (r: Self)
        ensures
            !r@,
    {
        BlockOnGuard { active: false }
    }

    pub fn is_active(&self) -> (r: bool)
        ensures
            r == self@,
    {
        self.active
    }

    /// Starts a wait; refused while another wait is in progress.
    pub fn enter(&mut self) -> (r: Result<(), BlockOnError>)
        ensures
            old(self)@ ==> r == Err::<(), _>(BlockOnError::Reentrant) && final(self)@,
            !old(self)@ ==> r == Ok::<(), BlockOnError>(()) && final(self)@,
    {
        if self.active {
            Err(BlockOnError::Reentrant)
        } else {
            self.active = true;
            Ok(())
        }
    }

    /// Ends the wait in progress.
    pub fn leave(&mut self)
        ensures
            !final(self)@,
    {
        self.active = false;
    }
}

} // verus!
