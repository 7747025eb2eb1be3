//! The shared cell of one spawned computation: its scheduling phase, the
//! pending cancellation, the result slot and the awaiter registration.

use vstd::prelude::*;

verus! {

/// Where a task stands in its life.
#[derive(Clone, Copy, Debug, PartialEq, Eq, Structural)]
pub enum Phase {
    /// Spawned, never scheduled.
    Idle,
    /// Sitting in the run queue; exactly one run is pending.
    Scheduled,
    /// A worker is advancing the computation by one step.
    Running,
    /// The last step returned "not ready"; waiting for a wake.
    Suspended,
    /// The result is stored and the computation is dropped.
    Completed,
    /// The computation was dropped without a result.
    Closed,
}

pub open spec fn is_terminal(p: Phase) -> bool {
    p == Phase::Completed || p == Phase::Closed
}

/// What a worker must do with a task it has just taken off the queue.
#[derive(Clone, Copy, Debug, PartialEq, Eq, Structural)]
pub enum RunAction {
    /// Advance the computation one step with a waker that reschedules it.
    Poll,
    /// Drop the computation; wake the awaiter when `wake` is set.
    Teardown { wake: bool },
    /// Nothing to do: the task was not scheduled.
    Skip,
}

/// What the worker must do once a step of the computation has returned.
#[derive(Clone, Copy, Debug, PartialEq, Eq, Structural)]
pub enum StepAction {
    /// Keep the computation; it waits for a wake.
    Suspend,
    /// A wake arrived during the step: enqueue the task once more.
    Reschedule,
    /// The value was stored; drop the computation, wake the awaiter when `wake` is set.
    Complete { wake: bool },
    /// Cancellation was requested during the step: drop the computation
    /// (discarding any value), wake the awaiter when `wake` is set.
    Close { wake: bool },
    /// The task was not running: nothing happened.
    Ignore,
}

/// What polling the join handle yields.
#[derive(Debug, PartialEq, Eq)]
pub enum JoinPoll<R> {
    /// The computation's value, handed out once.
    Ready(R),
    /// The task was cancelled: there is no result, reported once.
    Cancelled,
    /// Not finished yet; the awaiter is now registered.
    Pending,
    /// The terminal outcome was already handed out.
    Consumed,
}

/// The mathematical content of a task's shared cell.
pub struct CellModel<R> {
    pub phase: Phase,
    /// Cancellation has been requested.
    pub closing: bool,
    /// A wake arrived while the task was running.
    pub rerun: bool,
    /// An awaiter waker is registered.
    pub awaiter: bool,
    /// The result slot.
    pub result: Option<R>,
    /// The terminal outcome has been handed to the join handle.
    pub consumed: bool,
}

impl<R> CellModel<R> {
    /// The states that the operations below can reach.
    pub open spec fn wf(self) -> bool {
        &&& (self.result is Some <==> (self.phase == Phase::Completed && !self.consumed))
        &&& self.rerun ==> self.phase == Phase::Running
        &&& self.awaiter ==> !is_terminal(self.phase)
        &&& self.consumed ==> is_terminal(self.phase)
        &&& self.closing ==> (self.phase == Phase::Scheduled || self.phase == Phase::Running
            || self.phase == Phase::Closed)
    }

    pub open spec fn initial() -> Self {
        CellModel {
            phase: Phase::Idle,
            closing: false,
            rerun: false,
            awaiter: false,
            result: None,
            consumed: false,
        }
    }

    /// A schedule request puts an idle or suspended task in the queue; on a
    /// running task it is remembered for the end of the step; otherwise it
    /// has no effect.
    pub open spec fn schedule_enqueues(self) -> bool {
        self.phase == Phase::Idle || self.phase == Phase::Suspended
    }

    pub open spec fn after_schedule(self) -> Self {
        if self.schedule_enqueues() {
            CellModel { phase: Phase::Scheduled, ..self }
        } else if self.phase == Phase::Running {
            CellModel { rerun: true, ..self }
        } else {
            self
        }
    }

    /// A cancellation enqueues the task only when no run is pending or
    /// under way, so that a worker performs the teardown.
    pub open spec fn cancel_enqueues(self) -> bool {
        !self.closing && (self.phase == Phase::Idle || self.phase == Phase::Suspended)
    }

    pub open spec fn after_cancel(self) -> Self {
        if self.closing || is_terminal(self.phase) {
            self
        } else if self.cancel_enqueues() {
            CellModel { phase: Phase::Scheduled, closing: true, ..self }
        } else {
            CellModel { closing: true, ..self }
        }
    }

    pub open spec fn run_action(self) -> RunAction {
        if self.phase != Phase::Scheduled {
            RunAction::Skip
        } else if self.closing {
            RunAction::Teardown { wake: self.awaiter }
        } else {
            RunAction::Poll
        }
    }

    pub open spec fn after_run_start(self) -> Self {
        if self.phase != Phase::Scheduled {
            self
        } else if self.closing {
            CellModel { phase: Phase::Closed, awaiter: false, ..self }
        } else {
            CellModel { phase: Phase::Running, ..self }
        }
    }

    /// The action after a step that returned `out` (`None`: not ready).
    pub open spec fn step_action(self, out: Option<R>) -> StepAction {
        if self.phase != Phase::Running {
            StepAction::Ignore
        } else if self.closing {
            StepAction::Close { wake: self.awaiter }
        } else if out is Some {
            StepAction::Complete { wake: self.awaiter }
        } else if self.rerun {
            StepAction::Reschedule
        } else {
            StepAction::Suspend
        }
    }

    pub open spec fn after_step(self, out: Option<R>) -> Self {
        if self.phase != Phase::Running {
            self
        } else if self.closing {
            CellModel { phase: Phase::Closed, awaiter: false, rerun: false, ..self }
        } else if out is Some {
            CellModel {
                phase: Phase::Completed,
                awaiter: false,
                rerun: false,
                result: out,
                ..self
            }
        } else if self.rerun {
            CellModel { phase: Phase::Scheduled, rerun: false, ..self }
        } else {
            CellModel { phase: Phase::Suspended, ..self }
        }
    }

    pub open spec fn join_outcome(self) -> JoinPoll<R> {
        if self.consumed {
            JoinPoll::Consumed
        } else if self.phase == Phase::Completed {
            JoinPoll::Ready(self.result->Some_0)
        } else if self.phase == Phase::Closed {
            JoinPoll::Cancelled
        } else {
            JoinPoll::Pending
        }
    }

    pub open spec fn after_join_poll(self) -> Self {
        if self.consumed {
            self
        } else if is_terminal(self.phase) {
            CellModel { consumed: true, result: None, ..self }
        } else {
            CellModel { awaiter: true, ..self }
        }
    }
}

/// The shared cell of a task, changed only through the transitions above.
pub struct TaskCell<R> {
    c: CellModel<R>,
}

impl<R> View for TaskCell<R> {
    type V = CellModel<R>;

    closed spec fn view(&self) -> CellModel<R> {
        self.c
    }
}

impl<R> TaskCell<R> {
    /// A freshly spawned task: idle, no result, no awaiter.
    pub fn new() -> (r: Self)
        ensures
            r@ == CellModel::<R>::initial(),
    {
        TaskCell {
            c: CellModel {
                phase: Phase::Idle,
                closing: false,
                rerun: false,
                awaiter: false,
                result: None,
                consumed: false,
            },
        }
    }

    pub fn phase(&self) -> (r: Phase)
        ensures
            r == self@.phase,
    {
        self.c.phase
    }

    pub fn is_closing(&self) -> (r: bool)
        ensures
            r == self@.closing,
    {
        self.c.closing
    }

    /// Requests a run. Returns whether the caller must enqueue the task.
    pub fn schedule(&mut self) -> (enqueue: bool)
        requires
            old(self)@.wf(),
        ensures
            enqueue == old(self)@.schedule_enqueues(),
            final(self)@ == old(self)@.after_schedule(),
            final(self)@.wf(),
    {
        match self.c.phase {
            Phase::Idle | Phase::Suspended => {
                self.c.phase = Phase::Scheduled;
                true
            },
            Phase::Running => {
                self.c.rerun = true;
                false
            },
            _ => false,
        }
    }
    /// Requests cancellation. Returns whether the caller must enqueue the
    /// task so that a worker drops the computation.
    pub fn cancel(&mut self) -> (enqueue: bool)
        requires
            old(self)@.wf(),
        ensures
            enqueue == old(self)@.cancel_enqueues(),
            final(self)@ == old(self)@.after_cancel(),
            final(self)@.wf(),
    {
        if self.c.closing {
            return false;
        }
        match self.c.phase {
            Phase::Idle | Phase::Suspended => {
                self.c.phase = Phase::Scheduled;
                self.c.closing = true;
                true
            },
            Phase::Scheduled | Phase::Running => {
                self.c.closing = true;
                false
            },
            _ => false,
        }
    }

    /// Called by the worker that took the task off the queue.
    pub fn start_run(&mut self) -> (a: RunAction)
        requires
            old(self)@.wf(),
        ensures
            a == old(self)@.run_action(),
            final(self)@ == old(self)@.after_run_start(),
            final(self)@.wf(),
    {
        if self.c.phase != Phase::Scheduled {
            RunAction::Skip
        } else if self.c.closing {
            let wake = self.c.awaiter;
            self.c.phase = Phase::Closed;
            self.c.awaiter = false;
            RunAction::Teardown { wake }
        } else {
            self.c.phase = Phase::Running;
            RunAction::Poll
        }
    }

    /// Called by the running worker when the step returned `out`
    /// (`None`: the computation is not ready).
    pub fn finish_step(&mut self, out: Option<R>) -> (a: StepAction)
        requires
            old(self)@.wf(),
        ensures
            a == old(self)@.step_action(out),
            final(self)@ == old(self)@.after_step(out),
            final(self)@.wf(),
    {
        if self.c.phase != Phase::Running {
            return StepAction::Ignore;
        }
        let wake = self.c.awaiter;
        if self.c.closing {
            self.c.phase = Phase::Closed;
            self.c.awaiter = false;
            self.c.rerun = false;
            return StepAction::Close { wake };
        }
        match out {
            Some(v) => {
                self.c.phase = Phase::Completed;
                self.c.awaiter = false;
                self.c.rerun = false;
                self.c.result = Some(v);
                StepAction::Complete { wake }
            },
            None => {
                if self.c.rerun {
                    self.c.phase = Phase::Scheduled;
                    self.c.rerun = false;
                    StepAction::Reschedule
                } else {
                    self.c.phase = Phase::Suspended;
                    StepAction::Suspend
                }
            },
        }
    }

    /// Polls the join handle side: hands out the terminal outcome once, or
    /// registers the awaiter.
    pub fn poll_join(&mut self) -> (r: JoinPoll<R>)
        requires
            old(self)@.wf(),
        ensures
            r == old(self)@.join_outcome(),
            final(self)@ == old(self)@.after_join_poll(),
            final(self)@.wf(),
    {
        if self.c.consumed {
            return JoinPoll::Consumed;
        }
        match self.c.phase {
            Phase::Completed => {
                self.c.consumed = true;
                match self.c.result.take() {
                    Some(v) => JoinPoll::Ready(v),
                    None => JoinPoll::Cancelled,
                }
            },
            Phase::Closed => {
                self.c.consumed = true;
                JoinPoll::Cancelled
            },
            _ => {
                self.c.awaiter = true;
                JoinPoll::Pending
            },
        }
    }
}

} // verus!
