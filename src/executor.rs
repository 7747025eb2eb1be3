//! The run queue of a worker pool together with the cells of the tasks
//! spawned on it. A task id is its index in spawn order. The queue holds
//! each scheduled task exactly once, which is what keeps two workers from
//! advancing one computation at the same time.

use std::collections::VecDeque;
use vstd::prelude::*;
use crate::cell::{CellModel, JoinPoll, Phase, RunAction, StepAction, TaskCell};

verus! {

/// The mathematical content of an executor.
pub struct ExecModel<R> {
    pub tasks: Seq<CellModel<R>>,
    /// Task ids in the order in which workers will receive them.
    pub queue: Seq<usize>,
}

impl<R> ExecModel<R> {
    pub open spec fn wf(self) -> bool {
        &&& self.tasks.len() <= usize::MAX
        &&& forall|i: int| 0 <= i < self.tasks.len() ==> (#[trigger] self.tasks[i]).wf()
        &&& forall|j: int| 0 <= j < self.queue.len() ==> (#[trigger] self.queue[j]) < self.tasks.len()
        &&& self.queue.no_duplicates()
        &&& forall|i: int|
            0 <= i < self.tasks.len() ==> (self.queue.contains(i as usize) <==> (
            #[trigger] self.tasks[i]).phase == Phase::Scheduled)
    }

    pub open spec fn has(self, id: usize) -> bool {
        id < self.tasks.len()
    }

    /// A spawn while every id is taken changes nothing.
    pub open spec fn after_spawn(self) -> Self {
        if self.tasks.len() >= usize::MAX {
            self
        } else {
            ExecModel {
                tasks: self.tasks.push(CellModel::<R>::initial().after_schedule()),
                queue: self.queue.push(self.tasks.len() as usize),
            }
        }
    }

    pub open spec fn wake_enqueues(self, id: usize) -> bool {
        self.has(id) && self.tasks[id as int].schedule_enqueues()
    }

    pub open spec fn after_wake(self, id: usize) -> Self {
        if !self.has(id) {
            self
        } else {
            ExecModel {
                tasks: self.tasks.update(id as int, self.tasks[id as int].after_schedule()),
                queue: if self.wake_enqueues(id) {
                    self.queue.push(id)
                } else {
                    self.queue
                },
            }
        }
    }

    pub open spec fn cancel_enqueues(self, id: usize) -> bool {
        self.has(id) && self.tasks[id as int].cancel_enqueues()
    }

    pub open spec fn after_cancel(self, id: usize) -> Self {
        if !self.has(id) {
            self
        } else {
            ExecModel {
                tasks: self.tasks.update(id as int, self.tasks[id as int].after_cancel()),
                queue: if self.cancel_enqueues(id) {
                    self.queue.push(id)
                } else {
                    self.queue
                },
            }
        }
    }

    /// The task a worker receives next, with what it must do with it.
    pub open spec fn next_run(self) -> Option<(usize, RunAction)> {
        if self.queue.len() == 0 {
            None
        } else {
            Some((self.queue[0], self.tasks[self.queue[0] as int].run_action()))
        }
    }

    pub open spec fn after_run_next(self) -> Self {
        if self.queue.len() == 0 {
            self
        } else {
            ExecModel {
                tasks: self.tasks.update(
                    self.queue[0] as int,
                    self.tasks[self.queue[0] as int].after_run_start(),
                ),
                queue: self.queue.drop_first(),
            }
        }
    }

    pub open spec fn step_action(self, id: usize, out: Option<R>) -> StepAction {
        if !self.has(id) {
            StepAction::Ignore
        } else {
            self.tasks[id as int].step_action(out)
        }
    }

    pub open spec fn after_end_step(self, id: usize, out: Option<R>) -> Self {
        if !self.has(id) {
            self
        } else {
            ExecModel {
                tasks: self.tasks.update(id as int, self.tasks[id as int].after_step(out)),
                queue: if self.step_action(id, out) == StepAction::Reschedule {
                    self.queue.push(id)
                } else {
                    self.queue
                },
            }
        }
    }

    pub open spec fn join_outcome(self, id: usize) -> Option<JoinPoll<R>> {
        if !self.has(id) {
            None
        } else {
            Some(self.tasks[id as int].join_outcome())
        }
    }

    pub open spec fn after_join_poll(self, id: usize) -> Self {
        if !self.has(id) {
            self
        } else {
            ExecModel {
                tasks: self.tasks.update(id as int, self.tasks[id as int].after_join_poll()),
                queue: self.queue,
            }
        }
    }
}

proof fn lemma_push_facts(q: Seq<usize>, x: usize)
    ensures
        forall|y: usize| #[trigger] q.push(x).contains(y) <==> (q.contains(y) || y == x),
        q.no_duplicates() && !q.contains(x) ==> q.push(x).no_duplicates(),
{
    assert forall|y: usize| #[trigger] q.push(x).contains(y) <==> (q.contains(y) || y == x) by {
        if q.contains(y) {
            let k = choose|k: int| 0 <= k < q.len() && q[k] == y;
            assert(q.push(x)[k] == y);
        }
        if y == x {
            assert(q.push(x)[q.len() as int] == y);
        }
        if q.push(x).contains(y) && y != x {
            let k = choose|k: int| 0 <= k < q.len() + 1 && q.push(x)[k] == y;
            assert(q[k] == y);
        }
    }
    if q.no_duplicates() && !q.contains(x) {
        assert forall|i: int, j: int|
            0 <= i < q.push(x).len() && 0 <= j < q.push(x).len() && i != j implies q.push(x)[i]
            != q.push(x)[j] by {
            if i < q.len() && j == q.len() {
                assert(q.contains(q[i]));
            }
            if j < q.len() && i == q.len() {
                assert(q.contains(q[j]));
            }
        }
    }
}

proof fn lemma_drop_first_facts(q: Seq<usize>)
    requires
        q.len() > 0,
        q.no_duplicates(),
    ensures
        forall|y: usize| #[trigger] q.drop_first().contains(y) <==> (q.contains(y) && y != q[0]),
        q.drop_first().no_duplicates(),
{
    let d = q.drop_first();
    assert forall|y: usize| #[trigger] d.contains(y) <==> (q.contains(y) && y != q[0]) by {
        if d.contains(y) {
            let k = choose|k: int| 0 <= k < d.len() && d[k] == y;
            assert(q[k + 1] == y);
        }
        if q.contains(y) && y != q[0] {
            let k = choose|k: int| 0 <= k < q.len() && q[k] == y;
            assert(k != 0);
            assert(d[k - 1] == y);
        }
    }
}

/// Replacing one cell keeps the executor well formed when the queue keeps
/// every other id and holds the replaced one exactly when it is scheduled.
proof fn lemma_wf_replace<R>(o: ExecModel<R>, id: usize, c: CellModel<R>, q: Seq<usize>)
    requires
        o.wf(),
        id < o.tasks.len(),
        c.wf(),
        q.no_duplicates(),
        forall|y: usize| y != id ==> (#[trigger] q.contains(y) <==> o.queue.contains(y)),
        q.contains(id) <==> c.phase == Phase::Scheduled,
    ensures
        (ExecModel { tasks: o.tasks.update(id as int, c), queue: q }).wf(),
{
    let n = ExecModel { tasks: o.tasks.update(id as int, c), queue: q };
    assert forall|j: int| 0 <= j < q.len() implies (#[trigger] q[j]) < n.tasks.len() by {
        assert(q.contains(q[j]));
        if q[j] != id {
            let k = choose|k: int| 0 <= k < o.queue.len() && o.queue[k] == q[j];
        }
    }
    assert forall|i: int|
        0 <= i < n.tasks.len() implies (n.queue.contains(i as usize) <==> (
        #[trigger] n.tasks[i]).phase == Phase::Scheduled) by {
        if i != id as int {
            assert(q.contains(i as usize) <==> o.queue.contains(i as usize));
        }
    }
}

/// Tasks and their run queue.
pub struct Executor<R> {
    tasks: Vec<TaskCell<R>>,
    queue: VecDeque<usize>,
}

impl<R> View for Executor<R> {
    type V = ExecModel<R>;

    closed spec fn view(&self) -> ExecModel<R> {
        ExecModel { tasks: self.tasks@.map_values(|t: TaskCell<R>| t@), queue: self.queue@ }
    }
}

impl<R> Executor<R> {
    /// An executor with no task and an empty queue.
    pub fn new() -> (r: Self)
        ensures
            r@.tasks == Seq::<CellModel<R>>::empty(),
            r@.queue == Seq::<usize>::empty(),
            r@.wf(),
    {
        let r = Executor { tasks: Vec::new(), queue: VecDeque::new() };
        proof {
            assert(r@.tasks =~= Seq::<CellModel<R>>::empty());
        }
        r
    }

    /// Registers a new task and schedules it; returns its id.
    pub fn spawn(&mut self) -> (id: usize)
        requires
            old(self)@.wf(),
            old(self)@.tasks.len() < usize::MAX,
        ensures
            id == old(self)@.tasks.len(),
            final(self)@ == old(self)@.after_spawn(),
            final(self)@.wf(),
    {
        let id = self.tasks.len();
        let mut t = TaskCell::new();
        t.schedule();
        self.tasks.push(t);
        self.queue.push_back(id);
        proof {
            let o = old(self)@;
            let n = self@;
            assert(n.tasks =~= o.after_spawn().tasks);
            assert forall|i: int| 0 <= i < n.tasks.len() implies (n.queue.contains(i as usize) <==> (
            #[trigger] n.tasks[i]).phase == Phase::Scheduled) by {
                if i < o.tasks.len() {
                    assert(o.tasks[i] == n.tasks[i]);
                    if o.queue.contains(i as usize) {
                        let k = choose|k: int| 0 <= k < o.queue.len() && o.queue[k] == i as usize;
                        assert(n.queue[k] == i as usize);
                    }
                    if n.queue.contains(i as usize) {
                        let k = choose|k: int| 0 <= k < n.queue.len() && n.queue[k] == i as usize;
                        if k < o.queue.len() {
                            assert(o.queue[k] == i as usize);
                        }
                    }
                } else {
                    assert(n.queue[n.queue.len() - 1] == i as usize);
                }
            }
        }
        id
    }
    /// A wake of task `id`: schedules it, enqueueing it when it was idle or
    /// suspended. Returns whether it was enqueued.
    pub fn wake(&mut self, id: usize) -> (enqueued: bool)
        requires
            old(self)@.wf(),
        ensures
            enqueued == old(self)@.wake_enqueues(id),
            final(self)@ == old(self)@.after_wake(id),
            final(self)@.wf(),
    {
        if id >= self.tasks.len() {
            return false;
        }
        proof {
            assert(old(self)@.tasks[id as int] == self.tasks@[id as int]@);
        }
        let enq = self.tasks[id].schedule();
        if enq {
            self.queue.push_back(id);
        }
        proof {
            let o = old(self)@;
            let n = self@;
            assert(n.tasks =~= o.after_wake(id).tasks);
            lemma_push_facts(o.queue, id);
            if enq {
                assert(!o.queue.contains(id));
            }
            lemma_wf_replace(o, id, n.tasks[id as int], n.queue);
        }
        enq
    }

    /// Cancellation of task `id`. Returns whether the task was enqueued so
    /// that a worker drops its computation.
    pub fn cancel(&mut self, id: usize) -> (enqueued: bool)
        requires
            old(self)@.wf(),
        ensures
            enqueued == old(self)@.cancel_enqueues(id),
            final(self)@ == old(self)@.after_cancel(id),
            final(self)@.wf(),
    {
        if id >= self.tasks.len() {
            return false;
        }
        proof {
            assert(old(self)@.tasks[id as int] == self.tasks@[id as int]@);
        }
        let enq = self.tasks[id].cancel();
        if enq {
            self.queue.push_back(id);
        }
        proof {
            let o = old(self)@;
            let n = self@;
            assert(n.tasks =~= o.after_cancel(id).tasks);
            lemma_push_facts(o.queue, id);
            if enq {
                assert(!o.queue.contains(id));
            }
            lemma_wf_replace(o, id, n.tasks[id as int], n.queue);
        }
        enq
    }

    /// A worker receives the next task of the queue and starts its run.
    /// `None` when the queue is empty.
    pub fn run_next(&mut self) -> (r: Option<(usize, RunAction)>)
        requires
            old(self)@.wf(),
        ensures
            r == old(self)@.next_run(),
            final(self)@ == old(self)@.after_run_next(),
            final(self)@.wf(),
    {
        let front = self.queue.pop_front();
        match front {
            None => {
                proof {
                    assert(self@.tasks =~= old(self)@.tasks);
                }
                None
            },
            Some(id) => {
                proof {
                    let o = old(self)@;
                    assert(o.queue.contains(o.queue[0]));
                    assert(o.tasks[id as int] == self.tasks@[id as int]@);
                }
                let a = self.tasks[id].start_run();
                proof {
                    let o = old(self)@;
                    let n = self@;
                    assert(n.tasks =~= o.after_run_next().tasks);
                    assert(n.queue =~= o.queue.drop_first());
                    lemma_drop_first_facts(o.queue);
                    lemma_wf_replace(o, id, n.tasks[id as int], n.queue);
                }
                Some((id, a))
            },
        }
    }

    /// The worker running task `id` reports that the step returned `out`
    /// (`None`: not ready). The task is enqueued again when a wake arrived
    /// during the step.
    pub fn end_step(&mut self, id: usize, out: Option<R>) -> (a: StepAction)
        requires
            old(self)@.wf(),
        ensures
            a == old(self)@.step_action(id, out),
            final(self)@ == old(self)@.after_end_step(id, out),
            final(self)@.wf(),
    {
        if id >= self.tasks.len() {
            return StepAction::Ignore;
        }
        proof {
            assert(old(self)@.tasks[id as int] == self.tasks@[id as int]@);
        }
        let a = self.tasks[id].finish_step(out);
        let again = match a {
            StepAction::Reschedule => true,
            _ => false,
        };
        if again {
            self.queue.push_back(id);
        }
        proof {
            let o = old(self)@;
            let n = self@;
            assert(n.tasks =~= o.after_end_step(id, out).tasks);
            lemma_push_facts(o.queue, id);
            assert(!o.queue.contains(id) || o.tasks[id as int].phase != Phase::Running);
            lemma_wf_replace(o, id, n.tasks[id as int], n.queue);
        }
        a
    }

    /// Polls the join handle of task `id`; `None` for an id that was never
    /// handed out.
    pub fn poll_join(&mut self, id: usize) -> (r: Option<JoinPoll<R>>)
        requires
            old(self)@.wf(),
        ensures
            r == old(self)@.join_outcome(id),
            final(self)@ == old(self)@.after_join_poll(id),
            final(self)@.wf(),
    {
        if id >= self.tasks.len() {
            return None;
        }
        proof {
            assert(old(self)@.tasks[id as int] == self.tasks@[id as int]@);
        }
        let r = self.tasks[id].poll_join();
        proof {
            let o = old(self)@;
            let n = self@;
            assert(n.tasks =~= o.after_join_poll(id).tasks);
            lemma_wf_replace(o, id, n.tasks[id as int], n.queue);
        }
        Some(r)
    }

    /// How many tasks were spawned.
    pub fn num_tasks(&self) -> (r: usize)
        ensures
            r == self@.tasks.len(),
    {
        self.tasks.len()
    }

    /// How many runs are pending in the queue.
    pub fn pending_runs(&self) -> (r: usize)
        ensures
            r == self@.queue.len(),
    {
        self.queue.len()
    }

    /// The phase of task `id`, `None` for an unknown id.
    pub fn phase(&self, id: usize) -> (r: Option<Phase>)
        ensures
            r == (if self@.has(id) {
                Some(self@.tasks[id as int].phase)
            } else {
                None
            }),
    {
        if id < self.tasks.len() {
            Some(self.tasks[id].phase())
        } else {
            None
        }
    }
}

} // verus!
