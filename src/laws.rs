//! What holds of every run of the state machines, over any sequence of
//! events that the threads of a program may produce.

use vstd::prelude::*;
use crate::cell::{is_terminal, CellModel, JoinPoll, Phase, RunAction, StepAction};
use crate::executor::ExecModel;

verus! {

/// One event on a task's shared cell.
pub enum CellEvent<R> {
    Schedule,
    Cancel,
    RunStart,
    Step(Option<R>),
    PollJoin,
}

pub open spec fn cell_apply<R>(c: CellModel<R>, e: CellEvent<R>) -> CellModel<R> {
    match e {
        CellEvent::Schedule => c.after_schedule(),
        CellEvent::Cancel => c.after_cancel(),
        CellEvent::RunStart => c.after_run_start(),
        CellEvent::Step(out) => c.after_step(out),
        CellEvent::PollJoin => c.after_join_poll(),
    }
}

pub open spec fn cell_apply_all<R>(c: CellModel<R>, evs: Seq<CellEvent<R>>) -> CellModel<R>
    decreases evs.len(),
{
    if evs.len() == 0 {
        c
    } else {
        cell_apply_all(cell_apply(c, evs[0]), evs.drop_first())
    }
}

/// How many join polls along `evs` hand out a value.
pub open spec fn deliveries<R>(c: CellModel<R>, evs: Seq<CellEvent<R>>) -> nat
    decreases evs.len(),
{
    if evs.len() == 0 {
        0
    } else {
        (if evs[0] is PollJoin && c.join_outcome() is Ready {
            1nat
        } else {
            0nat
        }) + deliveries(cell_apply(c, evs[0]), evs.drop_first())
    }
}

/// Every transition keeps a cell well formed, and a fresh cell is well formed.
pub proof fn lemma_cell_wf<R>(c: CellModel<R>, e: CellEvent<R>)
    ensures
        CellModel::<R>::initial().wf(),
        c.wf() ==> cell_apply(c, e).wf(),
{
}

/// Once the outcome has been handed out, no event changes the cell.
pub proof fn lemma_consumed_is_final<R>(c: CellModel<R>, evs: Seq<CellEvent<R>>)
    requires
        c.wf(),
        c.consumed,
    ensures
        cell_apply_all(c, evs) == c,
        deliveries(c, evs) == 0,
    decreases evs.len(),
{
    if evs.len() > 0 {
        assert(cell_apply(c, evs[0]) == c);
        lemma_consumed_is_final(c, evs.drop_first());
    }
}

/// A value is handed to the join handle at most once, whatever the events.
pub proof fn lemma_delivered_at_most_once<R>(c: CellModel<R>, evs: Seq<CellEvent<R>>)
    requires
        c.wf(),
    ensures
        deliveries(c, evs) <= 1,
    decreases evs.len(),
{
    if evs.len() > 0 {
        let d = cell_apply(c, evs[0]);
        lemma_cell_wf(c, evs[0]);
        if evs[0] is PollJoin && c.join_outcome() is Ready {
            lemma_consumed_is_final(d, evs.drop_first());
        } else {
            lemma_delivered_at_most_once(d, evs.drop_first());
        }
    }
}

/// When a running, uncancelled task's step returns `v`, the value stays in
/// the cell through any events but join polls, and the first join poll
/// hands out exactly `v`, after which the cell is spent.
pub proof fn lemma_completion_delivers_value<R>(c: CellModel<R>, v: R, evs: Seq<CellEvent<R>>)
    requires
        c.wf(),
        c.phase == Phase::Running,
        !c.closing,
        forall|i: int| 0 <= i < evs.len() ==> !(#[trigger] evs[i] is PollJoin),
    ensures
        cell_apply_all(c.after_step(Some(v)), evs) == c.after_step(Some(v)),
        c.after_step(Some(v)).join_outcome() == JoinPoll::Ready(v),
        deliveries(c.after_step(Some(v)), evs.push(CellEvent::PollJoin)) == 1,
        c.after_step(Some(v)).after_join_poll().consumed,
{
    let d = c.after_step(Some(v));
    lemma_completed_stays(d, evs);
    lemma_deliveries_before_poll(d, evs);
}

proof fn lemma_completed_stays<R>(d: CellModel<R>, evs: Seq<CellEvent<R>>)
    requires
        d.wf(),
        d.phase == Phase::Completed,
        !d.consumed,
        forall|i: int| 0 <= i < evs.len() ==> !(#[trigger] evs[i] is PollJoin),
    ensures
        cell_apply_all(d, evs) == d,
    decreases evs.len(),
{
    if evs.len() > 0 {
        assert(!(evs[0] is PollJoin));
        assert(cell_apply(d, evs[0]) == d);
        assert forall|i: int| 0 <= i < evs.drop_first().len() implies !(
        #[trigger] evs.drop_first()[i] is PollJoin) by {
            assert(evs.drop_first()[i] == evs[i + 1]);
        }
        lemma_completed_stays(d, evs.drop_first());
    }
}

proof fn lemma_deliveries_before_poll<R>(d: CellModel<R>, evs: Seq<CellEvent<R>>)
    requires
        d.wf(),
        d.phase == Phase::Completed,
        !d.consumed,
        forall|i: int| 0 <= i < evs.len() ==> !(#[trigger] evs[i] is PollJoin),
    ensures
        deliveries(d, evs.push(CellEvent::PollJoin)) == 1,
    decreases evs.len(),
{
    let s = evs.push(CellEvent::PollJoin);
    if evs.len() == 0 {
        assert(s.drop_first() =~= Seq::<CellEvent<R>>::empty());
        assert(s[0] is PollJoin);
        assert(d.join_outcome() is Ready);
        assert(deliveries(d.after_join_poll(), s.drop_first()) == 0);
    } else {
        assert(!(evs[0] is PollJoin));
        assert(s[0] == evs[0]);
        assert(cell_apply(d, evs[0]) == d);
        assert(s.drop_first() =~= evs.drop_first().push(CellEvent::PollJoin));
        assert forall|i: int| 0 <= i < evs.drop_first().len() implies !(
        #[trigger] evs.drop_first()[i] is PollJoin) by {
            assert(evs.drop_first()[i] == evs[i + 1]);
        }
        lemma_deliveries_before_poll(d, evs.drop_first());
    }
}

/// Cancellation at any point: a finished task keeps its outcome; an
/// unfinished one is marked closing and is either queued or running, and
/// the next run start or step end closes it, after which the join handle
/// gets "no result".
pub proof fn lemma_cancel_reaches_terminal<R>(c: CellModel<R>, out: Option<R>)
    requires
        c.wf(),
    ensures
        is_terminal(c.phase) ==> c.after_cancel() == c,
        !is_terminal(c.phase) ==> {
            let d = c.after_cancel();
            &&& d.closing
            &&& d.phase == Phase::Scheduled || d.phase == Phase::Running
            &&& d.phase == Phase::Scheduled ==> d.run_action() is Teardown
                && d.after_run_start().phase == Phase::Closed
                && d.after_run_start().join_outcome() == JoinPoll::<R>::Cancelled
            &&& d.phase == Phase::Running ==> d.step_action(out) is Close
                && d.after_step(out).phase == Phase::Closed
                && d.after_step(out).join_outcome() == JoinPoll::<R>::Cancelled
        },
{
}

/// While a cancelled task waits for its teardown, no event completes it or
/// lets it suspend: it stays closing, queued or running, until it is closed.
pub proof fn lemma_closing_is_kept<R>(c: CellModel<R>, e: CellEvent<R>)
    requires
        c.wf(),
        c.closing,
    ensures
        cell_apply(c, e).closing,
        cell_apply(c, e).phase == Phase::Scheduled || cell_apply(c, e).phase == Phase::Running
            || cell_apply(c, e).phase == Phase::Closed,
{
}

/// Whether the action that the event hands to a worker wakes the awaiter.
pub open spec fn wakes_awaiter<R>(c: CellModel<R>, e: CellEvent<R>) -> bool {
    match e {
        CellEvent::RunStart => c.run_action() == RunAction::Teardown { wake: true },
        CellEvent::Step(out) => c.step_action(out) == StepAction::Complete { wake: true }
            || c.step_action(out) == StepAction::Close { wake: true },
        _ => false,
    }
}

/// The registered awaiter is woken exactly when the task reaches a
/// terminal phase, and its registration is then spent.
pub proof fn lemma_awaiter_woken_on_terminal<R>(c: CellModel<R>, e: CellEvent<R>)
    requires
        c.wf(),
    ensures
        wakes_awaiter(c, e) <==> (c.awaiter && !is_terminal(c.phase) && is_terminal(
            cell_apply(c, e).phase,
        )),
        is_terminal(cell_apply(c, e).phase) ==> !cell_apply(c, e).awaiter,
{
}

/// One event of an executor.
pub enum ExecEvent<R> {
    Spawn,
    Wake(usize),
    Cancel(usize),
    RunNext,
    EndStep(usize, Option<R>),
    PollJoin(usize),
}

pub open spec fn exec_apply<R>(e: ExecModel<R>, ev: ExecEvent<R>) -> ExecModel<R> {
    match ev {
        ExecEvent::Spawn => e.after_spawn(),
        ExecEvent::Wake(id) => e.after_wake(id),
        ExecEvent::Cancel(id) => e.after_cancel(id),
        ExecEvent::RunNext => e.after_run_next(),
        ExecEvent::EndStep(id, out) => e.after_end_step(id, out),
        ExecEvent::PollJoin(id) => e.after_join_poll(id),
    }
}

pub open spec fn exec_apply_all<R>(e: ExecModel<R>, evs: Seq<ExecEvent<R>>) -> ExecModel<R>
    decreases evs.len(),
{
    if evs.len() == 0 {
        e
    } else {
        exec_apply_all(exec_apply(e, evs[0]), evs.drop_first())
    }
}

/// The event that an executor event amounts to on task `id`'s cell, if any.
pub open spec fn on_task<R>(e: ExecModel<R>, ev: ExecEvent<R>, id: usize) -> Option<CellEvent<R>> {
    match ev {
        ExecEvent::Wake(j) => if j == id {
            Some(CellEvent::Schedule)
        } else {
            None
        },
        ExecEvent::Cancel(j) => if j == id {
            Some(CellEvent::Cancel)
        } else {
            None
        },
        ExecEvent::RunNext => if e.queue.len() > 0 && e.queue[0] == id {
            Some(CellEvent::RunStart)
        } else {
            None
        },
        ExecEvent::EndStep(j, out) => if j == id {
            Some(CellEvent::Step(out))
        } else {
            None
        },
        ExecEvent::PollJoin(j) => if j == id {
            Some(CellEvent::PollJoin)
        } else {
            None
        },
        ExecEvent::Spawn => None,
    }
}

/// Each executor event changes a task's cell exactly as the cell event it
/// amounts to, and leaves the cells of the other tasks alone; so what holds
/// of every run of one cell holds of each task of an executor.
pub proof fn lemma_executor_acts_per_task<R>(e: ExecModel<R>, ev: ExecEvent<R>, id: usize)
    requires
        ids_in_range(e),
        e.has(id),
    ensures
        exec_apply(e, ev).has(id),
        exec_apply(e, ev).tasks[id as int] == match on_task(e, ev, id) {
            Some(ce) => cell_apply(e.tasks[id as int], ce),
            None => e.tasks[id as int],
        },
{
    lemma_ids_in_range(e, ev);
    if ev is RunNext && e.queue.len() > 0 {
        assert(e.queue[0] < e.tasks.len());
    }
}

pub open spec fn wake_times<R>(e: ExecModel<R>, id: usize, n: nat) -> ExecModel<R>
    decreases n,
{
    if n == 0 {
        e
    } else {
        wake_times(e.after_wake(id), id, (n - 1) as nat)
    }
}

/// Any number of wakes of a task that is queued or running enqueue
/// nothing; for a running task they amount to a single wake, which adds
/// one run to the queue when its step ends.
pub proof fn lemma_wakes_coalesce<R>(e: ExecModel<R>, id: usize, n: nat)
    requires
        e.wf(),
        e.has(id),
        e.tasks[id as int].phase == Phase::Scheduled || e.tasks[id as int].phase == Phase::Running,
    ensures
        wake_times(e, id, n).queue == e.queue,
        n >= 1 ==> wake_times(e, id, n) == e.after_wake(id),
        e.tasks[id as int].phase == Phase::Running ==> wake_times(e, id, n).after_end_step(
            id,
            None,
        ).queue.len() <= e.queue.len() + 1,
{
    if e.tasks[id as int].phase == Phase::Scheduled {
        assert(e.after_wake(id).tasks =~= e.tasks);
    }
    if n >= 1 {
        let w = e.after_wake(id);
        assert(w.after_wake(id).tasks =~= w.tasks);
        lemma_wake_once_more(e, id, (n - 1) as nat);
    }
}

proof fn lemma_wake_once_more<R>(e: ExecModel<R>, id: usize, n: nat)
    requires
        e.has(id),
        e.tasks[id as int].phase == Phase::Scheduled || e.tasks[id as int].phase == Phase::Running,
    ensures
        wake_times(e.after_wake(id), id, n) == e.after_wake(id),
    decreases n,
{
    let w = e.after_wake(id);
    if n >= 1 {
        assert(w.after_wake(id).tasks =~= w.tasks);
        assert(w.after_wake(id) == w);
        lemma_wake_once_more(e, id, (n - 1) as nat);
    }
}

/// The queue never holds a task twice, so it is never longer than the
/// number of tasks.
pub proof fn lemma_queue_bounded<R>(e: ExecModel<R>)
    requires
        e.wf(),
    ensures
        e.queue.len() <= e.tasks.len(),
{
    let s = e.queue.to_set();
    e.queue.unique_seq_to_set();
    let r = Set::new(|x: usize| x < e.tasks.len());
    assert forall|x: usize| s.contains(x) implies r.contains(x) by {
        let k = choose|k: int| 0 <= k < e.queue.len() && e.queue[k] == x;
        assert(e.queue[k] < e.tasks.len());
    }
    let m = e.tasks.len() as usize;
    assert(r =~= Set::range(0, m));
    vstd::set_lib::lemma_len_subset(s, r);
}

/// No queued task is running, so the task a worker receives is never one
/// that another worker is advancing; once started it is running and out
/// of the queue.
pub proof fn lemma_single_runner<R>(e: ExecModel<R>)
    requires
        e.wf(),
    ensures
        forall|j: int|
            0 <= j < e.queue.len() ==> e.tasks[#[trigger] e.queue[j] as int].phase
                == Phase::Scheduled,
        forall|i: int|
            0 <= i < e.tasks.len() && (#[trigger] e.tasks[i]).phase == Phase::Running
                ==> !e.queue.contains(i as usize),
        e.next_run() matches Some((id, RunAction::Poll)) ==> {
            &&& e.after_run_next().tasks[id as int].phase == Phase::Running
            &&& !e.after_run_next().queue.contains(id)
        },
{
    assert forall|j: int|
        0 <= j < e.queue.len() implies e.tasks[#[trigger] e.queue[j] as int].phase
        == Phase::Scheduled by {
        assert(e.queue.contains(e.queue[j]));
        let i = e.queue[j] as int;
        assert(e.tasks[i].wf());
    }
    if e.queue.len() > 0 {
        let id = e.queue[0];
        let d = e.queue.drop_first();
        if d.contains(id) {
            let k = choose|k: int| 0 <= k < d.len() && d[k] == id;
            assert(e.queue[k + 1] == id);
        }
    }
}

/// Every queued id names a task, and every task has an id.
pub open spec fn ids_in_range<R>(e: ExecModel<R>) -> bool {
    &&& e.tasks.len() <= usize::MAX
    &&& forall|j: int| 0 <= j < e.queue.len() ==> (#[trigger] e.queue[j]) < e.tasks.len()
}

/// A well-formed executor has its ids in range.
pub proof fn lemma_wf_ids_in_range<R>(e: ExecModel<R>)
    requires
        e.wf(),
    ensures
        ids_in_range(e),
{
}

/// Ids stay in range through every event; the number of tasks never shrinks.
pub proof fn lemma_ids_in_range<R>(e: ExecModel<R>, ev: ExecEvent<R>)
    requires
        ids_in_range(e),
    ensures
        ids_in_range(exec_apply(e, ev)),
        exec_apply(e, ev).tasks.len() >= e.tasks.len(),
{
    let n = exec_apply(e, ev);
    assert forall|j: int| 0 <= j < n.queue.len() implies (#[trigger] n.queue[j]) < n.tasks.len() by {
        match ev {
            ExecEvent::RunNext => {
                if e.queue.len() > 0 {
                    assert(n.queue[j] == e.queue[j + 1]);
                }
            },
            _ => {
                if j < e.queue.len() {
                    assert(n.queue[j] == e.queue[j]);
                }
            },
        }
    }
    if ev is RunNext && e.queue.len() > 0 {
        assert(e.queue[0] < e.tasks.len());
    }
}

/// A suspended task that no event wakes or cancels stays suspended and out
/// of the queue: it never runs again.
pub proof fn lemma_unwoken_never_runs<R>(e: ExecModel<R>, id: usize, evs: Seq<ExecEvent<R>>)
    requires
        e.has(id),
        ids_in_range(e),
        e.tasks[id as int].phase == Phase::Suspended,
        !e.queue.contains(id),
        forall|i: int|
            0 <= i < evs.len() ==> #[trigger] evs[i] != ExecEvent::<R>::Wake(id) && evs[i]
                != ExecEvent::<R>::Cancel(id),
    ensures
        exec_apply_all(e, evs).has(id),
        exec_apply_all(e, evs).tasks[id as int].phase == Phase::Suspended,
        !exec_apply_all(e, evs).queue.contains(id),
    decreases evs.len(),
{
    if evs.len() > 0 {
        let ev = evs[0];
        let n = exec_apply(e, ev);
        assert(ev != ExecEvent::<R>::Wake(id) && ev != ExecEvent::<R>::Cancel(id));
        match ev {
            ExecEvent::Spawn => {
                if e.tasks.len() < usize::MAX {
                    assert(n.tasks[id as int] == e.tasks[id as int]);
                }
            },
            ExecEvent::Wake(j) => {
                assert(n.tasks.len() == e.tasks.len());
            },
            ExecEvent::Cancel(j) => {
                assert(n.tasks.len() == e.tasks.len());
            },
            ExecEvent::EndStep(j, out) => {
                assert(n.tasks.len() == e.tasks.len());
            },
            ExecEvent::PollJoin(j) => {
                assert(n.tasks.len() == e.tasks.len());
            },
            _ => {},
        }
        lemma_ids_in_range(e, ev);
        assert(n.has(id));
        match ev {
            ExecEvent::RunNext => {
                if e.queue.len() > 0 {
                    assert(e.queue.contains(e.queue[0]));
                    if n.queue.contains(id) {
                        let k = choose|k: int| 0 <= k < n.queue.len() && n.queue[k] == id;
                        assert(e.queue[k + 1] == id);
                    }
                }
            },
            _ => {
                if n.queue.contains(id) {
                    let k = choose|k: int| 0 <= k < n.queue.len() && n.queue[k] == id;
                    if k < e.queue.len() {
                        assert(e.queue[k] == id);
                    } else {
                        match ev {
                            ExecEvent::Spawn => {
                                assert(n.queue[k] == e.tasks.len());
                            },
                            ExecEvent::Wake(j) => {
                                assert(j != id);
                                assert(n.queue == e.queue.push(j));
                            },
                            ExecEvent::Cancel(j) => {
                                assert(j != id);
                                assert(n.queue == e.queue.push(j));
                            },
                            ExecEvent::EndStep(j, out) => {
                                if j == id {
                                    assert(e.step_action(j, out) == StepAction::Ignore);
                                }
                                assert(n.queue == e.queue.push(j));
                            },
                            _ => {},
                        }
                    }
                }
            },
        }
        assert forall|i: int|
            0 <= i < evs.drop_first().len() implies #[trigger] evs.drop_first()[i]
            != ExecEvent::<R>::Wake(id) && evs.drop_first()[i] != ExecEvent::<R>::Cancel(id) by {
            assert(evs.drop_first()[i] == evs[i + 1]);
        }
        lemma_unwoken_never_runs(n, id, evs.drop_first());
    }
}

/// A wake of a suspended task puts it at the back of the queue. From then
/// on every event keeps it queued at its place, except that each receipt
/// by a worker moves it one place forward, and the receipt at the front
/// starts its next run (or its teardown).
pub proof fn lemma_woken_task_advances<R>(e: ExecModel<R>, id: usize, k: int, ev: ExecEvent<R>)
    requires
        e.wf(),
        e.has(id),
    ensures
        e.tasks[id as int].phase == Phase::Suspended ==> {
            &&& e.after_wake(id).tasks[id as int].phase == Phase::Scheduled
            &&& e.after_wake(id).queue == e.queue.push(id)
        },
        (0 <= k < e.queue.len() && e.queue[k] == id) ==> {
            let n = exec_apply(e, ev);
            if ev is RunNext && k == 0 {
                &&& e.next_run() matches Some((j, a)) && j == id && !(a is Skip)
                &&& n.tasks[id as int].phase != Phase::Scheduled
            } else if ev is RunNext {
                &&& n.queue[k - 1] == id
                &&& n.tasks[id as int].phase == Phase::Scheduled
            } else {
                &&& k < n.queue.len()
                &&& n.queue[k] == id
                &&& n.tasks[id as int].phase == Phase::Scheduled
            }
        },
{
    if 0 <= k < e.queue.len() && e.queue[k] == id {
        assert(e.queue.contains(id));
    }
}

} // verus!
