//! What holds of every task of a registry, and of what is told of it.
use crate::task_laws;
use crate::tasks;
use crate::tasks::{
    InterruptPolicy, NotificationView, NotifyPolicy, OutgoingView, RegistryView, TaskEventView,
    TaskMeta, TaskState, TaskSummaryView, TaskView,
};
use crate::time::{Moment, Span};
use serde_json::Value;
use vstd::prelude::*;

verus! {

// ── States ────────────────────────────────────────────────────────────

/// The task has come to an end.
pub open spec fn has_ended(t: TaskView) -> bool {
    match t.state {
        TaskState::Working => false,
        TaskState::InputRequired => false,
        TaskState::Completed => true,
        TaskState::Failed => true,
        TaskState::Cancelled => true,
    }
}

/// A task that works or waits is not over; one that was completed, failed or
/// was cancelled is.
pub proof fn three_states_are_ends(t: TaskView)
    ensures
        t.state.terminal() <==> has_ended(t),
{
}

/// A task polls at most once a second, is kept for five minutes, and
/// interrupts whenever it can, unless something else is asked for.
pub proof fn usual_hints()
    ensures
        TaskMeta::usual() == (TaskMeta {
            min_poll_interval_ms: 1000,
            ttl_after_completion_s: 300,
            interrupt_on: InterruptPolicy {
                on_complete: true,
                on_failed: true,
                on_input_required: true,
                on_pattern_matched: true,
            },
            deadline: None,
        }),
{
}

/// The time that a task has worked up to a moment: what it had worked before,
/// and the time since its last activity, if it works.
pub open spec fn work_up_to(t: TaskView, now: Moment) -> Span {
    if t.state == TaskState::Working {
        t.worked_duration.with(now.since(t.last_activity))
    } else {
        t.worked_duration
    }
}

// ── Keeping ───────────────────────────────────────────────────────────

/// No task but the one under `id` differs, and none changes its place.
pub open spec fn only_differs_in(r: RegistryView, next: RegistryView, id: Seq<char>) -> bool {
    &&& next.keys_distinct()
    &&& next.tasks.len() == r.tasks.len()
    &&& forall|i: int|
        0 <= i < r.tasks.len() ==> (#[trigger] next.tasks[i]).0 == r.tasks[i].0 && (r.tasks[i].0
            != id ==> next.tasks[i] == r.tasks[i])
    &&& forall|other: Seq<char>| other != id ==> #[trigger] next.get(other) == r.get(other)
}

proof fn replacing_differs_in_one(r: RegistryView, id: Seq<char>, t: TaskView)
    requires
        r.keys_distinct(),
        r.has(id),
    ensures
        only_differs_in(r, r.with_task(id, t), id),
        r.with_task(id, t).get(id) == Some(t),
{
    tasks::replacing_is_local(r, id, t);
    assert(tasks::keyed(r.tasks, id, r.slot(id)));
}

/// A new task comes after the others; one under a key that is there takes the
/// place of what was there. Nothing is told.
pub proof fn registering_keeps_the_order(r: RegistryView, t: TaskView)
    requires
        r.keys_distinct(),
    ensures
        ({
            let next = r.registered(t);
            &&& next.get(t.id) == Some(t)
            &&& next.outgoing == r.outgoing
            &&& r.get(t.id) is None ==> next.tasks == r.tasks.push((t.id, t))
            &&& r.get(t.id) is Some ==> only_differs_in(r, next, t.id)
        }),
{
    tasks::registered_is_found(r, t);
    if r.has(t.id) {
        replacing_differs_in_one(r, t.id, t);
    }
}

/// Removing a task tells nothing and keeps the others in their order.
pub proof fn removing_keeps_the_order(r: RegistryView, id: Seq<char>)
    requires
        r.keys_distinct(),
    ensures
        ({
            let next = r.removed(id);
            &&& next.outgoing == r.outgoing
            &&& r.get(id) is None ==> next == r
            &&& r.get(id) is Some ==> next.tasks.len() == r.tasks.len() - 1
            &&& exists|at: int|
                0 <= at <= r.tasks.len() && next.tasks.take(at) == #[trigger] r.tasks.take(at)
                    && (r.get(id) is Some ==> at < r.tasks.len() && r.tasks[at].0 == id
                    && next.tasks.skip(at) == r.tasks.skip(at + 1))
        }),
{
    let next = r.removed(id);
    if r.has(id) {
        let at = r.slot(id);
        assert(tasks::keyed(r.tasks, id, at));
        assert(next.tasks.take(at) =~= r.tasks.take(at));
        assert(next.tasks.skip(at) =~= r.tasks.skip(at + 1));
    } else {
        assert(next.tasks.take(0) == r.tasks.take(0));
    }
}

// ── Transitions ───────────────────────────────────────────────────────

/// The task under `id`, unless it is over or not there, has moved to the state
/// with the summary as its result; the work up to then counts, and nothing else
/// has changed.
pub open spec fn moves(
    r: RegistryView,
    next: RegistryView,
    id: Seq<char>,
    state: TaskState,
    summary: Option<Seq<char>>,
    now: Moment,
) -> bool {
    match r.get(id) {
        None => next == r,
        Some(t) => if has_ended(t) {
            next == r
        } else {
            &&& only_differs_in(r, next, id)
            &&& next.get(id) matches Some(u) && {
                &&& u.state == state
                &&& u.result_summary == summary
                &&& u.status_message == (if summary is Some {
                    summary
                } else {
                    t.status_message
                })
                &&& u.last_activity == now
                &&& u.worked_duration == work_up_to(t, now)
                &&& u == (TaskView {
                    state: u.state,
                    result_summary: u.result_summary,
                    status_message: u.status_message,
                    last_activity: u.last_activity,
                    worked_duration: u.worked_duration,
                    ..t
                })
            }
        },
    }
}

/// A transition puts a task that is not over into the state, with the summary
/// as its result, and as its status where there is one; the work up to then
/// counts. It keeps all else of the task and every other task. A task that is
/// over stays as it is.
pub proof fn transition_moves_one_task(
    r: RegistryView,
    id: Seq<char>,
    state: TaskState,
    summary: Option<Seq<char>>,
    now: Moment,
)
    requires
        r.keys_distinct(),
    ensures
        moves(r, r.transitioned(id, state, summary, now), id, state, summary, now),
{
    task_laws::transition_is_local(r, id, state, summary, now);
    if let Some(t) = r.get(id) {
        if !has_ended(t) {
            let arrived = tasks::moved(t, state, summary, now);
            replacing_differs_in_one(r, id, arrived);
            let next = r.with_task(id, arrived);
            task_laws::sending_keeps_tasks(next, tasks::arrival_events(next.tasks, arrived, now));
        }
    }
}

// ── Telling ───────────────────────────────────────────────────────────

/// All that is told of a task that is over.
pub open spec fn told(t: TaskView) -> TaskSummaryView {
    TaskSummaryView {
        id: t.id,
        source: t.source,
        description: t.description,
        state: t.state,
        duration: t.worked_duration,
        result_summary: t.result_summary,
        status_message: t.status_message,
        result: t.result,
        error: t.error,
    }
}

/// What is told of a task at a moment is what it is then, with all the work that
/// it has done up to there.
pub proof fn summaries_tell_the_task(t: TaskView, now: Moment)
    ensures
        tasks::summary_of(t, now) == (TaskSummaryView { duration: work_up_to(t, now), ..told(t) }),
{
}

/// The task under `id` belongs to the batch.
pub open spec fn belongs(r: RegistryView, id: Seq<char>, batch_id: Seq<char>) -> bool {
    r.get(id) matches Some(t) && t.batch_id == Some(batch_id)
}

/// This is what is told of the task under `id`, which belongs to the batch.
pub open spec fn told_as(
    r: RegistryView,
    id: Seq<char>,
    batch_id: Seq<char>,
    s: TaskSummaryView,
) -> bool {
    belongs(r, id, batch_id) && s == told(r.get(id).unwrap())
}

/// This is what is told of some task of the batch.
pub open spec fn tells_of_one(r: RegistryView, batch_id: Seq<char>, s: TaskSummaryView) -> bool {
    exists|id: Seq<char>| #[trigger] told_as(r, id, batch_id, s)
}

/// Every task of the batch is told of, whatever it ended with, and no other.
pub open spec fn tells_the_batch(
    r: RegistryView,
    batch_id: Seq<char>,
    summaries: Seq<TaskSummaryView>,
) -> bool {
    &&& forall|id: Seq<char>| #[trigger]
        belongs(r, id, batch_id) ==> summaries.contains(told(r.get(id).unwrap()))
    &&& forall|i: int|
        0 <= i < summaries.len() ==> tells_of_one(r, batch_id, #[trigger] summaries[i])
    &&& summaries.len() == r.tasks.filter(
        |e: (Seq<char>, TaskView)| e.1.batch_id == Some(batch_id),
    ).len()
}

/// All tasks of a batch are over.
pub open spec fn batch_has_ended(r: RegistryView, batch_id: Seq<char>) -> bool {
    forall|id: Seq<char>| #[trigger]
        belongs(r, id, batch_id) ==> has_ended(r.get(id).unwrap())
}

/// A batch is told of exactly if it has tasks and all of them are over: in one
/// event, with every one of its tasks, in the order in which they are kept.
pub proof fn batch_is_told_whole(r: RegistryView, batch_id: Seq<char>, now: Moment)
    requires
        r.keys_distinct(),
    ensures
        ({
            let events = tasks::batch_events(r.tasks, batch_id, now);
            if batch_has_ended(r, batch_id) && exists|id: Seq<char>| #[trigger]
                belongs(r, id, batch_id) {
                &&& events.len() == 1
                &&& events[0] matches OutgoingView::Event(
                    TaskEventView::BatchCompleted { batch_id: named, task_summaries },
                ) && named == batch_id && tells_the_batch(r, batch_id, task_summaries)
                    && task_summaries == r.tasks.filter(
                    |e: (Seq<char>, TaskView)| e.1.batch_id == Some(batch_id),
                ).map_values(|e: (Seq<char>, TaskView)| told(e.1))
            } else {
                events.len() == 0
            }
        }),
{
    let chosen = |e: (Seq<char>, TaskView)| e.1.batch_id == Some(batch_id);
    let plain = |e: (Seq<char>, TaskView)| told(e.1);
    assert(tasks::in_batch(batch_id) =~= chosen);
    assert forall|i: int| tasks::keyed(r.tasks, #[trigger] r.tasks[i].0, i) implies r.get(
        r.tasks[i].0,
    ) == Some(r.tasks[i].1) by {
        tasks::slot_is_unique(r, r.tasks[i].0, i);
    }
    assert forall|id: Seq<char>| #[trigger] belongs(r, id, batch_id) implies tasks::keyed(
        r.tasks,
        id,
        r.slot(id),
    ) && r.tasks[r.slot(id)].1 == r.get(id).unwrap() by {}
    let whole = batch_has_ended(r, batch_id);
    let some = exists|id: Seq<char>| #[trigger] belongs(r, id, batch_id);
    if some {
        let id = choose|id: Seq<char>| #[trigger] belongs(r, id, batch_id);
        assert(r.tasks[r.slot(id)].1.batch_id == Some(batch_id));
    }
    if exists|i: int|
        0 <= i < r.tasks.len() && (#[trigger] r.tasks[i]).1.batch_id == Some(batch_id) {
        let i = choose|i: int|
            0 <= i < r.tasks.len() && (#[trigger] r.tasks[i]).1.batch_id == Some(batch_id);
        assert(tasks::keyed(r.tasks, r.tasks[i].0, i));
        assert(belongs(r, r.tasks[i].0, batch_id));
    }
    if whole {
        assert forall|i: int|
            0 <= i < r.tasks.len() && (#[trigger] r.tasks[i]).1.batch_id == Some(
                batch_id,
            ) implies r.tasks[i].1.state.terminal() && has_ended(r.tasks[i].1) by {
            assert(tasks::keyed(r.tasks, r.tasks[i].0, i));
            assert(belongs(r, r.tasks[i].0, batch_id));
        }
    } else {
        let id = choose|id: Seq<char>| #[trigger]
            belongs(r, id, batch_id) && !has_ended(r.get(id).unwrap());
        assert(!r.tasks[r.slot(id)].1.state.terminal());
    }
    assert(tasks::batch_done(r.tasks, batch_id) == (whole && some));
    if whole && some {
        let summaries = tasks::batch_summaries(r.tasks, batch_id, now);
        let kept = r.tasks.filter(chosen);
        task_laws::filter_members(r.tasks, chosen);
        assert forall|i: int| 0 <= i < kept.len() implies has_ended((#[trigger] kept[i]).1)
            && tells_of_one(r, batch_id, told(kept[i].1)) by {
            assert(kept.contains(kept[i]));
            let k = choose|k: int| 0 <= k < r.tasks.len() && r.tasks[k] == kept[i];
            assert(tasks::keyed(r.tasks, r.tasks[k].0, k));
            assert(told_as(r, r.tasks[k].0, batch_id, told(kept[i].1)));
        }
        assert(summaries =~= kept.map_values(plain));
        assert forall|id: Seq<char>| #[trigger]
            belongs(r, id, batch_id) implies summaries.contains(told(r.get(id).unwrap())) by {
            let e = r.tasks[r.slot(id)];
            assert(r.tasks.contains(e));
            assert(kept.contains(e));
            let k = choose|k: int| 0 <= k < kept.len() && kept[k] == e;
            assert(summaries[k] == told(e.1));
        }
        assert(tells_the_batch(r, batch_id, summaries));
    }
}

/// The end of the task under `id` is told by its policy: at once, if it asks to
/// hear of such an end; with the last task of its batch; or never. What is told
/// is the task as the end left it.
pub open spec fn told_by_policy(
    r: RegistryView,
    next: RegistryView,
    id: Seq<char>,
    state: TaskState,
) -> bool {
    let t = r.get(id).unwrap();
    let wanted = t.meta.interrupt_on;
    match t.notify_policy {
        NotifyPolicy::Informational => next.outgoing == r.outgoing,
        NotifyPolicy::OnCompletion => if (state == TaskState::Completed
            && wanted.on_complete) || (state == TaskState::Failed && wanted.on_failed) {
            next.outgoing == r.outgoing.push(
                OutgoingView::Event(
                    TaskEventView::TaskCompleted { task: told(next.get(id).unwrap()) },
                ),
            )
        } else {
            next.outgoing == r.outgoing
        },
        NotifyPolicy::OnBatchCompletion => match t.batch_id {
            None => next.outgoing == r.outgoing,
            Some(batch_id) => if batch_has_ended(next, batch_id) {
                &&& next.outgoing.len() == r.outgoing.len() + 1
                &&& next.outgoing.drop_last() == r.outgoing
                &&& next.outgoing.last() matches OutgoingView::Event(
                    TaskEventView::BatchCompleted { batch_id: named, task_summaries },
                ) && named == batch_id && tells_the_batch(next, batch_id, task_summaries)
            } else {
                next.outgoing == r.outgoing
            },
        },
    }
}

/// An end that was reached is told by the policy of the task; otherwise nothing
/// is told.
pub open spec fn tells_if_ended(
    r: RegistryView,
    next: RegistryView,
    id: Seq<char>,
    state: TaskState,
) -> bool {
    if r.get(id) is Some && !has_ended(r.get(id).unwrap()) {
        told_by_policy(r, next, id, state)
    } else {
        next.outgoing == r.outgoing
    }
}

/// The end of a task is told by its policy: at once, if it asks to hear of such
/// an end; with the last task of its batch; or never. What is told is the task
/// as the end left it.
pub proof fn end_is_told_by_policy(
    r: RegistryView,
    id: Seq<char>,
    state: TaskState,
    summary: Option<Seq<char>>,
    now: Moment,
)
    requires
        r.keys_distinct(),
        r.get(id) is Some,
        !has_ended(r.get(id).unwrap()),
        state == TaskState::Completed || state == TaskState::Failed || state
            == TaskState::Cancelled,
    ensures
        told_by_policy(r, r.transitioned(id, state, summary, now), id, state),
{
    let t = r.get(id).unwrap();
    let next = r.transitioned(id, state, summary, now);
    transition_moves_one_task(r, id, state, summary, now);
    let arrived = tasks::moved(t, state, summary, now);
    let u = next.get(id).unwrap();
    assert(u =~= arrived);
    assert(tasks::summary_of(arrived, now) =~= told(u));
    if let Some(batch_id) = t.batch_id {
        batch_is_told_whole(next, batch_id, now);
        assert(belongs(next, id, batch_id));
        let more = tasks::batch_events(next.tasks, batch_id, now);
        if t.notify_policy == NotifyPolicy::OnBatchCompletion {
            assert(next.outgoing == r.outgoing + more);
            if more.len() == 1 {
                assert((r.outgoing + more).drop_last() =~= r.outgoing);
                assert((r.outgoing + more).last() == more[0]);
            } else {
                assert(r.outgoing + more =~= r.outgoing);
            }
        }
    }
    assert(r.outgoing + Seq::<OutgoingView>::empty() =~= r.outgoing);
}

/// A task that is cancelled is asked to stop by its handle, first of all and
/// even if it is over; then it moves to its end with the word `cancelled`.
pub proof fn cancelling_fires_and_ends(r: RegistryView, id: Seq<char>, now: Moment)
    requires
        r.keys_distinct(),
    ensures
        match r.get(id) {
            None => r.cancelled(id, now) == r,
            Some(t) => {
                let fired = match t.cancellation_token {
                    Some(token) => RegistryView {
                        outgoing: r.outgoing.push(OutgoingView::Fire(token)),
                        ..r
                    },
                    None => r,
                };
                let next = r.cancelled(id, now);
                &&& next == fired.transitioned(
                    id,
                    TaskState::Cancelled,
                    Some("cancelled"@),
                    now,
                )
                &&& fired.outgoing.is_prefix_of(next.outgoing)
                &&& has_ended(t) ==> next == fired
                &&& !has_ended(t) ==> only_differs_in(r, next, id) && (next.get(id) matches Some(u)
                    && u.state == TaskState::Cancelled && u.result_summary == Some(
                    "cancelled"@,
                ))
            },
        },
{
    if let Some(t) = r.get(id) {
        let fired = match t.cancellation_token {
            Some(token) => RegistryView {
                outgoing: r.outgoing.push(OutgoingView::Fire(token)),
                ..r
            },
            None => r,
        };
        if let Some(token) = t.cancellation_token {
            assert(r.firing(id) =~= fired);
            task_laws::sending_keeps_tasks(r, seq![OutgoingView::Fire(token)]);
        }
        task_laws::transition_is_local(
            fired,
            id,
            TaskState::Cancelled,
            Some("cancelled"@),
            now,
        );
        transition_moves_one_task(fired, id, TaskState::Cancelled, Some("cancelled"@), now);
        let next = r.cancelled(id, now);
        assert(next == fired.transitioned(id, TaskState::Cancelled, Some("cancelled"@), now));
        if !has_ended(t) {
            assert forall|other: Seq<char>| other != id implies #[trigger] next.get(other)
                == r.get(other) by {
                assert(next.get(other) == fired.get(other));
            }
        }
    }
}

// ── Results ───────────────────────────────────────────────────────────

/// A result or an error goes to the task that it is of, with its status, and
/// changes nothing else; a task that is over takes none.
pub proof fn results_go_to_their_task(
    r: RegistryView,
    id: Seq<char>,
    value: Value,
    status: Option<Seq<char>>,
)
    requires
        r.keys_distinct(),
    ensures
        match r.get(id) {
            Some(t) if !has_ended(t) => {
                &&& only_differs_in(r, r.with_result(id, value, status), id)
                &&& only_differs_in(r, r.with_error(id, value, status), id)
                &&& r.with_result(id, value, status).outgoing == r.outgoing
                &&& r.with_error(id, value, status).outgoing == r.outgoing
                &&& r.with_result(id, value, status).get(id) == Some(
                    TaskView { result: Some(value), status_message: status, ..t },
                )
                &&& r.with_error(id, value, status).get(id) == Some(
                    TaskView { error: Some(value), status_message: status, ..t },
                )
            },
            _ => r.with_result(id, value, status) == r && r.with_error(id, value, status) == r,
        },
{
    if let Some(t) = r.get(id) {
        replacing_differs_in_one(
            r,
            id,
            TaskView { result: Some(value), status_message: status, ..t },
        );
        replacing_differs_in_one(r, id, TaskView { error: Some(value), status_message: status, ..t });
    }
}

// ── Waiting ───────────────────────────────────────────────────────────

/// A task that asks waits for input with its question, and the question is
/// told of under its identifier if its policy wants that; a task that is over
/// asks nothing.
pub proof fn asking_waits_for_input(
    r: RegistryView,
    id: Seq<char>,
    question: Seq<char>,
    now: Moment,
)
    requires
        r.keys_distinct(),
    ensures
        match r.get(id) {
            Some(t) if !has_ended(t) => {
                let next = r.asked(id, question, now);
                &&& only_differs_in(r, next, id)
                &&& next.get(id) == Some(
                    TaskView {
                        state: TaskState::InputRequired,
                        input_request: Some(question),
                        worked_duration: work_up_to(t, now),
                        last_activity: now,
                        ..t
                    },
                )
                &&& t.meta.interrupt_on.on_input_required ==> next.outgoing == r.outgoing.push(
                    OutgoingView::Event(TaskEventView::TaskNeedsInput { task_id: id, question }),
                )
                &&& !t.meta.interrupt_on.on_input_required ==> next.outgoing == r.outgoing
            },
            _ => r.asked(id, question, now) == r,
        },
{
    if let Some(t) = r.get(id) {
        if !has_ended(t) {
            let asking = tasks::asking(t, question, now);
            replacing_differs_in_one(r, id, asking);
            let more = seq![
                OutgoingView::Event(TaskEventView::TaskNeedsInput { task_id: id, question }),
            ];
            task_laws::local_step(r, id, asking, more);
            assert(r.outgoing + more =~= r.outgoing.push(more[0]));
        }
    }
}

/// A task that waits for input goes on when it is resumed; the wait is no work,
/// and no other task is resumed. Nothing is told.
pub proof fn resuming_goes_on(r: RegistryView, id: Seq<char>, now: Moment)
    requires
        r.keys_distinct(),
    ensures
        r.resumed(id, now).outgoing == r.outgoing,
        match r.get(id) {
            Some(t) if t.state == TaskState::InputRequired => {
                &&& only_differs_in(r, r.resumed(id, now), id)
                &&& r.resumed(id, now).get(id) == Some(
                    TaskView { state: TaskState::Working, last_activity: now, ..t },
                )
            },
            _ => r.resumed(id, now) == r,
        },
{
    if let Some(t) = r.get(id) {
        replacing_differs_in_one(
            r,
            id,
            TaskView { state: TaskState::Working, last_activity: now, ..t },
        );
    }
}

// ── Activity ──────────────────────────────────────────────────────────

/// The task as it stands with activity at a moment: nothing but its clock goes
/// on.
pub open spec fn busy(t: TaskView, now: Moment) -> TaskView {
    TaskView { worked_duration: work_up_to(t, now), last_activity: now, ..t }
}

/// Activity counts the work up to its moment, keeps the state, and is not told.
/// A note is kept, after those before, with its moment.
pub proof fn activity_is_counted(r: RegistryView, id: Seq<char>, message: Seq<char>, now: Moment)
    requires
        r.keys_distinct(),
    ensures
        r.touched(id, now).outgoing == r.outgoing,
        r.noted(id, message, now).outgoing == r.outgoing,
        match r.get(id) {
            None => r.touched(id, now) == r && r.noted(id, message, now) == r,
            Some(t) => {
                &&& only_differs_in(r, r.touched(id, now), id)
                &&& only_differs_in(r, r.noted(id, message, now), id)
                &&& r.touched(id, now).get(id) == Some(busy(t, now))
                &&& r.noted(id, message, now).get(id) == Some(
                    TaskView {
                        notifications: t.notifications.push(
                            NotificationView { timestamp: now, message },
                        ),
                        ..busy(t, now)
                    },
                )
            },
        },
{
    if let Some(t) = r.get(id) {
        replacing_differs_in_one(r, id, tasks::active(t, now));
        replacing_differs_in_one(r, id, tasks::notified(t, message, now));
    }
}

/// A match is noted on the task with its pattern, whatever its state, which it
/// keeps; it is told of with its context if the policy of the task wants that.
pub proof fn matches_are_noted_and_told(
    r: RegistryView,
    id: Seq<char>,
    pattern: Seq<char>,
    context: Seq<char>,
    now: Moment,
)
    requires
        r.keys_distinct(),
    ensures
        match r.get(id) {
            None => r.matched(id, pattern, context, now) == r,
            Some(t) => {
                let next = r.matched(id, pattern, context, now);
                &&& only_differs_in(r, next, id)
                &&& next.get(id) == Some(
                    TaskView {
                        notifications: t.notifications.push(
                            NotificationView {
                                timestamp: now,
                                message: "pattern matched: "@ + pattern,
                            },
                        ),
                        status_message: Some("Pattern '"@ + pattern + "' matched"@),
                        ..busy(t, now)
                    },
                )
                &&& t.meta.interrupt_on.on_pattern_matched ==> next.outgoing == r.outgoing.push(
                    OutgoingView::Event(
                        TaskEventView::PatternMatched { task_id: id, pattern, context },
                    ),
                )
                &&& !t.meta.interrupt_on.on_pattern_matched ==> next.outgoing == r.outgoing
            },
        },
{
    if let Some(t) = r.get(id) {
        let noted = TaskView {
            status_message: Some("Pattern '"@ + pattern + "' matched"@),
            ..tasks::notified(t, "pattern matched: "@ + pattern, now)
        };
        replacing_differs_in_one(r, id, noted);
        let more = seq![
            OutgoingView::Event(TaskEventView::PatternMatched { task_id: id, pattern, context }),
        ];
        task_laws::local_step(r, id, noted, more);
        assert(r.outgoing + more =~= r.outgoing.push(more[0]));
    }
}

// ── Collecting ────────────────────────────────────────────────────────

/// A task is dropped exactly if it is over and has been for as long as it is
/// kept, in seconds; the others stay, in their order, and nothing is told.
pub proof fn collecting_drops_what_was_kept_long(
    a: Seq<(Seq<char>, TaskView)>,
    b: Seq<(Seq<char>, TaskView)>,
    outgoing: Seq<OutgoingView>,
    e: (Seq<char>, TaskView),
    now: Moment,
)
    ensures
        ({
            let left = RegistryView { tasks: a, outgoing };
            let right = RegistryView { tasks: b, outgoing };
            let both = RegistryView { tasks: a + b, outgoing };
            let one = RegistryView { tasks: seq![e], outgoing };
            let none = RegistryView { tasks: Seq::empty(), outgoing };
            &&& both.collected(now).tasks == left.collected(now).tasks + right.collected(now).tasks
            &&& both.collected(now).outgoing == outgoing
            &&& none.collected(now).tasks.len() == 0
            &&& one.collected(now).tasks == (if has_ended(e.1) && now.since(
                e.1.last_activity,
            ).nanos >= e.1.meta.ttl_after_completion_s * 1_000_000_000 {
                Seq::empty()
            } else {
                seq![e]
            })
        }),
{
    let keep = |e: (Seq<char>, TaskView)| tasks::retained(e.1, now);
    Seq::filter_distributes_over_add(a, b, keep);
    filter_of_one(e, keep);
    let nanos = now.since(e.1.last_activity).nanos;
    let kept = e.1.meta.ttl_after_completion_s;
    assert((nanos / 1_000_000_000 < kept) == (nanos < kept * 1_000_000_000));
}

/// Of one entry, a filter keeps it or nothing.
pub proof fn filter_of_one(
    e: (Seq<char>, TaskView),
    keep: spec_fn((Seq<char>, TaskView)) -> bool,
)
    ensures
        Seq::<(Seq<char>, TaskView)>::empty().filter(keep) == Seq::<
            (Seq<char>, TaskView),
        >::empty(),
        seq![e].filter(keep) == (if keep(e) {
            seq![e]
        } else {
            Seq::empty()
        }),
{
    reveal_with_fuel(Seq::filter, 2);
    assert(seq![e].drop_last() =~= Seq::empty());
    assert(Seq::<(Seq<char>, TaskView)>::empty().push(e) =~= seq![e]);
}

// ── Listing ───────────────────────────────────────────────────────────

/// The tasks in a wanted state are listed, all of them, and no others, in the
/// order in which they are kept; so are the tasks that are over.
pub proof fn listing_picks_by_state(
    a: Seq<(Seq<char>, TaskView)>,
    b: Seq<(Seq<char>, TaskView)>,
    outgoing: Seq<OutgoingView>,
    e: (Seq<char>, TaskView),
    wanted: spec_fn(TaskState) -> bool,
)
    ensures
        ({
            let left = RegistryView { tasks: a, outgoing };
            let right = RegistryView { tasks: b, outgoing };
            let both = RegistryView { tasks: a + b, outgoing };
            let one = RegistryView { tasks: seq![e], outgoing };
            let none = RegistryView { tasks: Seq::empty(), outgoing };
            &&& both.in_state(wanted) == left.in_state(wanted) + right.in_state(wanted)
            &&& both.over() == left.over() + right.over()
            &&& none.in_state(wanted).len() == 0
            &&& none.over().len() == 0
            &&& one.in_state(wanted) == (if wanted(e.1.state) {
                seq![e.1]
            } else {
                Seq::empty()
            })
            &&& one.over() == (if has_ended(e.1) {
                seq![e.1]
            } else {
                Seq::empty()
            })
        }),
{
    let over = |s: TaskState| s.terminal();
    listing_by_one_wish(a, b, outgoing, e, wanted);
    listing_by_one_wish(a, b, outgoing, e, over);
}

proof fn listing_by_one_wish(
    a: Seq<(Seq<char>, TaskView)>,
    b: Seq<(Seq<char>, TaskView)>,
    outgoing: Seq<OutgoingView>,
    e: (Seq<char>, TaskView),
    wanted: spec_fn(TaskState) -> bool,
)
    ensures
        ({
            let left = RegistryView { tasks: a, outgoing };
            let right = RegistryView { tasks: b, outgoing };
            let both = RegistryView { tasks: a + b, outgoing };
            let one = RegistryView { tasks: seq![e], outgoing };
            let none = RegistryView { tasks: Seq::empty(), outgoing };
            &&& both.in_state(wanted) == left.in_state(wanted) + right.in_state(wanted)
            &&& none.in_state(wanted).len() == 0
            &&& one.in_state(wanted) == (if wanted(e.1.state) {
                seq![e.1]
            } else {
                Seq::empty()
            })
        }),
{
    let keep = |e: (Seq<char>, TaskView)| wanted(e.1.state);
    Seq::filter_distributes_over_add(a, b, keep);
    filter_of_one(e, keep);
    let left = RegistryView { tasks: a, outgoing };
    let right = RegistryView { tasks: b, outgoing };
    let both = RegistryView { tasks: a + b, outgoing };
    let one = RegistryView { tasks: seq![e], outgoing };
    assert(both.in_state(wanted) =~= left.in_state(wanted) + right.in_state(wanted));
    assert(one.in_state(wanted) =~= (if wanted(e.1.state) {
        seq![e.1]
    } else {
        Seq::empty()
    }));
}

} // verus!
