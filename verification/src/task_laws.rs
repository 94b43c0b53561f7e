//! What holds of the task registry over several operations.
use crate::tasks::{
    NotifyPolicy, OutgoingView, RegistryView, TaskEventView, TaskState, TaskView,
};
use crate::tasks;
use crate::time::{Moment, Span};
use serde_json::Value;
use vstd::prelude::*;

verus! {

/// What can be done to a task that is kept in the registry.
pub enum Operation {
    Complete { summary: Option<Seq<char>> },
    CompleteWithResult { result: Value, status_message: Option<Seq<char>> },
    Fail { summary: Option<Seq<char>> },
    FailWithError { error: Value, status_message: Option<Seq<char>> },
    Cancel,
    NeedsInput { question: Seq<char> },
    Resume,
    PatternMatched { pattern: Seq<char>, context: Seq<char> },
    Notify { message: Seq<char> },
    Touch,
}

/// The registry after the operation on the task under `id`.
pub open spec fn after(r: RegistryView, id: Seq<char>, op: Operation, now: Moment) -> RegistryView {
    match op {
        Operation::Complete { summary } => r.transitioned(id, TaskState::Completed, summary, now),
        Operation::CompleteWithResult { result, status_message } => r.with_result(
            id,
            result,
            status_message,
        ).transitioned(id, TaskState::Completed, None, now),
        Operation::Fail { summary } => r.transitioned(id, TaskState::Failed, summary, now),
        Operation::FailWithError { error, status_message } => r.with_error(
            id,
            error,
            status_message,
        ).transitioned(id, TaskState::Failed, None, now),
        Operation::Cancel => r.cancelled(id, now),
        Operation::NeedsInput { question } => r.asked(id, question, now),
        Operation::Resume => r.resumed(id, now),
        Operation::PatternMatched { pattern, context } => r.matched(id, pattern, context, now),
        Operation::Notify { message } => r.noted(id, message, now),
        Operation::Touch => r.touched(id, now),
    }
}

/// Sending changes no task.
pub proof fn sending_keeps_tasks(r: RegistryView, more: Seq<OutgoingView>)
    requires
        r.keys_distinct(),
    ensures
        r.sending(more).keys_distinct(),
        forall|id: Seq<char>| #[trigger] r.sending(more).get(id) == r.get(id),
        forall|id: Seq<char>| #[trigger] r.sending(more).slot(id) == r.slot(id),
{
    assert forall|id: Seq<char>| #[trigger] r.sending(more).get(id) == r.get(id) by {
        if r.has(id) {
            assert(tasks::keyed(r.sending(more).tasks, id, r.slot(id)));
        }
        if r.sending(more).has(id) {
            assert(tasks::keyed(r.tasks, id, r.sending(more).slot(id)));
        }
    }
}

/// What a transition does to the task and to what is delivered.
pub proof fn transition_is_local(
    r: RegistryView,
    id: Seq<char>,
    state: TaskState,
    summary: Option<Seq<char>>,
    now: Moment,
)
    requires
        r.keys_distinct(),
    ensures
        ({
            let next = r.transitioned(id, state, summary, now);
            &&& next.keys_distinct()
            &&& forall|other: Seq<char>| other != id ==> #[trigger] next.get(other) == r.get(other)
            &&& r.outgoing.is_prefix_of(next.outgoing)
            &&& match r.get(id) {
                Some(t) => next.get(id) == Some(
                    if t.state.terminal() {
                        t
                    } else {
                        tasks::moved(t, state, summary, now)
                    },
                ),
                None => next == r,
            }
        }),
{
    match r.get(id) {
        Some(t) => {
            if !t.state.terminal() {
                let arrived = tasks::moved(t, state, summary, now);
                tasks::replacing_is_local(r, id, arrived);
                let next = r.with_task(id, arrived);
                sending_keeps_tasks(next, tasks::arrival_events(next.tasks, arrived, now));
            }
        },
        None => {},
    }
}

/// Setting a task and sending, as most operations do.
pub proof fn local_step(r: RegistryView, id: Seq<char>, t: TaskView, more: Seq<OutgoingView>)
    requires
        r.keys_distinct(),
        r.has(id),
    ensures
        r.with_task(id, t).sending(more).keys_distinct(),
        r.with_task(id, t).keys_distinct(),
        r.with_task(id, t).sending(more).get(id) == Some(t),
        r.with_task(id, t).get(id) == Some(t),
        forall|other: Seq<char>|
            other != id ==> #[trigger] r.with_task(id, t).sending(more).get(other) == r.get(other),
        forall|other: Seq<char>|
            other != id ==> #[trigger] r.with_task(id, t).get(other) == r.get(other),
        r.outgoing.is_prefix_of(r.with_task(id, t).sending(more).outgoing),
{
    tasks::replacing_is_local(r, id, t);
    sending_keeps_tasks(r.with_task(id, t), more);
}

/// An operation keeps the keys distinct, leaves every other task as it is,
/// takes back nothing that was to be delivered, and makes no task appear or
/// disappear.
pub proof fn operations_are_local(r: RegistryView, id: Seq<char>, op: Operation, now: Moment)
    requires
        r.keys_distinct(),
    ensures
        after(r, id, op, now).keys_distinct(),
        forall|other: Seq<char>|
            other != id ==> #[trigger] after(r, id, op, now).get(other) == r.get(other),
        r.outgoing.is_prefix_of(after(r, id, op, now).outgoing),
        after(r, id, op, now).get(id) is Some == r.get(id) is Some,
        r.get(id) is None ==> after(r, id, op, now) == r,
{
    match op {
        Operation::Complete { summary } => {
            transition_is_local(r, id, TaskState::Completed, summary, now);
        },
        Operation::CompleteWithResult { result, status_message } => {
            if let Some(t) = r.get(id) {
                tasks::replacing_is_local(
                    r,
                    id,
                    TaskView { result: Some(result), status_message, ..t },
                );
            }
            transition_is_local(
                r.with_result(id, result, status_message),
                id,
                TaskState::Completed,
                None,
                now,
            );
        },
        Operation::Fail { summary } => {
            transition_is_local(r, id, TaskState::Failed, summary, now);
        },
        Operation::FailWithError { error, status_message } => {
            if let Some(t) = r.get(id) {
                tasks::replacing_is_local(
                    r,
                    id,
                    TaskView { error: Some(error), status_message, ..t },
                );
            }
            transition_is_local(
                r.with_error(id, error, status_message),
                id,
                TaskState::Failed,
                None,
                now,
            );
        },
        Operation::Cancel => {
            if let Some(t) = r.get(id) {
                if let Some(token) = t.cancellation_token {
                    sending_keeps_tasks(r, seq![OutgoingView::Fire(token)]);
                }
            }
            transition_is_local(
                r.firing(id),
                id,
                TaskState::Cancelled,
                Some("cancelled"@),
                now,
            );
        },
        Operation::NeedsInput { question } => {
            if let Some(t) = r.get(id) {
                let event = TaskEventView::TaskNeedsInput { task_id: id, question };
                local_step(
                    r,
                    id,
                    tasks::asking(t, question, now),
                    seq![OutgoingView::Event(event)],
                );
            }
        },
        Operation::Resume => {
            if let Some(t) = r.get(id) {
                tasks::replacing_is_local(
                    r,
                    id,
                    TaskView { state: TaskState::Working, last_activity: now, ..t },
                );
            }
        },
        Operation::PatternMatched { pattern, context } => {
            if let Some(t) = r.get(id) {
                let event = TaskEventView::PatternMatched { task_id: id, pattern, context };
                let told = TaskView {
                    status_message: Some("Pattern '"@ + pattern + "' matched"@),
                    ..tasks::notified(t, "pattern matched: "@ + pattern, now)
                };
                local_step(r, id, told, seq![OutgoingView::Event(event)]);
            }
        },
        Operation::Notify { message } => {
            if let Some(t) = r.get(id) {
                tasks::replacing_is_local(r, id, tasks::notified(t, message, now));
            }
        },
        Operation::Touch => {
            if let Some(t) = r.get(id) {
                tasks::replacing_is_local(r, id, tasks::active(t, now));
            }
        },
    }
}

/// The state that an operation leaves a task in.
pub open spec fn next_state(state: TaskState, op: Operation) -> TaskState {
    match op {
        Operation::Resume => if state == TaskState::InputRequired {
            TaskState::Working
        } else {
            state
        },
        Operation::PatternMatched { pattern, context } => state,
        Operation::Notify { message } => state,
        Operation::Touch => state,
        _ if state.terminal() => state,
        Operation::NeedsInput { question } => TaskState::InputRequired,
        Operation::Complete { summary } => TaskState::Completed,
        Operation::CompleteWithResult { result, status_message } => TaskState::Completed,
        Operation::Fail { summary } => TaskState::Failed,
        Operation::FailWithError { error, status_message } => TaskState::Failed,
        Operation::Cancel => TaskState::Cancelled,
    }
}

/// Every operation moves a task along the lifecycle: an end is reached only by
/// the operation named after it and is left by none; work is taken up again
/// only after input; a matched pattern, a notification or an activity leaves
/// the state as it is.
pub proof fn lifecycle(r: RegistryView, id: Seq<char>, op: Operation, now: Moment)
    requires
        r.keys_distinct(),
        r.get(id) is Some,
    ensures
        after(r, id, op, now).get(id) is Some,
        after(r, id, op, now).get(id)->0.state == next_state(r.get(id)->0.state, op),
        r.get(id)->0.state.terminal() ==> after(r, id, op, now).get(id)->0.state == r.get(
            id,
        )->0.state,
        after(r, id, op, now).get(id)->0.state == TaskState::Working ==> r.get(id)->0.state
            == TaskState::Working || (op is Resume && r.get(id)->0.state
            == TaskState::InputRequired),
        after(r, id, op, now).get(id)->0.id == r.get(id)->0.id,
        after(r, id, op, now).get(id)->0.created_at == r.get(id)->0.created_at,
{
    operations_are_local(r, id, op, now);
    let t = r.get(id)->0;
    match op {
        Operation::Complete { summary } => {
            transition_is_local(r, id, TaskState::Completed, summary, now);
        },
        Operation::CompleteWithResult { result, status_message } => {
            let told = TaskView { result: Some(result), status_message, ..t };
            tasks::replacing_is_local(r, id, told);
            transition_is_local(
                r.with_result(id, result, status_message),
                id,
                TaskState::Completed,
                None,
                now,
            );
        },
        Operation::Fail { summary } => {
            transition_is_local(r, id, TaskState::Failed, summary, now);
        },
        Operation::FailWithError { error, status_message } => {
            let told = TaskView { error: Some(error), status_message, ..t };
            tasks::replacing_is_local(r, id, told);
            transition_is_local(
                r.with_error(id, error, status_message),
                id,
                TaskState::Failed,
                None,
                now,
            );
        },
        Operation::Cancel => {
            if let Some(token) = t.cancellation_token {
                sending_keeps_tasks(r, seq![OutgoingView::Fire(token)]);
            }
            transition_is_local(
                r.firing(id),
                id,
                TaskState::Cancelled,
                Some("cancelled"@),
                now,
            );
        },
        Operation::NeedsInput { question } => {
            let event = TaskEventView::TaskNeedsInput { task_id: id, question };
            local_step(r, id, tasks::asking(t, question, now), seq![OutgoingView::Event(event)]);
        },
        Operation::Resume => {
            tasks::replacing_is_local(
                r,
                id,
                TaskView { state: TaskState::Working, last_activity: now, ..t },
            );
        },
        Operation::PatternMatched { pattern, context } => {
            let event = TaskEventView::PatternMatched { task_id: id, pattern, context };
            let told = TaskView {
                status_message: Some("Pattern '"@ + pattern + "' matched"@),
                ..tasks::notified(t, "pattern matched: "@ + pattern, now)
            };
            local_step(r, id, told, seq![OutgoingView::Event(event)]);
        },
        Operation::Notify { message } => {
            tasks::replacing_is_local(r, id, tasks::notified(t, message, now));
        },
        Operation::Touch => {
            tasks::replacing_is_local(r, id, tasks::active(t, now));
        },
    }
}

/// The first end wins: a transition of a task that is over, or that is not
/// there, changes nothing and tells nothing, whatever the transition. So do a
/// request for input and a resumption.
pub proof fn an_end_is_final(
    r: RegistryView,
    id: Seq<char>,
    state: TaskState,
    summary: Option<Seq<char>>,
    op: Operation,
    now: Moment,
)
    requires
        r.get(id) is None || r.get(id)->0.state.terminal(),
    ensures
        r.transitioned(id, state, summary, now) == r,
        !is_activity(op) && op !is Cancel ==> after(r, id, op, now) == r,
        !is_activity(op) ==> after(r, id, op, now).tasks == r.tasks,
{
}

/// A task ends once: after it has ended, completing, failing or cancelling it
/// again changes nothing and tells nothing.
pub proof fn a_task_ends_once(
    r: RegistryView,
    id: Seq<char>,
    first: TaskState,
    first_summary: Option<Seq<char>>,
    then: Moment,
    second: TaskState,
    second_summary: Option<Seq<char>>,
    now: Moment,
)
    requires
        r.keys_distinct(),
        first.terminal(),
    ensures
        r.transitioned(id, first, first_summary, then).transitioned(id, second, second_summary, now)
            == r.transitioned(id, first, first_summary, then),
{
    transition_is_local(r, id, first, first_summary, then);
}

/// A task that nobody wants to hear of is never told of when it ends, and a
/// cancelled task is told of only as a part of its batch.
pub proof fn quiet_ends(
    r: RegistryView,
    id: Seq<char>,
    state: TaskState,
    summary: Option<Seq<char>>,
    now: Moment,
)
    requires
        r.keys_distinct(),
        r.get(id) is Some,
        r.get(id)->0.notify_policy == NotifyPolicy::Informational || (state == TaskState::Cancelled
            && r.get(id)->0.notify_policy == NotifyPolicy::OnCompletion),
    ensures
        r.transitioned(id, state, summary, now).outgoing == r.outgoing,
{
}

/// A task with the OnCompletion policy is told of exactly when it ends and its
/// interrupt policy asks for it, and what is told is its final state.
pub proof fn completion_is_told(
    r: RegistryView,
    id: Seq<char>,
    state: TaskState,
    summary: Option<Seq<char>>,
    now: Moment,
)
    requires
        r.keys_distinct(),
        r.get(id) is Some,
        r.get(id)->0.notify_policy == NotifyPolicy::OnCompletion,
        !r.get(id)->0.state.terminal(),
        state.terminal(),
    ensures
        r.transitioned(id, state, summary, now).outgoing == r.outgoing + (
        if r.get(id)->0.meta.interrupt_on.interrupts(state) {
            seq![
                OutgoingView::Event(
                    TaskEventView::TaskCompleted {
                        task: tasks::summary_of(
                            r.transitioned(id, state, summary, now).get(id)->0,
                            now,
                        ),
                    },
                ),
            ]
        } else {
            Seq::empty()
        }),
{
    transition_is_local(r, id, state, summary, now);
}

/// A batch is told of exactly when the last of its tasks ends: never while
/// another task of the batch goes on.
pub proof fn batch_is_told_with_its_last_task(
    r: RegistryView,
    id: Seq<char>,
    batch_id: Seq<char>,
    state: TaskState,
    summary: Option<Seq<char>>,
    now: Moment,
)
    requires
        r.keys_distinct(),
        r.get(id) is Some,
        r.get(id)->0.notify_policy == NotifyPolicy::OnBatchCompletion,
        r.get(id)->0.batch_id == Some(batch_id),
        !r.get(id)->0.state.terminal(),
        state.terminal(),
    ensures
        ({
            let others_done = forall|other: Seq<char>|
                other != id && (#[trigger] r.get(other)) is Some && r.get(other)->0.batch_id
                    == Some(batch_id) ==> r.get(other)->0.state.terminal();
            let next = r.transitioned(id, state, summary, now);
            next.outgoing == r.outgoing + (if others_done {
                seq![
                    OutgoingView::Event(
                        TaskEventView::BatchCompleted {
                            batch_id,
                            task_summaries: tasks::batch_summaries(next.tasks, batch_id, now),
                        },
                    ),
                ]
            } else {
                Seq::empty()
            })
        }),
{
    let t = r.get(id)->0;
    let arrived = tasks::moved(t, state, summary, now);
    let next = r.with_task(id, arrived);
    let s = r.slot(id);
    assert(tasks::keyed(r.tasks, id, s));
    tasks::replacing_is_local(r, id, arrived);
    assert(next.tasks[s].1.batch_id == Some(batch_id));
    let others_done = forall|other: Seq<char>|
        other != id && (#[trigger] r.get(other)) is Some && r.get(other)->0.batch_id == Some(
            batch_id,
        ) ==> r.get(other)->0.state.terminal();
    if others_done {
        assert forall|i: int|
            0 <= i < next.tasks.len() && (#[trigger] next.tasks[i]).1.batch_id == Some(
                batch_id,
            ) implies next.tasks[i].1.state.terminal() by {
            if i != s {
                let other = r.tasks[i].0;
                assert(tasks::keyed(r.tasks, other, i));
                tasks::slot_is_unique(r, other, i);
                if other == id {
                    tasks::slot_is_unique(r, id, i);
                }
            }
        }
        assert(tasks::batch_done(next.tasks, batch_id));
    } else {
        let other = choose|other: Seq<char>|
            other != id && (#[trigger] r.get(other)) is Some && r.get(other)->0.batch_id == Some(
                batch_id,
            ) && !r.get(other)->0.state.terminal();
        let o = r.slot(other);
        assert(tasks::keyed(r.tasks, other, o));
        assert(o != s);
        assert(next.tasks[o] == r.tasks[o]);
        assert(!tasks::batch_done(next.tasks, batch_id));
    }
}

// ── Work ──────────────────────────────────────────────────────────────

/// The operation tells of the task and leaves its state as it is.
pub open spec fn is_activity(op: Operation) -> bool {
    op is PatternMatched || op is Notify || op is Touch
}

/// The registry after these operations on the task under `id`, each at its
/// moment.
pub open spec fn after_all(
    r: RegistryView,
    id: Seq<char>,
    ops: Seq<(Operation, Moment)>,
) -> RegistryView
    decreases ops.len(),
{
    if ops.len() == 0 {
        r
    } else {
        after(after_all(r, id, ops.drop_last()), id, ops.last().0, ops.last().1)
    }
}

/// The operations are activities, and come in the order of time from one
/// moment to another.
pub open spec fn activities_between(
    from: Moment,
    ops: Seq<(Operation, Moment)>,
    to: Moment,
) -> bool
    decreases ops.len(),
{
    if ops.len() == 0 {
        to.reached(from)
    } else {
        &&& is_activity(ops.last().0)
        &&& to.reached(ops.last().1)
        &&& activities_between(from, ops.drop_last(), ops.last().1)
    }
}

/// Activity leaves a task working, and takes nothing from the time that it has
/// worked at any later moment.
proof fn activity_keeps_work(
    r: RegistryView,
    id: Seq<char>,
    ops: Seq<(Operation, Moment)>,
    to: Moment,
    end: Moment,
)
    requires
        r.keys_distinct(),
        r.get(id) is Some,
        r.get(id)->0.state == TaskState::Working,
        activities_between(r.get(id)->0.last_activity, ops, to),
        end.reached(to),
    ensures
        after_all(r, id, ops).keys_distinct(),
        after_all(r, id, ops).get(id) is Some,
        after_all(r, id, ops).get(id)->0.state == TaskState::Working,
        to.reached(after_all(r, id, ops).get(id)->0.last_activity),
        tasks::worked_until(after_all(r, id, ops).get(id)->0, end) == tasks::worked_until(
            r.get(id)->0,
            end,
        ),
    decreases ops.len(),
{
    if ops.len() > 0 {
        let (op, now) = ops.last();
        let front = after_all(r, id, ops.drop_last());
        activity_keeps_work(r, id, ops.drop_last(), now, end);
        operations_are_local(front, id, op, now);
        lifecycle(front, id, op, now);
        let t = front.get(id)->0;
        match op {
            Operation::PatternMatched { pattern, context } => {
                let event = TaskEventView::PatternMatched { task_id: id, pattern, context };
                let told = TaskView {
                    status_message: Some("Pattern '"@ + pattern + "' matched"@),
                    ..tasks::notified(t, "pattern matched: "@ + pattern, now)
                };
                local_step(front, id, told, seq![OutgoingView::Event(event)]);
            },
            Operation::Notify { message } => {
                tasks::replacing_is_local(front, id, tasks::notified(t, message, now));
            },
            Operation::Touch => {
                tasks::replacing_is_local(front, id, tasks::active(t, now));
            },
            _ => {},
        }
        let next = after(front, id, op, now).get(id)->0;
        assert(next.worked_duration == tasks::worked_until(t, now));
        assert(next.last_activity == now);
        assert(tasks::worked_until(next, end) == tasks::worked_until(t, end));
    }
}

/// All work counts: a task that starts to work when it is registered and then
/// ends has worked all the time in between, whatever activity there was.
pub proof fn work_is_counted_whole(
    r: RegistryView,
    t: TaskView,
    ops: Seq<(Operation, Moment)>,
    state: TaskState,
    summary: Option<Seq<char>>,
    end: Moment,
)
    requires
        r.keys_distinct(),
        t.state == TaskState::Working,
        t.worked_duration == Span::none(),
        activities_between(t.last_activity, ops, end),
        state.terminal(),
    ensures
        ({
            let over = after_all(r.registered(t), t.id, ops).transitioned(
                t.id,
                state,
                summary,
                end,
            );
            &&& over.get(t.id) is Some
            &&& over.get(t.id)->0.state == state
            &&& over.get(t.id)->0.worked_duration == end.since(t.last_activity)
        }),
{
    tasks::registered_is_found(r, t);
    let begun = r.registered(t);
    activity_keeps_work(begun, t.id, ops, end, end);
    transition_is_local(after_all(begun, t.id, ops), t.id, state, summary, end);
}

/// Waiting for input does not count as work: over a stretch of work, a wait
/// and another stretch of work, a task has worked as long as the two stretches
/// together.
pub proof fn waiting_is_not_work(
    r: RegistryView,
    id: Seq<char>,
    question: Seq<char>,
    asked_at: Moment,
    resumed_at: Moment,
    state: TaskState,
    summary: Option<Seq<char>>,
    ended_at: Moment,
)
    requires
        r.keys_distinct(),
        r.get(id) is Some,
        r.get(id)->0.state == TaskState::Working,
        state.terminal(),
    ensures
        ({
            let t = r.get(id)->0;
            let end = r.asked(id, question, asked_at).resumed(id, resumed_at).transitioned(
                id,
                state,
                summary,
                ended_at,
            );
            &&& end.get(id) is Some
            &&& end.get(id)->0.state == state
            &&& end.get(id)->0.worked_duration == t.worked_duration.with(
                asked_at.since(t.last_activity),
            ).with(ended_at.since(resumed_at))
        }),
{
    let ask = Operation::NeedsInput { question };
    let t = r.get(id)->0;
    lifecycle(r, id, ask, asked_at);
    operations_are_local(r, id, ask, asked_at);
    let event = TaskEventView::TaskNeedsInput { task_id: id, question };
    local_step(r, id, tasks::asking(t, question, asked_at), seq![OutgoingView::Event(event)]);
    let waiting = r.asked(id, question, asked_at);
    let w = waiting.get(id)->0;
    operations_are_local(waiting, id, Operation::Resume, resumed_at);
    tasks::replacing_is_local(
        waiting,
        id,
        TaskView { state: TaskState::Working, last_activity: resumed_at, ..w },
    );
    transition_is_local(waiting.resumed(id, resumed_at), id, state, summary, ended_at);
}

// ── Collection ────────────────────────────────────────────────────────

/// The entries of a filtered sequence.
pub proof fn filter_members(
    s: Seq<(Seq<char>, TaskView)>,
    keep: spec_fn((Seq<char>, TaskView)) -> bool,
)
    ensures
        forall|e: (Seq<char>, TaskView)| #[trigger]
            s.filter(keep).contains(e) <==> s.contains(e) && keep(e),
    decreases s.len(),
{
    reveal(Seq::filter);
    if s.len() > 0 {
        let front = s.drop_last();
        filter_members(front, keep);
        let f = front.filter(keep);
        let all = s.filter(keep);
        assert forall|e: (Seq<char>, TaskView)| #[trigger] all.contains(e) <==> s.contains(e)
            && keep(e) by {
            if s.contains(e) && keep(e) {
                let k = choose|k: int| 0 <= k < s.len() && s[k] == e;
                if k < front.len() {
                    assert(front[k] == e);
                    assert(front.contains(e));
                    let m = choose|m: int| 0 <= m < f.len() && f[m] == e;
                    assert(f.contains(e));
                    assert(all[m] == e);
                } else {
                    assert(all[all.len() - 1] == e);
                }
            }
            if all.contains(e) {
                let m = choose|m: int| 0 <= m < all.len() && all[m] == e;
                if m < f.len() {
                    assert(f[m] == e);
                    assert(f.contains(e));
                    assert(front.contains(e));
                    let k = choose|k: int| 0 <= k < front.len() && front[k] == e;
                    assert(s[k] == e);
                } else {
                    assert(s[s.len() - 1] == e);
                }
            }
        }
    }
}

/// A collection drops exactly the tasks that have been over for as long as
/// they are kept: what goes on stays, and what stays is unchanged.
pub proof fn collection_is_exact(r: RegistryView, id: Seq<char>, now: Moment)
    requires
        r.keys_distinct(),
    ensures
        r.collected(now).keys_distinct(),
        r.collected(now).get(id) == (match r.get(id) {
            Some(t) if tasks::retained(t, now) => Some(t),
            _ => None,
        }),
        r.collected(now).outgoing == r.outgoing,
{
    let keep = |e: (Seq<char>, TaskView)| tasks::retained(e.1, now);
    let next = r.collected(now);
    tasks::collected_keeps_keys(r, now);
    filter_members(r.tasks, keep);
    if let Some(t) = r.get(id) {
        let s = r.slot(id);
        assert(tasks::keyed(r.tasks, id, s));
        let e = r.tasks[s];
        assert(r.tasks.contains(e));
        if tasks::retained(t, now) {
            assert(next.tasks.contains(e));
            let i = choose|i: int| 0 <= i < next.tasks.len() && next.tasks[i] == e;
            assert(tasks::keyed(next.tasks, id, i));
            tasks::slot_is_unique(next, id, i);
        }
    }
    if next.has(id) {
        let i = next.slot(id);
        assert(tasks::keyed(next.tasks, id, i));
        let e = next.tasks[i];
        assert(next.tasks.contains(e));
        assert(r.tasks.contains(e));
        let k = choose|k: int| 0 <= k < r.tasks.len() && r.tasks[k] == e;
        assert(tasks::keyed(r.tasks, id, k));
        tasks::slot_is_unique(r, id, k);
    }
}

proof fn filtering_twice(
    s: Seq<(Seq<char>, TaskView)>,
    wide: spec_fn((Seq<char>, TaskView)) -> bool,
    narrow: spec_fn((Seq<char>, TaskView)) -> bool,
)
    requires
        forall|e: (Seq<char>, TaskView)| #[trigger] narrow(e) ==> wide(e),
    ensures
        s.filter(wide).filter(narrow) == s.filter(narrow),
    decreases s.len(),
{
    reveal(Seq::filter);
    if s.len() > 0 {
        let front = s.drop_last();
        filtering_twice(front, wide, narrow);
        let last = s.last();
        if wide(last) {
            let f = front.filter(wide);
            assert(s.filter(wide) == f.push(last));
            assert(f.push(last).drop_last() =~= f);
            assert(f.push(last).last() == last);
        }
    }
}

/// Collecting often is no different from collecting late: an earlier
/// collection never changes what a later one leaves. In particular, collecting
/// twice at one moment is collecting once.
pub proof fn collecting_early_changes_nothing(r: RegistryView, earlier: Moment, later: Moment)
    requires
        r.keys_distinct(),
        later.reached(earlier),
    ensures
        r.collected(earlier).collected(later) == r.collected(later),
{
    let wide = |e: (Seq<char>, TaskView)| tasks::retained(e.1, earlier);
    let narrow = |e: (Seq<char>, TaskView)| tasks::retained(e.1, later);
    assert forall|e: (Seq<char>, TaskView)| #[trigger] narrow(e) implies wide(e) by {
        let long = later.since(e.1.last_activity);
        let short = earlier.since(e.1.last_activity);
        assert(short.nanos <= long.nanos);
        assert(short.nanos / crate::time::NANOS_PER_SEC <= long.nanos
            / crate::time::NANOS_PER_SEC) by (nonlinear_arith)
            requires
                short.nanos <= long.nanos,
                crate::time::NANOS_PER_SEC == 1_000_000_000,
        ;
    }
    filtering_twice(r.tasks, wide, narrow);
}

/// Removing a task that was just registered under a new key gives back the
/// registry.
pub proof fn removing_undoes_registering(r: RegistryView, t: TaskView)
    requires
        r.keys_distinct(),
        !r.has(t.id),
    ensures
        r.registered(t).removed(t.id) == r,
{
    tasks::registered_is_found(r, t);
    let next = r.registered(t);
    assert(tasks::keyed(next.tasks, t.id, r.tasks.len() as int));
    tasks::slot_is_unique(next, t.id, r.tasks.len() as int);
    assert(next.tasks.remove(r.tasks.len() as int) =~= r.tasks);
}

} // verus!
