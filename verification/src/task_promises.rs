//! What the operations of the task registry promise.
use crate::registry_laws;
use crate::tasks::{Task, TaskRegistry, TaskState, TaskSummary};
use crate::tasks;
use crate::text;
use crate::time::Moment;
use serde_json::Value;
use vstd::prelude::*;
use vstd::string::*;

verus! {

/// Completing a task moves it to its end with the summary, and it is told of.
pub proof fn completing_completes(
    registry: &mut TaskRegistry,
    id: &str,
    summary: Option<String>,
    now: Moment,
)
    requires
        old(registry).wf(),
        call_ensures(TaskRegistry::complete_at, (registry, id, summary, now), ()),
    ensures
        final(registry).wf(),
        registry_laws::moves(
            old(registry)@,
            final(registry)@,
            id@,
            TaskState::Completed,
            text::opt_text(summary),
            now,
        ),
        registry_laws::tells_if_ended(old(registry)@, final(registry)@, id@, TaskState::Completed),
{
    registry_laws::transition_moves_one_task(
        old(registry)@,
        id@,
        TaskState::Completed,
        text::opt_text(summary),
        now,
    );
    if old(registry)@.get(id@) is Some && !registry_laws::has_ended(old(registry)@.get(id@).unwrap()) {
        registry_laws::end_is_told_by_policy(
            old(registry)@,
            id@,
            TaskState::Completed,
            text::opt_text(summary),
            now,
        );
    }
}

/// Completing a task by the clock does the same at the moment that it shows.
pub proof fn completing_now_completes(
    registry: &mut TaskRegistry,
    id: &str,
    summary: Option<String>,
)
    requires
        old(registry).wf(),
        call_ensures(TaskRegistry::complete, (registry, id, summary), ()),
    ensures
        final(registry).wf(),
        registry_laws::moves(
            old(registry)@,
            final(registry)@,
            id@,
            TaskState::Completed,
            text::opt_text(summary),
            final(registry).latest(),
        ),
        registry_laws::tells_if_ended(old(registry)@, final(registry)@, id@, TaskState::Completed),
        old(registry).shows(final(registry).latest()),
{
    registry_laws::transition_moves_one_task(
        old(registry)@,
        id@,
        TaskState::Completed,
        text::opt_text(summary),
        final(registry).latest(),
    );
    if old(registry)@.get(id@) is Some && !registry_laws::has_ended(old(registry)@.get(id@).unwrap()) {
        registry_laws::end_is_told_by_policy(
            old(registry)@,
            id@,
            TaskState::Completed,
            text::opt_text(summary),
            final(registry).latest(),
        );
    }
}

/// Failing a task moves it to its end with the summary, and it is told of.
pub proof fn failing_fails(
    registry: &mut TaskRegistry,
    id: &str,
    summary: Option<String>,
    now: Moment,
)
    requires
        old(registry).wf(),
        call_ensures(TaskRegistry::fail_at, (registry, id, summary, now), ()),
    ensures
        final(registry).wf(),
        registry_laws::moves(
            old(registry)@,
            final(registry)@,
            id@,
            TaskState::Failed,
            text::opt_text(summary),
            now,
        ),
        registry_laws::tells_if_ended(old(registry)@, final(registry)@, id@, TaskState::Failed),
{
    registry_laws::transition_moves_one_task(
        old(registry)@,
        id@,
        TaskState::Failed,
        text::opt_text(summary),
        now,
    );
    if old(registry)@.get(id@) is Some && !registry_laws::has_ended(old(registry)@.get(id@).unwrap()) {
        registry_laws::end_is_told_by_policy(
            old(registry)@,
            id@,
            TaskState::Failed,
            text::opt_text(summary),
            now,
        );
    }
}

/// Failing a task by the clock does the same at the moment that it shows.
pub proof fn failing_now_fails(registry: &mut TaskRegistry, id: &str, summary: Option<String>)
    requires
        old(registry).wf(),
        call_ensures(TaskRegistry::fail, (registry, id, summary), ()),
    ensures
        final(registry).wf(),
        registry_laws::moves(
            old(registry)@,
            final(registry)@,
            id@,
            TaskState::Failed,
            text::opt_text(summary),
            final(registry).latest(),
        ),
        registry_laws::tells_if_ended(old(registry)@, final(registry)@, id@, TaskState::Failed),
        old(registry).shows(final(registry).latest()),
{
    registry_laws::transition_moves_one_task(
        old(registry)@,
        id@,
        TaskState::Failed,
        text::opt_text(summary),
        final(registry).latest(),
    );
    if old(registry)@.get(id@) is Some && !registry_laws::has_ended(old(registry)@.get(id@).unwrap()) {
        registry_laws::end_is_told_by_policy(
            old(registry)@,
            id@,
            TaskState::Failed,
            text::opt_text(summary),
            final(registry).latest(),
        );
    }
}

/// A task that needs input asks for it.
pub proof fn asking_asks(registry: &mut TaskRegistry, id: &str, question: String, now: Moment)
    requires
        old(registry).wf(),
        call_ensures(TaskRegistry::needs_input_at, (registry, id, question, now), ()),
    ensures
        final(registry).wf(),
        final(registry)@ == old(registry)@.asked(id@, question@, now),
{
}

/// A task that needs input asks for it, at the moment that the clock shows.
pub proof fn asking_asks_now(registry: &mut TaskRegistry, id: &str, question: String)
    requires
        old(registry).wf(),
        call_ensures(TaskRegistry::needs_input, (registry, id, question), ()),
    ensures
        final(registry).wf(),
        final(registry)@ == old(registry)@.asked(id@, question@, final(registry).latest()),
        old(registry).shows(final(registry).latest()),
{
}

/// A task that waits for input goes on when it is resumed.
pub proof fn resuming_resumes(registry: &mut TaskRegistry, id: &str, now: Moment)
    requires
        old(registry).wf(),
        call_ensures(TaskRegistry::resume_at, (registry, id, now), ()),
    ensures
        final(registry).wf(),
        final(registry)@ == old(registry)@.resumed(id@, now),
{
}

/// A task that waits for input goes on when it is resumed, at the moment that the clock shows.
pub proof fn resuming_resumes_now(registry: &mut TaskRegistry, id: &str)
    requires
        old(registry).wf(),
        call_ensures(TaskRegistry::resume, (registry, id), ()),
    ensures
        final(registry).wf(),
        final(registry)@ == old(registry)@.resumed(id@, final(registry).latest()),
        old(registry).shows(final(registry).latest()),
{
}

/// A matched pattern is noted and told of.
pub proof fn matching_is_told(
    registry: &mut TaskRegistry,
    id: &str,
    pattern: String,
    context: String,
    now: Moment,
)
    requires
        old(registry).wf(),
        call_ensures(TaskRegistry::pattern_matched_at, (registry, id, pattern, context, now), ()),
    ensures
        final(registry).wf(),
        final(registry)@ == old(registry)@.matched(id@, pattern@, context@, now),
{
}

/// A matched pattern is noted and told of, at the moment that the clock shows.
pub proof fn matching_is_told_now(
    registry: &mut TaskRegistry,
    id: &str,
    pattern: String,
    context: String,
)
    requires
        old(registry).wf(),
        call_ensures(TaskRegistry::pattern_matched, (registry, id, pattern, context), ()),
    ensures
        final(registry).wf(),
        final(
            registry)@ == old(registry)@.matched(id@,
            pattern@,
            context@,
            final(registry).latest(),
        ),
        old(registry).shows(final(registry).latest()),
{
}

/// A notification is noted.
pub proof fn notifying_notes(registry: &mut TaskRegistry, id: &str, message: String, now: Moment)
    requires
        old(registry).wf(),
        call_ensures(TaskRegistry::notify_at, (registry, id, message, now), ()),
    ensures
        final(registry).wf(),
        final(registry)@ == old(registry)@.noted(id@, message@, now),
{
}

/// A notification is noted, at the moment that the clock shows.
pub proof fn notifying_notes_now(registry: &mut TaskRegistry, id: &str, message: String)
    requires
        old(registry).wf(),
        call_ensures(TaskRegistry::notify, (registry, id, message), ()),
    ensures
        final(registry).wf(),
        final(registry)@ == old(registry)@.noted(id@, message@, final(registry).latest()),
        old(registry).shows(final(registry).latest()),
{
}

/// A task that is cancelled is asked to stop and moves to its end.
pub proof fn cancelling_cancels(registry: &mut TaskRegistry, id: &str, now: Moment)
    requires
        old(registry).wf(),
        call_ensures(TaskRegistry::cancel_at, (registry, id, now), ()),
    ensures
        final(registry).wf(),
        final(registry)@ == old(registry)@.cancelled(id@, now),
{
}

/// A task that is cancelled is asked to stop and moves to its end, at the moment that the clock shows.
pub proof fn cancelling_cancels_now(registry: &mut TaskRegistry, id: &str)
    requires
        old(registry).wf(),
        call_ensures(TaskRegistry::cancel, (registry, id), ()),
    ensures
        final(registry).wf(),
        final(registry)@ == old(registry)@.cancelled(id@, final(registry).latest()),
        old(registry).shows(final(registry).latest()),
{
}

/// A result goes to the task that it is of, which then moves to its end.
pub proof fn results_complete(
    registry: &mut TaskRegistry,
    id: &str,
    result: Value,
    status_message: Option<String>,
    now: Moment,
)
    requires
        old(registry).wf(),
        call_ensures(
            TaskRegistry::complete_with_result_at,
            (registry,
            id,
            result,
            status_message,
            now),
            (),
        ),
    ensures
        ({
            let r = old(registry)@;
            let next = final(registry)@;
            match r.get(id@) {
                Some(t) if !registry_laws::has_ended(t) => {
                    &&& registry_laws::only_differs_in(r, next, id@)
                    &&& next.get(id@) matches Some(u) && {
                        &&& u.state == TaskState::Completed
                        &&& u.result == Some(result)
                        &&& u.status_message == text::opt_text(status_message)
                        &&& u.result_summary is None
                        &&& u.last_activity == now
                        &&& u.worked_duration == registry_laws::work_up_to(t, now)
                    }
                },
                _ => next == r,
            }
        }),
{
    let r = old(registry)@;
    let status = text::opt_text(status_message);
    registry_laws::results_go_to_their_task(r, id@, result, status);
    let given = r.with_result(id@, result, status);
    if let Some(t) = r.get(id@) {
        if !registry_laws::has_ended(t) {
            registry_laws::transition_moves_one_task(given, id@, TaskState::Completed, None, now);
            let next = final(registry)@;
            assert forall|other: Seq<char>| other != id@ implies #[trigger] next.get(other)
                == r.get(other) by {
                assert(next.get(other) == given.get(other));
            }
            assert forall|i: int| 0 <= i < r.tasks.len() implies (#[trigger] next.tasks[i]).0
                == r.tasks[i].0 && (r.tasks[i].0 != id@ ==> next.tasks[i] == r.tasks[i]) by {
                assert(given.tasks[i].0 == r.tasks[i].0);
            }
        }
    }
}

/// An error goes to the task that it is of, which then moves to its end.
pub proof fn errors_fail(
    registry: &mut TaskRegistry,
    id: &str,
    error: Value,
    status_message: Option<String>,
    now: Moment,
)
    requires
        old(registry).wf(),
        call_ensures(
            TaskRegistry::fail_with_error_at,
            (registry,
            id,
            error,
            status_message,
            now),
            (),
        ),
    ensures
        ({
            let r = old(registry)@;
            let next = final(registry)@;
            match r.get(id@) {
                Some(t) if !registry_laws::has_ended(t) => {
                    &&& registry_laws::only_differs_in(r, next, id@)
                    &&& next.get(id@) matches Some(u) && {
                        &&& u.state == TaskState::Failed
                        &&& u.error == Some(error)
                        &&& u.status_message == text::opt_text(status_message)
                        &&& u.result_summary is None
                        &&& u.last_activity == now
                        &&& u.worked_duration == registry_laws::work_up_to(t, now)
                    }
                },
                _ => next == r,
            }
        }),
{
    let r = old(registry)@;
    let status = text::opt_text(status_message);
    registry_laws::results_go_to_their_task(r, id@, error, status);
    let given = r.with_error(id@, error, status);
    if let Some(t) = r.get(id@) {
        if !registry_laws::has_ended(t) {
            registry_laws::transition_moves_one_task(given, id@, TaskState::Failed, None, now);
            let next = final(registry)@;
            assert forall|other: Seq<char>| other != id@ implies #[trigger] next.get(other)
                == r.get(other) by {
                assert(next.get(other) == given.get(other));
            }
            assert forall|i: int| 0 <= i < r.tasks.len() implies (#[trigger] next.tasks[i]).0
                == r.tasks[i].0 && (r.tasks[i].0 != id@ ==> next.tasks[i] == r.tasks[i]) by {
                assert(given.tasks[i].0 == r.tasks[i].0);
            }
        }
    }
}

/// Activity is counted.
pub proof fn touching_counts(registry: &mut TaskRegistry, id: &str, now: Moment)
    requires
        old(registry).wf(),
        call_ensures(TaskRegistry::touch_at, (registry, id, now), ()),
    ensures
        final(registry)@ == old(registry)@.touched(id@, now),
{
}

/// What is registered is found under its identifier, and nothing else changes.
pub proof fn registering_registers(registry: &mut TaskRegistry, task: Task, other: Seq<char>)
    requires
        old(registry).wf(),
        call_ensures(TaskRegistry::register, (registry, task), ()),
    ensures
        final(registry)@.get(task.id@) == Some(task@),
        other != task.id@ ==> final(registry)@.get(other) == old(registry)@.get(other),
        final(registry)@.outgoing == old(registry)@.outgoing,
{
    tasks::registered_is_found(old(registry)@, task@);
}

/// What is removed is handed out and no longer found, and nothing else changes.
pub proof fn removing_removes(
    registry: &mut TaskRegistry,
    id: &str,
    r: Option<Task>,
    other: Seq<char>,
)
    requires
        old(registry).wf(),
        call_ensures(TaskRegistry::remove, (registry, id), r),
    ensures
        final(registry)@.get(id@) is None,
        other != id@ ==> final(registry)@.get(other) == old(registry)@.get(other),
        final(registry)@.outgoing == old(registry)@.outgoing,
        match old(registry)@.get(id@) {
            Some(t) => r matches Some(found) && found@ == t,
            None => r is None,
        },
{
    tasks::removed_is_gone(old(registry)@, id@);
}

/// What is asked for by its identifier is what is kept under it.
pub proof fn getting_finds(registry: &TaskRegistry, id: &str, r: Option<&Task>)
    requires
        call_ensures(TaskRegistry::get, (registry, id), r),
    ensures
        match registry@.get(id@) {
            Some(t) => r matches Some(found) && found@ == t,
            None => r is None,
        },
{
}

/// Every task is listed, in the order in which they are kept.
pub proof fn listing_lists(registry: &TaskRegistry, r: Vec<&Task>)
    requires
        call_ensures(TaskRegistry::list, (registry,), r),
    ensures
        r@.len() == registry@.tasks.len(),
        forall|i: int| 0 <= i < r@.len() ==> (#[trigger] r@[i])@ == registry@.tasks[i].1,
{
    let seen = r@.map_values(|t: &Task| t@);
    assert(seen.len() == r@.len());
    assert forall|i: int| 0 <= i < r@.len() implies (#[trigger] r@[i])@ == registry@.tasks[i].1 by {
        assert(seen[i] == r@[i]@);
    }
}

/// Collecting drops what has been over for long.
pub proof fn collecting_collects(registry: &mut TaskRegistry, now: Moment)
    requires
        old(registry).wf(),
        call_ensures(TaskRegistry::gc_at, (registry, now), ()),
    ensures
        final(registry)@ == old(registry)@.collected(now),
{
}

/// What is told of a task is what it is.
pub proof fn summary_is_made_of_the_task(task: &Task, now: Moment, r: TaskSummary)
    requires
        call_ensures(tasks::make_task_summary, (task, now), r),
    ensures
        r.id@ == task.id@,
        r.source == task.source,
        r.description@ == task.description@,
        r.state == task.state,
        r.duration == registry_laws::work_up_to(task@, now),
        text::opt_text(r.result_summary) == text::opt_text(task.result_summary),
        text::opt_text(r.status_message) == text::opt_text(task.status_message),
        r.result == task.result,
        r.error == task.error,
{
}

} // verus!
