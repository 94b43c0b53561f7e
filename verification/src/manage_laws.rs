//! What holds of listing, reporting and cancelling tasks.
use crate::arguments;
use crate::arguments::{JsonObject, MemberView};
use crate::duration;
use crate::manage_tasks;
use crate::process;
use crate::process::{ManagedProcess, ProcessView};
use crate::registry_laws;
use crate::send_laws;
use crate::showing;
use crate::task_client::TasksClient;
use crate::tasks;
use crate::tasks::{RegistryView, TaskRegistry, TaskSource, TaskState, TaskView};
use crate::text;
use crate::text_laws;
use crate::time::Moment;
use vstd::prelude::*;
use vstd::string::*;

verus! {

// ── Words ─────────────────────────────────────────────────────────────

/// How a task that comes from somewhere is called.
pub open spec fn word_of_source(source: TaskSource) -> Seq<char> {
    match source {
        TaskSource::Subagent => "subagent"@,
        TaskSource::Process => "process"@,
        TaskSource::McpResource => "resource"@,
        TaskSource::McpTool => "tool"@,
        TaskSource::SwarmAgent => "swarm"@,
        TaskSource::Timer => "timer"@,
    }
}

/// How a task in a state is called.
pub open spec fn word_of_state(state: TaskState) -> Seq<char> {
    match state {
        TaskState::Working => "running"@,
        TaskState::InputRequired => "waiting for input"@,
        TaskState::Completed => "completed"@,
        TaskState::Failed => "failed"@,
        TaskState::Cancelled => "cancelled"@,
    }
}

// ── Reports ───────────────────────────────────────────────────────────

/// A task that is over is reported with its result: the report ends with the
/// summary on a line of its own, or says that there is none.
pub proof fn result_is_reported(registry: RegistryView, id: Seq<char>, now: Moment)
    requires
        registry.get(id) is Some,
        registry_laws::has_ended(registry.get(id).unwrap()),
    ensures
        manage_tasks::got(registry, id, now) matches Ok(reply) && match registry.get(
            id,
        ).unwrap().result_summary {
            Some(summary) => ("\n"@ + summary).is_suffix_of(reply),
            None => "\n(no output)"@.is_suffix_of(reply),
        },
{
    let t = registry.get(id).unwrap();
    let reply = manage_tasks::report(t, now);
    match t.result_summary {
        Some(summary) => {
            let end = "\n"@ + summary;
            assert(reply.subrange(reply.len() - end.len(), reply.len() as int) =~= end);
        },
        None => {
            reveal_strlit("\n(no output)");
            reveal_strlit("(no output)");
            reveal_strlit("\n");
            let end = "\n(no output)"@;
            assert("\n"@ + "(no output)"@ =~= end);
            assert(reply.subrange(reply.len() - end.len(), reply.len() as int) =~= end);
        },
    }
}

/// A task that waits for input is reported with its question at the end.
pub proof fn question_is_reported(registry: RegistryView, id: Seq<char>, now: Moment)
    requires
        registry.get(id) is Some,
        registry.get(id).unwrap().state == TaskState::InputRequired,
        registry.get(id).unwrap().input_request is Some,
    ensures
        manage_tasks::got(registry, id, now) matches Ok(reply) && ("\nQuestion: "@ + registry.get(
            id,
        ).unwrap().input_request.unwrap()).is_suffix_of(reply),
{
    let t = registry.get(id).unwrap();
    let reply = manage_tasks::report(t, now);
    let end = "\nQuestion: "@ + t.input_request.unwrap();
    assert(reply.subrange(reply.len() - end.len(), reply.len() as int) =~= end);
}

/// What every report begins with.
pub open spec fn heading(t: TaskView, now: Moment) -> Seq<char> {
    "Task "@ + t.id + " ["@ + word_of_source(t.source) + "] "@ + word_of_state(t.state)
        + "\nSource: "@ + t.description + "\nElapsed: "@ + duration::span_text(
        now.since(t.created_at),
    )
}

/// Every task that is there is reported with its identifier, source, state,
/// description and age; one that works, or waits without a question, with
/// nothing else. A task that is not there is named in the refusal.
pub proof fn report_begins_with_the_task(registry: RegistryView, id: Seq<char>, now: Moment)
    ensures
        match registry.get(id) {
            None => manage_tasks::got(registry, id, now) == Err::<Seq<char>, _>(
                "Task '"@ + id + "' not found"@,
            ),
            Some(t) => manage_tasks::got(registry, id, now) matches Ok(reply) && {
                &&& heading(t, now).is_prefix_of(reply)
                &&& t.state == TaskState::Working || (t.state == TaskState::InputRequired
                    && t.input_request is None) ==> reply == heading(t, now)
            },
        },
{
    if let Some(t) = registry.get(id) {
        let reply = manage_tasks::report(t, now);
        let head = heading(t, now);
        assert(reply.subrange(0, head.len() as int) =~= head);
    }
}

// ── Reaping ───────────────────────────────────────────────────────────

/// Asking for a task that is over takes it, and its process, which is to be
/// killed, out of what is kept; asking for any other changes nothing and kills
/// nothing. Nothing is told.
pub proof fn only_ended_tasks_are_reaped(
    registry: RegistryView,
    table: Seq<(Seq<char>, ProcessView)>,
    id: Seq<char>,
)
    requires
        registry.keys_distinct(),
        process::entries_distinct(table),
    ensures
        ({
            let next = manage_tasks::after_getting(registry, id);
            let kept = manage_tasks::processes_after_getting(table, registry, id);
            let killed = manage_tasks::reaped(table, registry, id);
            if registry.get(id) is Some && registry_laws::has_ended(registry.get(id).unwrap()) {
                &&& next.get(id) is None
                &&& process::process_of(kept, id) is None
                &&& killed == process::process_of(table, id)
                &&& next.outgoing == registry.outgoing
                &&& forall|other: Seq<char>|
                    other != id ==> #[trigger] next.get(other) == registry.get(other)
                &&& forall|other: Seq<char>|
                    other != id ==> #[trigger] process::process_of(kept, other)
                        == process::process_of(table, other)
            } else {
                next == registry && kept == table && killed is None
            }
        }),
{
    tasks::removed_is_gone(registry, id);
    process::removed_process_is_gone(table, id);
}

// ── Listing ───────────────────────────────────────────────────────────

/// The line of a task shows its identifier, source, state and description.
pub proof fn line_shows_the_task(t: TaskView)
    ensures
        manage_tasks::task_line(t) == "  "@ + t.id + " ["@ + word_of_source(t.source) + "] "@
            + word_of_state(t.state) + " — "@ + t.description,
{
}

/// The listing has one line for each task, in the order in which they are kept;
/// where there is no task it says so.
pub proof fn every_task_is_listed(registry: RegistryView)
    ensures
        ({
            let lines = manage_tasks::task_lines(registry.tasks);
            &&& lines.len() == registry.tasks.len()
            &&& forall|i: int|
                0 <= i < lines.len() ==> #[trigger] lines[i] == manage_tasks::task_line(
                    registry.tasks[i].1,
                )
            &&& registry.tasks.len() == 0 ==> manage_tasks::listing(registry)
                == "No active tasks."@
            &&& registry.tasks.len() > 0 ==> manage_tasks::listing(registry) == "Active tasks:\n"@
                + text::joined(lines, "\n"@)
            &&& forall|i: int|
                0 <= i < registry.tasks.len() ==> showing::shows(
                    manage_tasks::listing(registry),
                    #[trigger] lines[i],
                )
        }),
{
    let lines = manage_tasks::task_lines(registry.tasks);
    assert forall|i: int| 0 <= i < registry.tasks.len() implies showing::shows(
        manage_tasks::listing(registry),
        #[trigger] lines[i],
    ) by {
        text_laws::joined_shows_its_parts(lines, "\n"@, i);
        showing::stands_in_more(
            text::joined(lines, "\n"@),
            lines[i],
            "Active tasks:\n"@,
            Seq::empty(),
        );
    }
}

// ── Cancelling ────────────────────────────────────────────────────────

/// Cancelling succeeds exactly for a task that is there, and names it either
/// way.
pub proof fn cancelling_needs_a_task(registry: RegistryView, id: Seq<char>)
    ensures
        match registry.get(id) {
            Some(_) => manage_tasks::cancel_reply(registry, id) == Ok::<_, Seq<char>>(
                "Task "@ + id + " cancelled."@,
            ),
            None => manage_tasks::cancel_reply(registry, id) == Err::<Seq<char>, _>(
                "Task '"@ + id + "' not found"@,
            ),
        },
{
}

/// The call names a task under `task_id`, by its identifier.
pub open spec fn names(arguments: Option<JsonObject>, id: Seq<char>) -> bool {
    arguments matches Some(object) && send_laws::has_member(
        arguments::members(object),
        "task_id"@,
        MemberView::Text(id),
    )
}

/// A call of `cancel_task` or `get_task` is about the task that it names. The
/// one takes its process, which is to be killed, and cancels it, and no other;
/// the other reports it. A call that names none is refused and does nothing.
pub proof fn calls_are_about_the_named_task(
    before: TasksClient,
    registry: TaskRegistry,
    arguments: Option<JsonObject>,
    r: (Option<ManagedProcess>, Result<String, String>),
    after: TasksClient,
    registry_after: TaskRegistry,
    id: Seq<char>,
)
    ensures
        (forall|t: Seq<char>| !#[trigger] names(arguments, t)) && (manage_tasks::cancel_handled(
            before,
            registry,
            arguments,
            r,
            after,
            registry_after,
        ) || manage_tasks::get_handled(before, registry, arguments, r, after, registry_after)) ==> {
            &&& r.0 is None
            &&& r.1 matches Err(e) && e@ == "Missing required parameter: task_id"@
            &&& after.processes@ == before.processes@
            &&& registry_after@ == registry@
            &&& registry_after.latest() == registry.latest()
        },
        names(arguments, id) && manage_tasks::cancel_handled(
            before,
            registry,
            arguments,
            r,
            after,
            registry_after,
        ) ==> {
            &&& registry.shows(registry_after.latest())
            &&& registry_after@ == registry@.cancelled(id, registry_after.latest())
            &&& after.processes@ == process::without_process(before.processes@, id)
            &&& match r.0 {
                Some(p) => process::process_of(before.processes@, id) == Some(p@),
                None => process::process_of(before.processes@, id) is None,
            }
            &&& match r.1 {
                Ok(reply) => registry@.get(id) is Some && reply@ == "Task "@ + id
                    + " cancelled."@,
                Err(e) => registry@.get(id) is None && e@ == "Task '"@ + id + "' not found"@,
            }
        },
        names(arguments, id) && manage_tasks::get_handled(
            before,
            registry,
            arguments,
            r,
            after,
            registry_after,
        ) ==> {
            &&& registry.shows(registry_after.latest())
            &&& registry_after@ == manage_tasks::after_getting(registry@, id)
            &&& after.processes@ == manage_tasks::processes_after_getting(
                before.processes@,
                registry@,
                id,
            )
            &&& match r.0 {
                Some(p) => manage_tasks::reaped(before.processes@, registry@, id) == Some(p@),
                None => manage_tasks::reaped(before.processes@, registry@, id) is None,
            }
            &&& match r.1 {
                Ok(reply) => manage_tasks::got(registry@, id, registry_after.latest()) == Ok::<
                    _,
                    Seq<char>,
                >(reply@),
                Err(e) => manage_tasks::got(registry@, id, registry_after.latest()) == Err::<
                    Seq<char>,
                    _,
                >(e@),
            }
        },
{
    if let Some(object) = arguments {
        if let Some(t) = arguments::text_in(arguments::members(object), "task_id"@) {
            assert(names(arguments, t));
        }
    }
}

} // verus!
