//! Cancelling, listing and reaping tasks.
use crate::arguments;
use crate::arguments::JsonObject;
use crate::duration;
use crate::process;
use crate::process::{ManagedProcess, ProcessView};
use crate::task_client::TasksClient;
use crate::tasks::{RegistryView, Task, TaskRegistry, TaskSource, TaskState, TaskView};
use crate::text;
use crate::time::Moment;
use vstd::prelude::*;
use vstd::string::*;

verus! {

// ── Model ─────────────────────────────────────────────────────────────

/// What a task is called by its source.
pub open spec fn source_word(source: TaskSource) -> Seq<char> {
    match source {
        TaskSource::McpTool => "tool"@,
        TaskSource::Process => "process"@,
        TaskSource::Timer => "timer"@,
        TaskSource::Subagent => "subagent"@,
        TaskSource::McpResource => "resource"@,
        TaskSource::SwarmAgent => "swarm"@,
    }
}

/// What a task is called by its state.
pub open spec fn state_word(state: TaskState) -> Seq<char> {
    match state {
        TaskState::Working => "running"@,
        TaskState::InputRequired => "waiting for input"@,
        TaskState::Completed => "completed"@,
        TaskState::Failed => "failed"@,
        TaskState::Cancelled => "cancelled"@,
    }
}

/// The line of a task in a list.
pub open spec fn task_line(t: TaskView) -> Seq<char> {
    "  "@ + t.id + " ["@ + source_word(t.source) + "] "@ + state_word(t.state) + " — "@
        + t.description
}

/// The lines of the tasks, in their order.
pub open spec fn task_lines(tasks: Seq<(Seq<char>, TaskView)>) -> Seq<Seq<char>> {
    tasks.map_values(|e: (Seq<char>, TaskView)| task_line(e.1))
}

/// The reply to `list_tasks`.
pub open spec fn listing(registry: RegistryView) -> Seq<char> {
    if registry.tasks.len() == 0 {
        "No active tasks."@
    } else {
        "Active tasks:\n"@ + text::joined(task_lines(registry.tasks), "\n"@)
    }
}

/// The complaint that a task is not there.
pub open spec fn no_task(id: Seq<char>) -> Seq<char> {
    "Task '"@ + id + "' not found"@
}

/// The report on a task at `now`: a task that is over with its result, one
/// that waits for input with its question.
pub open spec fn report(t: TaskView, now: Moment) -> Seq<char> {
    let head = "Task "@ + t.id + " ["@ + source_word(t.source) + "] "@ + state_word(t.state)
        + "\nSource: "@ + t.description + "\nElapsed: "@ + duration::span_text(
        now.since(t.created_at),
    );
    if t.state.terminal() {
        head + "\n"@ + (match t.result_summary {
            Some(summary) => summary,
            None => "(no output)"@,
        })
    } else if t.state == TaskState::InputRequired && t.input_request is Some {
        head + "\nQuestion: "@ + t.input_request.unwrap()
    } else {
        head
    }
}

/// The task is there and over.
pub open spec fn is_over(registry: RegistryView, id: Seq<char>) -> bool {
    match registry.get(id) {
        Some(t) => t.state.terminal(),
        None => false,
    }
}

/// The reply to `get_task` at `now`.
pub open spec fn got(registry: RegistryView, id: Seq<char>, now: Moment) -> Result<
    Seq<char>,
    Seq<char>,
> {
    match registry.get(id) {
        Some(t) => Ok(report(t, now)),
        None => Err(no_task(id)),
    }
}

/// The registry once `get_task` was called: a task that is over is reaped.
pub open spec fn after_getting(registry: RegistryView, id: Seq<char>) -> RegistryView {
    if is_over(registry, id) {
        registry.removed(id)
    } else {
        registry
    }
}

/// The processes once `get_task` was called.
pub open spec fn processes_after_getting(
    table: Seq<(Seq<char>, ProcessView)>,
    registry: RegistryView,
    id: Seq<char>,
) -> Seq<(Seq<char>, ProcessView)> {
    if is_over(registry, id) {
        process::without_process(table, id)
    } else {
        table
    }
}

/// The process that is to be killed once `get_task` was called.
pub open spec fn reaped(
    table: Seq<(Seq<char>, ProcessView)>,
    registry: RegistryView,
    id: Seq<char>,
) -> Option<ProcessView> {
    if is_over(registry, id) {
        process::process_of(table, id)
    } else {
        None
    }
}

/// The reply to `cancel_task`.
pub open spec fn cancel_reply(registry: RegistryView, id: Seq<char>) -> Result<
    Seq<char>,
    Seq<char>,
> {
    if registry.has(id) {
        Ok("Task "@ + id + " cancelled."@)
    } else {
        Err(no_task(id))
    }
}

/// A process, by what is known of it.
pub open spec fn opt_process(p: Option<ManagedProcess>) -> Option<ProcessView> {
    match p {
        Some(p) => Some(p@),
        None => None,
    }
}

/// The text under `task_id` in the arguments, if it is there.
pub open spec fn task_named(arguments: Option<JsonObject>) -> Option<Seq<char>> {
    match arguments {
        Some(object) => arguments::text_in(arguments::members(object), "task_id"@),
        None => None,
    }
}

/// A call of `cancel_task` was decided on: this is what came of it, and this
/// what became of the client and the registry.
pub open spec fn cancel_handled(
    before: TasksClient,
    registry: TaskRegistry,
    arguments: Option<JsonObject>,
    r: (Option<ManagedProcess>, Result<String, String>),
    after: TasksClient,
    registry_after: TaskRegistry,
) -> bool {
    &&& after.next_id == before.next_id
    &&& after.client == before.client
    &&& match task_named(arguments) {
        None => {
            &&& after.processes@ == before.processes@
            &&& registry_after@ == registry@
            &&& registry_after.latest() == registry.latest()
            &&& r.0 is None
            &&& text::outcome(r.1) == Err::<Seq<char>, _>("Missing required parameter: task_id"@)
        },
        Some(id) => {
            &&& after.processes@ == process::without_process(before.processes@, id)
            &&& opt_process(r.0) == process::process_of(before.processes@, id)
            &&& registry.shows(registry_after.latest())
            &&& registry_after@ == registry@.cancelled(id, registry_after.latest())
            &&& text::outcome(r.1) == cancel_reply(registry@, id)
        },
    }
}

/// A call of `get_task` was decided on: this is what came of it, and this what
/// became of the client and the registry.
pub open spec fn get_handled(
    before: TasksClient,
    registry: TaskRegistry,
    arguments: Option<JsonObject>,
    r: (Option<ManagedProcess>, Result<String, String>),
    after: TasksClient,
    registry_after: TaskRegistry,
) -> bool {
    &&& after.next_id == before.next_id
    &&& after.client == before.client
    &&& match task_named(arguments) {
        None => {
            &&& after.processes@ == before.processes@
            &&& registry_after@ == registry@
            &&& registry_after.latest() == registry.latest()
            &&& r.0 is None
            &&& text::outcome(r.1) == Err::<Seq<char>, _>("Missing required parameter: task_id"@)
        },
        Some(id) => {
            &&& after.processes@ == processes_after_getting(before.processes@, registry@, id)
            &&& opt_process(r.0) == reaped(before.processes@, registry@, id)
            &&& registry_after@ == after_getting(registry@, id)
            &&& registry.shows(registry_after.latest())
            &&& text::outcome(r.1) == got(registry@, id, registry_after.latest())
        },
    }
}

// ── Execution ─────────────────────────────────────────────────────────

fn source_word_text(source: TaskSource) -> (r: &'static str)
    ensures
        r@ == source_word(source),
{
    match source {
        TaskSource::McpTool => "tool",
        TaskSource::Process => "process",
        TaskSource::Timer => "timer",
        TaskSource::Subagent => "subagent",
        TaskSource::McpResource => "resource",
        TaskSource::SwarmAgent => "swarm",
    }
}

fn state_word_text(state: TaskState) -> (r: &'static str)
    ensures
        r@ == state_word(state),
{
    match state {
        TaskState::Working => "running",
        TaskState::InputRequired => "waiting for input",
        TaskState::Completed => "completed",
        TaskState::Failed => "failed",
        TaskState::Cancelled => "cancelled",
    }
}

fn task_line_text(t: &Task) -> (r: String)
    ensures
        r@ == task_line(t@),
{
    let mut r = "  ".to_owned();
    r.append(t.id.as_str());
    r.append(" [");
    r.append(source_word_text(t.source));
    r.append("] ");
    r.append(state_word_text(t.state));
    r.append(" — ");
    r.append(t.description.as_str());
    r
}

fn report_text(t: &Task, now: Moment) -> (r: String)
    ensures
        r@ == report(t@, now),
{
    let mut r = "Task ".to_owned();
    r.append(t.id.as_str());
    r.append(" [");
    r.append(source_word_text(t.source));
    r.append("] ");
    r.append(state_word_text(t.state));
    r.append("\nSource: ");
    r.append(t.description.as_str());
    r.append("\nElapsed: ");
    r.append(duration::format_duration(now.duration_since(t.created_at)).as_str());
    if t.state.is_terminal() {
        r.append("\n");
        match &t.result_summary {
            Some(summary) => r.append(summary.as_str()),
            None => r.append("(no output)"),
        }
    } else if t.state == TaskState::InputRequired {
        if let Some(question) = &t.input_request {
            r.append("\nQuestion: ");
            r.append(question.as_str());
        }
    }
    r
}

fn no_task_text(id: &str) -> (r: String)
    ensures
        r@ == no_task(id@),
{
    "Task '".to_owned().concat(id).concat("' not found")
}

/// The text under `task_id` in the arguments, if it is there.
fn named_task(arguments: &Option<JsonObject>) -> (r: Option<String>)
    ensures
        text::opt_text(r) == task_named(*arguments),
{
    match arguments {
        Some(object) => arguments::get_text(object, "task_id"),
        None => None,
    }
}

impl TasksClient {
    /// Cancels a task at `now`. Gives the reply, and the process that is to be
    /// killed, if the task had one.
    pub fn cancel_task_at(&mut self, registry: &mut TaskRegistry, id: &str, now: Moment) -> (r: (
        Option<ManagedProcess>,
        Result<String, String>,
    ))
        requires
            old(self).wf(),
            old(registry).wf(),
        ensures
            final(self).wf(),
            final(self).next_id == old(self).next_id,
            final(self).client == old(self).client,
            final(self).processes@ == process::without_process(old(self).processes@, id@),
            opt_process(r.0) == process::process_of(old(self).processes@, id@),
            final(registry).wf(),
            final(registry).latest() == old(registry).latest(),
            final(registry)@ == old(registry)@.cancelled(id@, now),
            text::outcome(r.1) == cancel_reply(old(registry)@, id@),
    {
        let killed = self.processes.remove(id);
        if registry.get(id).is_none() {
            return (killed, Err(no_task_text(id)));
        }
        registry.cancel_at(id, now);
        let reply = "Task ".to_owned().concat(id).concat(" cancelled.");
        (killed, Ok(reply))
    }

    /// Decides on a call of `cancel_task`.
    pub fn handle_cancel_task(
        &mut self,
        registry: &mut TaskRegistry,
        arguments: &Option<JsonObject>,
    ) -> (r: (Option<ManagedProcess>, Result<String, String>))
        requires
            old(self).wf(),
            old(registry).wf(),
        ensures
            final(self).wf(),
            final(registry).wf(),
            cancel_handled(
                *old(self),
                *old(registry),
                *arguments,
                r,
                *final(self),
                *final(registry),
            ),
    {
        match named_task(arguments) {
            None => (None, Err("Missing required parameter: task_id".to_owned())),
            Some(id) => {
                let now = registry.tick();
                self.cancel_task_at(registry, id.as_str(), now)
            },
        }
    }

    /// The reply to a call of `list_tasks`.
    pub fn handle_list_tasks(&self, registry: &TaskRegistry) -> (r: String)
        ensures
            r@ == listing(registry@),
    {
        let tasks = registry.list();
        let ghost shown = tasks@.map_values(|t: &Task| t@);
        let ghost plain = registry@.tasks.map_values(|e: (Seq<char>, TaskView)| e.1);
        assert(shown.len() == registry@.tasks.len());
        if tasks.len() == 0 {
            return "No active tasks.".to_owned();
        }
        let mut lines: Vec<String> = Vec::new();
        let mut i: usize = 0;
        while i < tasks.len()
            invariant
                i <= tasks@.len(),
                tasks@.len() == registry@.tasks.len(),
                shown == tasks@.map_values(|t: &Task| t@),
                plain == registry@.tasks.map_values(|e: (Seq<char>, TaskView)| e.1),
                shown == plain,
                lines@.len() == i,
                forall|k: int|
                    0 <= k < i ==> (#[trigger] lines@[k])@ == task_line(registry@.tasks[k].1),
            decreases tasks.len() - i,
        {
            assert(shown[i as int] == tasks@[i as int]@);
            assert(plain[i as int] == registry@.tasks[i as int].1);
            lines.push(task_line_text(tasks[i]));
            i += 1;
        }
        assert(text::texts(lines@) =~= task_lines(registry@.tasks));
        "Active tasks:\n".to_owned().concat(text::join(&lines, "\n").as_str())
    }

    /// Reports on a task at `now`, and reaps it if it is over. Gives the
    /// reply, and the process that is to be killed, if a reaped task had one.
    pub fn get_task_at(&mut self, registry: &mut TaskRegistry, id: &str, now: Moment) -> (r: (
        Option<ManagedProcess>,
        Result<String, String>,
    ))
        requires
            old(self).wf(),
            old(registry).wf(),
        ensures
            final(self).wf(),
            final(self).next_id == old(self).next_id,
            final(self).client == old(self).client,
            final(self).processes@ == processes_after_getting(
                old(self).processes@,
                old(registry)@,
                id@,
            ),
            opt_process(r.0) == reaped(old(self).processes@, old(registry)@, id@),
            final(registry).wf(),
            final(registry).latest() == old(registry).latest(),
            final(registry)@ == after_getting(old(registry)@, id@),
            text::outcome(r.1) == got(old(registry)@, id@, now),
    {
        let (reply, over) = match registry.get(id) {
            Some(task) => (report_text(task, now), task.state.is_terminal()),
            None => {
                return (None, Err(no_task_text(id)));
            },
        };
        if over {
            registry.remove(id);
            let killed = self.processes.remove(id);
            (killed, Ok(reply))
        } else {
            (None, Ok(reply))
        }
    }

    /// Decides on a call of `get_task`.
    pub fn handle_get_task(
        &mut self,
        registry: &mut TaskRegistry,
        arguments: &Option<JsonObject>,
    ) -> (r: (Option<ManagedProcess>, Result<String, String>))
        requires
            old(self).wf(),
            old(registry).wf(),
        ensures
            final(self).wf(),
            final(registry).wf(),
            get_handled(
                *old(self),
                *old(registry),
                *arguments,
                r,
                *final(self),
                *final(registry),
            ),
    {
        match named_task(arguments) {
            None => (None, Err("Missing required parameter: task_id".to_owned())),
            Some(id) => {
                let now = registry.tick();
                self.get_task_at(registry, id.as_str(), now)
            },
        }
    }
}

// ── Laws ──────────────────────────────────────────────────────────────

/// A task that is over is reported once: then it is gone from the registry,
/// its process from the table, and asking again finds nothing.
pub proof fn finished_task_is_reaped(
    registry: RegistryView,
    table: Seq<(Seq<char>, ProcessView)>,
    id: Seq<char>,
    now: Moment,
)
    requires
        registry.keys_distinct(),
        process::entries_distinct(table),
        is_over(registry, id),
    ensures
        got(registry, id, now) is Ok,
        got(after_getting(registry, id), id, now) == Err::<Seq<char>, _>(no_task(id)),
        process::process_of(processes_after_getting(table, registry, id), id) is None,
{
    crate::tasks::removed_is_gone(registry, id);
    process::removed_process_is_gone(table, id);
}

/// Asking for a task that is not over changes nothing, so it can be asked for
/// again; one that waits for input is reported with its question.
pub proof fn unfinished_task_is_kept(
    registry: RegistryView,
    table: Seq<(Seq<char>, ProcessView)>,
    id: Seq<char>,
    now: Moment,
)
    requires
        !is_over(registry, id),
    ensures
        after_getting(registry, id) == registry,
        processes_after_getting(table, registry, id) == table,
        reaped(table, registry, id) is None,
        (registry.get(id) matches Some(t) && t.state == TaskState::InputRequired
            && t.input_request is Some) ==> (got(registry, id, now) matches Ok(reply)
            && text::occurs_in(reply, registry.get(id).unwrap().input_request.unwrap())),
{
    if let Some(t) = registry.get(id) {
        if t.state == TaskState::InputRequired && t.input_request is Some {
            let question = t.input_request.unwrap();
            let reply = report(t, now);
            let at = reply.len() - question.len();
            assert(reply.subrange(at, at + question.len()) =~= question);
            assert(text::stands_at(reply, question, at));
        }
    }
}

/// A cancelled task is over, and its process is no longer kept.
pub proof fn cancelled_task_is_over(
    registry: RegistryView,
    table: Seq<(Seq<char>, ProcessView)>,
    id: Seq<char>,
    now: Moment,
)
    requires
        registry.keys_distinct(),
        process::entries_distinct(table),
        registry.has(id),
    ensures
        is_over(registry.cancelled(id, now), id),
        process::process_of(process::without_process(table, id), id) is None,
{
    process::removed_process_is_gone(table, id);
    let t = registry.get(id).unwrap();
    let fired = registry.firing(id);
    assert(fired.tasks == registry.tasks);
    assert(fired.get(id) == Some(t));
    if !t.state.terminal() {
        crate::tasks::replacing_is_local(
            fired,
            id,
            crate::tasks::moved(t, TaskState::Cancelled, Some("cancelled"@), now),
        );
        let next = fired.with_task(
            id,
            crate::tasks::moved(t, TaskState::Cancelled, Some("cancelled"@), now),
        );
        assert(registry.cancelled(id, now).tasks == next.tasks);
        assert(registry.cancelled(id, now).get(id) == next.get(id));
    } else {
        assert(registry.cancelled(id, now).get(id) == Some(t));
    }
}

} // verus!
