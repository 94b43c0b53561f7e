//! What holds of how finished tasks and events are told.
use crate::finished;
use crate::finished::FinishedTaskView;
use crate::message::{ContentBlockView, MessageView, Role, SystemNotificationType};
use crate::outside;
use crate::registry_laws;
use crate::showing;
use crate::steer;
use crate::task_notification;
use crate::task_watcher;
use crate::tasks;
use crate::tasks::{
    OutgoingView, RegistryView, TaskEventView, TaskSource, TaskState, TaskSummaryView, TaskView,
};
use crate::text;
use crate::text_laws;
use crate::time::Span;
use crate::turn_queue;
use crate::turn_queue::TurnInputView;
use vstd::prelude::*;
use vstd::string::*;

verus! {

// ── Finished tasks ────────────────────────────────────────────────────

/// What is told of a task between turns: which it is, how it ended and with
/// what result, if it has one.
pub open spec fn news(t: TaskView) -> FinishedTaskView {
    FinishedTaskView {
        id: t.id,
        description: t.description,
        summary: if t.result_summary is Some {
            t.result_summary.unwrap()
        } else {
            Seq::empty()
        },
        state: t.state,
    }
}

/// Between turns every task that is over is told of, whatever it ended with,
/// and no other, in the order in which they are kept.
pub proof fn every_ended_task_is_news(
    a: Seq<(Seq<char>, TaskView)>,
    b: Seq<(Seq<char>, TaskView)>,
    outgoing: Seq<OutgoingView>,
    e: (Seq<char>, TaskView),
)
    ensures
        ({
            let left = RegistryView { tasks: a, outgoing };
            let right = RegistryView { tasks: b, outgoing };
            let both = RegistryView { tasks: a + b, outgoing };
            let one = RegistryView { tasks: seq![e], outgoing };
            let none = RegistryView { tasks: Seq::empty(), outgoing };
            &&& finished::all_told_of(both) == finished::all_told_of(left) + finished::all_told_of(
                right,
            )
            &&& finished::all_told_of(none).len() == 0
            &&& finished::all_told_of(one) == (if registry_laws::has_ended(e.1) {
                seq![news(e.1)]
            } else {
                Seq::empty()
            })
        }),
{
    let any = |s: TaskState| true;
    registry_laws::listing_picks_by_state(a, b, outgoing, e, any);
    let left = RegistryView { tasks: a, outgoing };
    let right = RegistryView { tasks: b, outgoing };
    let both = RegistryView { tasks: a + b, outgoing };
    let one = RegistryView { tasks: seq![e], outgoing };
    assert(finished::all_told_of(both) =~= finished::all_told_of(left) + finished::all_told_of(
        right,
    ));
    assert(finished::all_told_of(one) =~= (if registry_laws::has_ended(e.1) {
        seq![news(e.1)]
    } else {
        Seq::empty()
    }));
}

/// A task that is over is among what is told between turns.
pub proof fn ended_task_is_told(registry: RegistryView, id: Seq<char>)
    requires
        registry.get(id) is Some,
        registry_laws::has_ended(registry.get(id).unwrap()),
    ensures
        finished::all_told_of(registry).contains(news(registry.get(id).unwrap())),
{
    let t = registry.get(id).unwrap();
    let k = registry.slot(id);
    assert(tasks::keyed(registry.tasks, id, k));
    tasks::over_is_exact(registry);
    assert(registry.tasks[k].1.state.terminal());
    let over = registry.over();
    let i = choose|i: int| 0 <= i < over.len() && #[trigger] over[i] == t;
    assert(finished::all_told_of(registry)[i] == news(t));
}

proof fn without_tells_nothing(registry: RegistryView, done: Seq<FinishedTaskView>)
    ensures
        finished::without(registry, done).outgoing == registry.outgoing,
    decreases done.len(),
{
    if done.len() > 0 {
        without_tells_nothing(registry, done.drop_last());
    }
}

/// Once they are told of, the tasks that are over are no longer kept; all
/// others are, and what is to be delivered stays.
pub proof fn told_tasks_are_dropped(registry: RegistryView, id: Seq<char>)
    requires
        registry.keys_distinct(),
        finished::keyed_by_id(registry),
    ensures
        ({
            let next = finished::drained(registry);
            &&& next.outgoing == registry.outgoing
            &&& match registry.get(id) {
                None => next.get(id) is None,
                Some(t) => if registry_laws::has_ended(t) {
                    next.get(id) is None
                } else {
                    next.get(id) == Some(t)
                },
            }
        }),
{
    finished::no_finished_task_is_left(registry);
    without_tells_nothing(registry, finished::all_told_of(registry));
}

/// The agent is between turns exactly when it has ended its turn or a tool has
/// answered it.
pub proof fn turns_end_or_are_answered(ends_turn: bool, last_is_tool: bool)
    ensures
        finished::between_turns(ends_turn, last_is_tool) <==> ends_turn || last_is_tool,
{
}

// ── Messages ──────────────────────────────────────────────────────────

/// How the end of a task is told.
pub open spec fn word_of_end(state: TaskState) -> Seq<char> {
    match state {
        TaskState::Completed => "completed"@,
        TaskState::Failed => "failed"@,
        TaskState::Cancelled => "cancelled"@,
        TaskState::Working => "finished"@,
        TaskState::InputRequired => "finished"@,
    }
}

/// The text on a finished task names it, says how it ended, and ends with its
/// result.
pub proof fn completion_is_told_in_full(
    id: Seq<char>,
    description: Seq<char>,
    state: TaskState,
    summary: Seq<char>,
)
    ensures
        tasks::completion_text(id, description, state, summary) == "System: Background task '"@ + id
            + "' ("@ + description + ") "@ + word_of_end(state) + ".\nResult: "@ + summary,
        tasks::state_label(state) == word_of_end(state),
{
}

/// The message on a finished task says it twice: to the model and in the user
/// interface. Both the user and the agent see it, and it is no guidance.
pub proof fn completion_message_tells_both(
    id: Seq<char>,
    description: Seq<char>,
    state: TaskState,
    summary: Seq<char>,
)
    ensures
        ({
            let m = tasks::completion_message(id, description, state, summary);
            let told = tasks::completion_text(id, description, state, summary);
            &&& m.role == Role::User
            &&& m.user_visible
            &&& m.agent_visible
            &&& !m.steer
            &&& m.content.len() == 2
            &&& m.content[0] == ContentBlockView::Text(told)
            &&& m.content[1] == ContentBlockView::SystemNotification {
                notification_type: SystemNotificationType::InlineMessage,
                msg: told,
            }
        }),
{
}

/// A user message holds the blocks that it is made of, is seen by all, and is
/// no guidance.
pub proof fn user_messages_hold_their_blocks(content: Seq<ContentBlockView>)
    ensures
        MessageView::from_user(content) == (MessageView {
            role: Role::User,
            content,
            user_visible: true,
            agent_visible: true,
            steer: false,
        }),
{
}

/// Each finished task gets a message of its own, with its own end, in their
/// order; there are messages exactly if the agent is between turns and a task
/// is over.
pub proof fn each_finished_task_gets_a_message(registry: RegistryView, between_turns: bool)
    ensures
        ({
            let done = finished::all_told_of(registry);
            match task_notification::notified(registry, between_turns) {
                None => !between_turns || done.len() == 0,
                Some(messages) => {
                    &&& between_turns
                    &&& messages.len() > 0
                    &&& messages.len() == done.len()
                    &&& forall|i: int|
                        0 <= i < messages.len() ==> #[trigger] messages[i]
                            == tasks::completion_message(
                            done[i].id,
                            done[i].description,
                            done[i].state,
                            done[i].summary,
                        )
                },
            }
        }),
{
}

// ── Guidance ──────────────────────────────────────────────────────────

/// Between turns all queued guidance takes effect, in its order and unchanged
/// but for its mark.
pub proof fn guidance_is_unchanged(queue: Seq<MessageView>, registry: RegistryView)
    ensures
        ({
            let steers = steer::steered(queue, registry).steers;
            &&& steers.len() == queue.len()
            &&& forall|i: int|
                0 <= i < queue.len() ==> {
                    &&& (#[trigger] steers[i]).steer
                    &&& steers[i].role == queue[i].role
                    &&& steers[i].content == queue[i].content
                    &&& steers[i].user_visible == queue[i].user_visible
                    &&& steers[i].agent_visible == queue[i].agent_visible
                }
        }),
{
}

/// With the guidance goes a notice, which the agent sees and the user does not,
/// exactly if a task is over: one text, in which every finished task is told
/// of.
pub proof fn notice_tells_of_every_task(queue: Seq<MessageView>, registry: RegistryView)
    ensures
        ({
            let done = finished::all_told_of(registry);
            match steer::steered(queue, registry).notice {
                None => done.len() == 0,
                Some(m) => {
                    &&& done.len() > 0
                    &&& m.role == Role::User
                    &&& m.agent_visible
                    &&& !m.user_visible
                    &&& !m.steer
                    &&& m.content.len() == 1
                    &&& m.content[0] matches ContentBlockView::Text(said) && {
                        &&& said == text::joined(steer::paragraphs(done), "\n\n"@)
                        &&& forall|i: int|
                            0 <= i < done.len() ==> showing::shows(
                                said,
                                #[trigger] steer::paragraphs(done)[i],
                            )
                    }
                },
            }
        }),
{
    let done = finished::all_told_of(registry);
    let parts = steer::paragraphs(done);
    let said = text::joined(parts, "\n\n"@);
    assert forall|i: int| 0 <= i < done.len() implies showing::shows(
        said,
        #[trigger] steer::paragraphs(done)[i],
    ) by {
        text_laws::joined_shows_its_parts(parts, "\n\n"@, i);
    }
}

/// Each finished task has a paragraph of its own in the notice, which names it
/// and ends with its result.
pub proof fn each_finished_task_has_a_paragraph(done: Seq<FinishedTaskView>, i: int)
    requires
        0 <= i < done.len(),
    ensures
        steer::paragraphs(done).len() == done.len(),
        steer::paragraphs(done)[i] == "System: Background task '"@ + done[i].id + "' ("@
            + done[i].description + ") "@ + "completed"@ + ".\nResult: "@ + done[i].summary,
{
}

// ── Prompts ───────────────────────────────────────────────────────────

/// How the end of a task is marked; a word of the caller's where it neither
/// completed nor failed.
pub open spec fn mark_of_end(state: TaskState, otherwise: Seq<char>) -> Seq<char> {
    match state {
        TaskState::Completed => "✓ completed"@,
        TaskState::Failed => "✗ failed"@,
        TaskState::Working => otherwise,
        TaskState::InputRequired => otherwise,
        TaskState::Cancelled => otherwise,
    }
}

/// The prompt on a finished task names it, says how it ended and how long it
/// took, and then what to do about it: to read the output of a process, to heed
/// a reminder, or to look at the result.
pub proof fn prompt_on_a_finished_task(s: TaskSummaryView)
    ensures
        task_watcher::prompt(TaskEventView::TaskCompleted { task: s })
            == "System: Background task "@ + s.id + " \""@ + s.description + "\" has "@
            + mark_of_end(s.state, "finished"@) + " ("@ + outside::rounded_duration(
            s.duration.standard_secs(),
            s.duration.subsec_nanos(),
        ) + ").\n"@ + (match s.source {
            TaskSource::Process => "Use tasks__read_output(process_id: \""@ + s.id
                + "\") to see the output."@,
            TaskSource::Timer => "The reminder message was: \""@ + s.description + "\""@,
            TaskSource::Subagent | TaskSource::McpResource | TaskSource::McpTool
            | TaskSource::SwarmAgent => "Use get_task(task_id: \""@ + s.id
                + "\") or load(source: \""@ + s.id + "\") to examine the result."@,
        }),
{
}

/// The prompt on a batch names it and has a line for each of its tasks, in
/// their order.
pub proof fn prompt_on_a_batch(batch_id: Seq<char>, task_summaries: Seq<TaskSummaryView>)
    ensures
        ({
            let event = TaskEventView::BatchCompleted { batch_id, task_summaries };
            let lines = task_watcher::batch_lines(task_summaries);
            &&& task_watcher::prompt(event) == "System: All background tasks in batch '"@ + batch_id
                + "' have completed:\n"@ + text::joined(lines, "\n"@)
                + "\n\nUse load(source: \"<id>\") to examine results and determine next steps."@
            &&& lines.len() == task_summaries.len()
            &&& forall|i: int|
                0 <= i < lines.len() ==> showing::shows(
                    task_watcher::prompt(event),
                    #[trigger] lines[i],
                )
        }),
{
    let event = TaskEventView::BatchCompleted { batch_id, task_summaries };
    let lines = task_watcher::batch_lines(task_summaries);
    let all = text::joined(lines, "\n"@);
    assert forall|i: int| 0 <= i < lines.len() implies showing::shows(
        task_watcher::prompt(event),
        #[trigger] lines[i],
    ) by {
        text_laws::joined_shows_its_parts(lines, "\n"@, i);
        showing::stands_in_more(
            all,
            lines[i],
            "System: All background tasks in batch '"@ + batch_id + "' have completed:\n"@,
            "\n\nUse load(source: \"<id>\") to examine results and determine next steps."@,
        );
    }
}

/// The line of a task of a batch names it, says how it ended and how long it
/// took.
pub proof fn batch_lines_name_their_tasks(summaries: Seq<TaskSummaryView>, i: int)
    requires
        0 <= i < summaries.len(),
    ensures
        task_watcher::batch_lines(summaries)[i] == "  • "@ + summaries[i].id + " \""@
            + summaries[i].description + "\": "@ + mark_of_end(summaries[i].state, "unknown"@)
            + " ("@ + outside::rounded_duration(
            summaries[i].duration.standard_secs(),
            summaries[i].duration.subsec_nanos(),
        ) + ")"@,
{
}

/// The prompts on a question and on a pattern say whose they are, and what was
/// asked or seen.
pub proof fn prompts_on_questions_and_patterns(
    task_id: Seq<char>,
    question: Seq<char>,
    pattern: Seq<char>,
    context: Seq<char>,
)
    ensures
        task_watcher::prompt(TaskEventView::TaskNeedsInput { task_id, question })
            == "System: Background task '"@ + task_id + "' needs your input: "@ + question,
        task_watcher::prompt(TaskEventView::PatternMatched { task_id, pattern, context })
            == "System: Background task '"@ + task_id + "' matched pattern \""@ + pattern + "\": "@
            + context,
{
}

/// A duration is rounded as it is.
pub proof fn durations_are_rounded_as_they_are(secs: u64, nanos: u32)
    requires
        nanos < 1_000_000_000,
    ensures
        task_watcher::rounded(Span { nanos: (secs * 1_000_000_000 + nanos) as u128 })
            == outside::rounded_duration(secs, nanos),
{
    let d = Span { nanos: (secs * 1_000_000_000 + nanos) as u128 };
    assert(d.nanos / 1_000_000_000 == secs);
    assert(d.nanos % 1_000_000_000 == nanos);
}

// ── Turns ─────────────────────────────────────────────────────────────

/// What is queued for the next turn, by the user or by the system, is handed
/// over word for word, in one user message of one text.
pub proof fn inputs_are_handed_over(items: Seq<TurnInputView>, i: int, words: Seq<char>)
    requires
        0 <= i < items.len(),
        items[i] == TurnInputView::User(words) || items[i] == TurnInputView::System(words),
    ensures
        ({
            let m = turn_queue::turn_message(items);
            &&& m.role == Role::User
            &&& m.user_visible
            &&& m.agent_visible
            &&& !m.steer
            &&& m.content.len() == 1
            &&& m.content[0] matches ContentBlockView::Text(said) && showing::shows(said, words)
                && (items.len() == 1 ==> said == words)
        }),
        items[i].words() == words,
{
    let parts = items.map_values(|i: TurnInputView| i.words());
    assert(parts[i] == words);
    text_laws::joined_shows_its_parts(parts, "\n\n"@, i);
}

} // verus!
