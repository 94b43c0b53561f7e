//! Turning task events into prompts for the next turn.
use crate::outside;
use crate::tasks::{
    TaskEvent, TaskEventView, TaskSource, TaskState, TaskSummary, TaskSummaryView,
};
use crate::text;
use crate::time::Span;
use crate::turn_queue::{TurnInputView, TurnQueue};
use vstd::prelude::*;
use vstd::string::*;

verus! {

// ── Model ─────────────────────────────────────────────────────────────

/// A duration, rounded.
pub open spec fn rounded(d: Span) -> Seq<char> {
    outside::rounded_duration(d.standard_secs(), d.subsec_nanos())
}

/// How a task ended; `otherwise` where it neither completed nor failed.
pub open spec fn ending(state: TaskState, otherwise: Seq<char>) -> Seq<char> {
    match state {
        TaskState::Completed => "✓ completed"@,
        TaskState::Failed => "✗ failed"@,
        _ => otherwise,
    }
}

/// The line of a task of a batch. `duration` is its duration, rounded.
pub open spec fn batch_line(s: TaskSummaryView, duration: Seq<char>) -> Seq<char> {
    "  • "@ + s.id + " \""@ + s.description + "\": "@ + ending(s.state, "unknown"@) + " ("@
        + duration + ")"@
}

/// The lines of the tasks of a batch, in their order.
pub open spec fn batch_lines(summaries: Seq<TaskSummaryView>) -> Seq<Seq<char>> {
    summaries.map_values(|s: TaskSummaryView| batch_line(s, rounded(s.duration)))
}

/// What to do about a finished task.
pub open spec fn follow_up(s: TaskSummaryView) -> Seq<char> {
    match s.source {
        TaskSource::Process => "Use tasks__read_output(process_id: \""@ + s.id
            + "\") to see the output."@,
        TaskSource::Timer => "The reminder message was: \""@ + s.description + "\""@,
        _ => "Use get_task(task_id: \""@ + s.id + "\") or load(source: \""@ + s.id
            + "\") to examine the result."@,
    }
}

/// The prompt on a finished task. `duration` is its duration, rounded.
pub open spec fn completed_prompt(s: TaskSummaryView, duration: Seq<char>) -> Seq<char> {
    "System: Background task "@ + s.id + " \""@ + s.description + "\" has "@ + ending(
        s.state,
        "finished"@,
    ) + " ("@ + duration + ").\n"@ + follow_up(s)
}

/// The prompt on a finished batch.
pub open spec fn batch_prompt(batch_id: Seq<char>, lines: Seq<Seq<char>>) -> Seq<char> {
    "System: All background tasks in batch '"@ + batch_id + "' have completed:\n"@ + text::joined(
        lines,
        "\n"@,
    ) + "\n\nUse load(source: \"<id>\") to examine results and determine next steps."@
}

/// The prompt on an event.
pub open spec fn prompt(event: TaskEventView) -> Seq<char> {
    match event {
        TaskEventView::BatchCompleted { batch_id, task_summaries } => batch_prompt(
            batch_id,
            batch_lines(task_summaries),
        ),
        TaskEventView::TaskCompleted { task } => completed_prompt(task, rounded(task.duration)),
        TaskEventView::TaskNeedsInput { task_id, question } => "System: Background task '"@
            + task_id + "' needs your input: "@ + question,
        TaskEventView::PatternMatched { task_id, pattern, context } => "System: Background task '"@
            + task_id + "' matched pattern \""@ + pattern + "\": "@ + context,
    }
}

// ── Execution ─────────────────────────────────────────────────────────

fn round(d: Span) -> (r: String)
    ensures
        r@ == rounded(d),
{
    let (secs, nanos) = d.parts();
    outside::round_duration(secs, nanos)
}

fn ending_text(state: TaskState, otherwise: &'static str) -> (r: &'static str)
    ensures
        r@ == ending(state, otherwise@),
{
    match state {
        TaskState::Completed => "✓ completed",
        TaskState::Failed => "✗ failed",
        _ => otherwise,
    }
}

/// The line of a task of a batch. `duration` is its duration, rounded.
pub fn batch_line_text(s: &TaskSummary, duration: &str) -> (r: String)
    ensures
        r@ == batch_line(s@, duration@),
{
    let mut r = "  • ".to_owned();
    r.append(s.id.as_str());
    r.append(" \"");
    r.append(s.description.as_str());
    r.append("\": ");
    r.append(ending_text(s.state, "unknown"));
    r.append(" (");
    r.append(duration);
    r.append(")");
    r
}

fn follow_up_text(s: &TaskSummary) -> (r: String)
    ensures
        r@ == follow_up(s@),
{
    match s.source {
        TaskSource::Process => "Use tasks__read_output(process_id: \"".to_owned().concat(
            s.id.as_str(),
        ).concat("\") to see the output."),
        TaskSource::Timer => "The reminder message was: \"".to_owned().concat(
            s.description.as_str(),
        ).concat("\""),
        _ => "Use get_task(task_id: \"".to_owned().concat(s.id.as_str()).concat(
            "\") or load(source: \"",
        ).concat(s.id.as_str()).concat("\") to examine the result."),
    }
}

/// The prompt on a finished task. `duration` is its duration, rounded.
pub fn completed_prompt_text(s: &TaskSummary, duration: &str) -> (r: String)
    ensures
        r@ == completed_prompt(s@, duration@),
{
    let mut r = "System: Background task ".to_owned();
    r.append(s.id.as_str());
    r.append(" \"");
    r.append(s.description.as_str());
    r.append("\" has ");
    r.append(ending_text(s.state, "finished"));
    r.append(" (");
    r.append(duration);
    r.append(").\n");
    r.append(follow_up_text(s).as_str());
    r
}

/// The prompt on a finished batch.
pub fn batch_prompt_text(batch_id: &str, lines: &Vec<String>) -> (r: String)
    ensures
        r@ == batch_prompt(batch_id@, text::texts(lines@)),
{
    let mut r = "System: All background tasks in batch '".to_owned();
    r.append(batch_id);
    r.append("' have completed:\n");
    r.append(text::join(lines, "\n").as_str());
    r.append("\n\nUse load(source: \"<id>\") to examine results and determine next steps.");
    r
}

/// The prompt on an event.
pub fn synthesize_prompt(event: &TaskEvent) -> (r: String)
    ensures
        r@ == prompt(event@),
{
    match event {
        TaskEvent::BatchCompleted { batch_id, task_summaries } => {
            let mut lines: Vec<String> = Vec::new();
            let ghost told = task_summaries@.map_values(|s: TaskSummary| s@);
            let mut i: usize = 0;
            while i < task_summaries.len()
                invariant
                    i <= task_summaries@.len(),
                    lines@.len() == i,
                    told == task_summaries@.map_values(|s: TaskSummary| s@),
                    forall|k: int|
                        0 <= k < i ==> (#[trigger] lines@[k])@ == batch_lines(told)[k],
                decreases task_summaries.len() - i,
            {
                let s = &task_summaries[i];
                let line = batch_line_text(s, round(s.duration).as_str());
                assert(told[i as int] == s@);
                lines.push(line);
                i += 1;
            }
            assert(text::texts(lines@) =~= batch_lines(told));
            batch_prompt_text(batch_id.as_str(), &lines)
        },
        TaskEvent::TaskCompleted { task } => completed_prompt_text(
            task,
            round(task.duration).as_str(),
        ),
        TaskEvent::TaskNeedsInput { task_id, question } => {
            let mut r = "System: Background task '".to_owned();
            r.append(task_id.as_str());
            r.append("' needs your input: ");
            r.append(question.as_str());
            r
        },
        TaskEvent::PatternMatched { task_id, pattern, context } => {
            let mut r = "System: Background task '".to_owned();
            r.append(task_id.as_str());
            r.append("' matched pattern \"");
            r.append(pattern.as_str());
            r.append("\": ");
            r.append(context.as_str());
            r
        },
    }
}

/// Queues the prompt on an event for the next turn.
pub fn queue_event(queue: &mut TurnQueue, event: &TaskEvent)
    ensures
        final(queue)@ == old(queue)@.push(TurnInputView::System(prompt(event@))),
{
    queue.push_system(synthesize_prompt(event));
}

// ── Laws ──────────────────────────────────────────────────────────────

/// The prompt on a single task tells which task it is, and for a question or
/// a pattern what was asked or seen.
pub proof fn prompt_names_its_task(event: TaskEventView)
    ensures
        match event {
            TaskEventView::TaskCompleted { task } => text::occurs_in(prompt(event), task.id)
                && text::occurs_in(prompt(event), task.description),
            TaskEventView::TaskNeedsInput { task_id, question } => text::occurs_in(
                prompt(event),
                task_id,
            ) && text::occurs_in(prompt(event), question),
            TaskEventView::PatternMatched { task_id, pattern, context } => text::occurs_in(
                prompt(event),
                task_id,
            ) && text::occurs_in(prompt(event), pattern) && text::occurs_in(prompt(event), context),
            TaskEventView::BatchCompleted { batch_id, .. } => text::occurs_in(
                prompt(event),
                batch_id,
            ),
        },
{
    let all = prompt(event);
    match event {
        TaskEventView::TaskCompleted { task } => {
            let at = "System: Background task "@.len() as int;
            assert(all.subrange(at, at + task.id.len()) =~= task.id);
            assert(text::stands_at(all, task.id, at));
            let next = at + task.id.len() + " \""@.len();
            assert(all.subrange(next, next + task.description.len()) =~= task.description);
            assert(text::stands_at(all, task.description, next));
        },
        TaskEventView::TaskNeedsInput { task_id, question } => {
            let at = "System: Background task '"@.len() as int;
            assert(all.subrange(at, at + task_id.len()) =~= task_id);
            assert(text::stands_at(all, task_id, at));
            let next = all.len() - question.len();
            assert(all.subrange(next, next + question.len()) =~= question);
            assert(text::stands_at(all, question, next));
        },
        TaskEventView::PatternMatched { task_id, pattern, context } => {
            let at = "System: Background task '"@.len() as int;
            assert(all.subrange(at, at + task_id.len()) =~= task_id);
            assert(text::stands_at(all, task_id, at));
            let mid = at + task_id.len() + "' matched pattern \""@.len();
            assert(all.subrange(mid, mid + pattern.len()) =~= pattern);
            assert(text::stands_at(all, pattern, mid));
            let next = all.len() - context.len();
            assert(all.subrange(next, next + context.len()) =~= context);
            assert(text::stands_at(all, context, next));
        },
        TaskEventView::BatchCompleted { batch_id, .. } => {
            let at = "System: All background tasks in batch '"@.len() as int;
            assert(all.subrange(at, at + batch_id.len()) =~= batch_id);
            assert(text::stands_at(all, batch_id, at));
        },
    }
}

} // verus!
