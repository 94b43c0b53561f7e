//! What holds of processes and reminders run as jobs.
use crate::arguments;
use crate::arguments::{JsonObject, MemberView};
use crate::job_process::JobProcessView;
use crate::job_registry_laws;
use crate::jobs;
use crate::jobs::{
    InterruptPolicy, JobMeta, JobRegistry, JobSource, JobState, JobView, NotifyPolicy,
    RegistryView,
};
use crate::outside;
use crate::process;
use crate::process::{WriteActionView, WriteStepView};
use crate::process_client;
use crate::process_client::{
    JobStart, OutputStream, ProcessClient, ReminderOutcome, ReminderPlanView, StopPlan,
};
use crate::send_laws;
use crate::showing;
use crate::text;
use crate::text_laws;
use crate::time::{Moment, Span};
use vstd::prelude::*;
use vstd::string::*;
use vstd::utf8::*;

verus! {

// ── Arguments ─────────────────────────────────────────────────────────

/// The call gives this text under a name.
pub open spec fn gives(arguments: Option<JsonObject>, key: Seq<char>, words: Seq<char>) -> bool {
    arguments matches Some(object) && send_laws::has_member(
        arguments::members(object),
        key,
        MemberView::Text(words),
    )
}

/// A text is read from the member of its name, and from no other.
pub proof fn texts_are_read_by_name(
    arguments: Option<JsonObject>,
    key: Seq<char>,
    words: Seq<char>,
)
    ensures
        process_client::text_given(arguments, key) == Some(words) <==> gives(arguments, key, words),
{
}

// ── Starting ──────────────────────────────────────────────────────────

/// A process is planned exactly if a command is given and an identifier is
/// left: this command, with this pattern to watch for, under the next
/// identifier, which is used up. Otherwise no identifier is.
pub proof fn process_job_is_planned_as_asked(
    before: ProcessClient,
    arguments: Option<JsonObject>,
    r: Result<JobStart, String>,
    after: ProcessClient,
)
    requires
        process_client::start_handled(before, arguments, r, after),
    ensures
        after.processes == before.processes,
        r is Ok <==> exists|command: Seq<char>| #[trigger]
            gives(arguments, "command"@, command),
        r matches Err(e) ==> e@ == (if arguments is None {
            "Missing arguments"@
        } else {
            "Missing 'command' argument"@
        }),
        match r {
            Ok(JobStart::Planned(plan)) => {
                &&& before.next_id < u32::MAX
                &&& after.next_id == before.next_id + 1
                &&& plan.id@ == "proc_"@ + text::decimal_text(before.next_id as nat)
                &&& gives(arguments, "command"@, plan.command@)
                &&& plan.wait_for matches Some(p) ==> gives(arguments, "wait_for"@, p@)
                &&& plan.wait_for is None ==> forall|p: Seq<char>|
                    !#[trigger] gives(arguments, "wait_for"@, p)
            },
            Ok(JobStart::NoMoreIds) => before.next_id == u32::MAX && after.next_id
                == before.next_id,
            Err(_) => after.next_id == before.next_id,
        },
{
    if let Some(command) = process_client::text_given(arguments, "command"@) {
        assert(gives(arguments, "command"@, command));
    }
    if let Some(p) = process_client::text_given(arguments, "wait_for"@) {
        assert(gives(arguments, "wait_for"@, p));
    }
}

/// A job starts to work when it is registered, on its own: with no batch, no
/// result, no notes and no work done; it is told of when it ends.
pub proof fn fresh_jobs_start_to_work(
    id: Seq<char>,
    source: JobSource,
    description: Seq<char>,
    deadline: Option<Moment>,
    now: Moment,
)
    ensures
        process_client::fresh_job(id, source, description, deadline, now) == (JobView {
            id,
            source,
            description,
            state: JobState::Working,
            batch_id: None,
            notify_policy: NotifyPolicy::OnCompletion,
            meta: JobMeta {
                min_poll_interval_ms: 1000,
                ttl_after_completion_s: 300,
                interrupt_on: InterruptPolicy {
                    on_complete: true,
                    on_failed: true,
                    on_input_required: true,
                    on_pattern_matched: true,
                },
                deadline,
            },
            created_at: now,
            last_activity: now,
            worked_duration: Span { nanos: 0 },
            notifications: Seq::empty(),
            result_summary: None,
        }),
{
}

/// The reply to the start of a process begins with its identifier and its
/// command.
pub proof fn started_job_is_named(id: Seq<char>, command: Seq<char>)
    ensures
        ("Process started with handle: "@ + id + "\nCommand: "@ + command + "\n"@).is_prefix_of(
            process_client::start_reply(id, command),
        ),
{
    let reply = process_client::start_reply(id, command);
    let head = "Process started with handle: "@ + id + "\nCommand: "@ + command + "\n"@;
    reveal_strlit("\n\nUse read_output(\"");
    reveal_strlit("\n");
    assert(reply.subrange(0, head.len() as int) =~= head);
}

/// A process that was started runs, can be written to, and has put out
/// nothing; each line is kept after those before.
pub proof fn job_output_is_kept(description: Seq<char>, p: JobProcessView, line: Seq<char>)
    ensures
        JobProcessView::started(description) == (JobProcessView {
            running: true,
            stdin_open: true,
            output_lines: Seq::empty(),
            description,
        }),
        p.with_line(line) == (JobProcessView { output_lines: p.output_lines.push(line), ..p }),
{
}

/// A line of output is kept whole, behind a mark of where it came from.
pub proof fn lines_are_marked(line: Seq<char>)
    ensures
        process_client::marked(OutputStream::Stdout, line) == "[stdout] "@ + line,
        process_client::marked(OutputStream::Stderr, line) == "[stderr] "@ + line,
{
}

// ── Output ────────────────────────────────────────────────────────────

/// Up to fifty lines are shown in full; of more, the last fifty, under a line
/// that tells how many there are.
pub proof fn last_fifty_lines_are_shown(lines: Seq<Seq<char>>)
    ensures
        lines.len() <= 50 ==> process_client::recent(lines) == text::joined(lines, "\n"@),
        lines.len() > 50 ==> process_client::recent(lines) == "("@ + text::decimal_text(lines.len())
            + " lines total, showing last "@ + text::decimal_text(50) + ")\n"@ + text::joined(
            lines.skip(lines.len() - 50),
            "\n"@,
        ),
        forall|i: int|
            0 <= i < lines.len() && lines.len() - 50 <= i ==> showing::shows(
                process_client::recent(lines),
                #[trigger] lines[i],
            ),
{
    assert forall|i: int| 0 <= i < lines.len() && lines.len() - 50 <= i implies showing::shows(
        process_client::recent(lines),
        #[trigger] lines[i],
    ) by {
        if lines.len() <= 50 {
            text_laws::joined_shows_its_parts(lines, "\n"@, i);
        } else {
            let shown = lines.skip(lines.len() - 50);
            let k = i - (lines.len() - 50);
            assert(shown[k] == lines[i]);
            text_laws::joined_shows_its_parts(shown, "\n"@, k);
            showing::stands_in_more(
                text::joined(shown, "\n"@),
                lines[i],
                "("@ + text::decimal_text(lines.len()) + " lines total, showing last "@
                    + text::decimal_text(50) + ")\n"@,
                Seq::empty(),
            );
        }
    }
}

/// The reply to `read_output` names the process, tells whether it runs, shows
/// its recent lines, and ends with how many there are. It is given exactly for
/// a process that is there.
pub proof fn job_output_is_replied(client: ProcessClient, arguments: Option<JsonObject>, id: Seq<char>)
    requires
        gives(arguments, "process_id"@, id),
    ensures
        match process::process_of(client.processes@, id) {
            None => process_client::output_replied(client, arguments) == Err::<Seq<char>, _>(
                "Process '"@ + id + "' not found"@,
            ),
            Some(p) => process_client::output_replied(client, arguments) == Ok::<_, Seq<char>>(
                "# Process "@ + id + (if p.running {
                    " (running)\n\n"@
                } else {
                    " (exited)\n\n"@
                }) + process_client::recent(p.output_lines) + "\n\n---\n"@ + text::decimal_text(
                    p.output_lines.len(),
                ) + " lines total"@,
            ),
        },
{
    if let Some(p) = process::process_of(client.processes@, id) {
        reveal_strlit(" (running)\n\n");
        reveal_strlit(" (exited)\n\n");
        reveal_strlit(" (");
        reveal_strlit("running");
        reveal_strlit("exited");
        reveal_strlit(")\n\n");
        let word = if p.running {
            "running"@
        } else {
            "exited"@
        };
        let mid = if p.running {
            " (running)\n\n"@
        } else {
            " (exited)\n\n"@
        };
        assert(" ("@ + word + ")\n\n"@ =~= mid);
        let end = process_client::recent(p.output_lines) + "\n\n---\n"@ + text::decimal_text(
            p.output_lines.len(),
        ) + " lines total"@;
        assert(process_client::output_reply(id, p) =~= "# Process "@ + id + (" ("@ + word
            + ")\n\n"@) + end);
        assert("# Process "@ + id + mid + process_client::recent(p.output_lines) + "\n\n---\n"@
            + text::decimal_text(p.output_lines.len()) + " lines total"@ =~= "# Process "@ + id
            + mid + end);
    }
}

/// A call that names no process is refused.
pub proof fn jobs_are_named(client: ProcessClient, arguments: Option<JsonObject>)
    requires
        forall|id: Seq<char>| !#[trigger] gives(arguments, "process_id"@, id),
    ensures
        ({
            let complaint = if arguments is None {
                "Missing arguments"@
            } else {
                "Missing 'process_id' argument"@
            };
            &&& process_client::output_replied(client, arguments) == Err::<Seq<char>, _>(complaint)
            &&& process_client::line_replied(client, arguments) == Err::<
                (Seq<WriteStepView>, Seq<char>),
                _,
            >(complaint)
        }),
{
    if let Some(id) = process_client::text_given(arguments, "process_id"@) {
        assert(gives(arguments, "process_id"@, id));
    }
}

// ── Input ─────────────────────────────────────────────────────────────

/// A line is written to a process exactly if the process is there and can be
/// written to: the input, then the end of the line, then it is flushed. The
/// reply names the process and ends with the input.
pub proof fn line_reaches_the_process(
    client: ProcessClient,
    arguments: Option<JsonObject>,
    id: Seq<char>,
    input: Seq<char>,
)
    requires
        gives(arguments, "process_id"@, id),
        gives(arguments, "input"@, input),
    ensures
        match process::process_of(client.processes@, id) {
            None => process_client::line_replied(client, arguments) == Err::<
                (Seq<WriteStepView>, Seq<char>),
                _,
            >("Process '"@ + id + "' not found"@),
            Some(p) => if p.stdin_open {
                process_client::line_replied(client, arguments) matches Ok((steps, reply)) && {
                    &&& steps.len() == 3
                    &&& steps[0].action == WriteActionView::Write(encode_utf8(input))
                    &&& steps[1].action == WriteActionView::Write(seq![10u8])
                    &&& steps[2].action == WriteActionView::Flush
                    &&& steps[0].failure == "Failed to write to stdin: "@
                    &&& steps[1].failure == "Failed to write newline: "@
                    &&& steps[2].failure == "Failed to flush stdin: "@
                    &&& reply == "Wrote to "@ + id + ": "@ + input
                }
            } else {
                process_client::line_replied(client, arguments) == Err::<
                    (Seq<WriteStepView>, Seq<char>),
                    _,
                >("Process stdin not available (already closed)"@)
            },
        },
{
}

/// A line without its text is refused.
pub proof fn lines_need_input(client: ProcessClient, arguments: Option<JsonObject>)
    requires
        forall|input: Seq<char>| !#[trigger] gives(arguments, "input"@, input),
    ensures
        process_client::line_replied(client, arguments) is Err,
{
    if let Some(input) = process_client::text_given(arguments, "input"@) {
        assert(gives(arguments, "input"@, input));
    }
}

// ── Stopping ──────────────────────────────────────────────────────────

/// Stopping a job takes its process, if it has one, which is to be killed; a
/// job without one is canceled, and named in the reply; any other identifier is
/// refused. No other process and no other job changes. A call without an
/// identifier does nothing.
pub proof fn stopping_kills_or_cancels(
    before: ProcessClient,
    registry: JobRegistry,
    arguments: Option<JsonObject>,
    r: Result<StopPlan, String>,
    after: ProcessClient,
    registry_after: JobRegistry,
    id: Seq<char>,
)
    requires
        process_client::stop_handled(before, registry, arguments, r, after, registry_after),
        process::entries_distinct(before.processes@),
    ensures
        after.next_id == before.next_id,
        (forall|name: Seq<char>| !#[trigger] gives(arguments, "process_id"@, name)) ==> r is Err
            && after.processes@ == before.processes@ && registry_after@ == registry@,
        gives(arguments, "process_id"@, id) ==> {
            &&& process::process_of(after.processes@, id) is None
            &&& forall|other: Seq<char>|
                other != id ==> #[trigger] process::process_of(after.processes@, other)
                    == process::process_of(before.processes@, other)
            &&& if process::process_of(before.processes@, id) is Some {
                (r matches Ok(StopPlan::Kill { id: named }) && named@ == id) && registry_after@
                    == registry@
            } else if registry@.get(id) is Some {
                &&& r matches Ok(StopPlan::Canceled { reply }) && reply@ == "Job "@ + id
                    + " canceled."@
                &&& registry.shows(registry_after.latest())
                &&& registry_after@ == registry@.transitioned(
                    id,
                    JobState::Canceled,
                    Some("canceled"@),
                    registry_after.latest(),
                )
            } else {
                (r matches Err(e) && e@ == "Job '"@ + id + "' not found"@) && registry_after@ == registry@
            }
        },
{
    if let Some(name) = process_client::text_given(arguments, "process_id"@) {
        assert(gives(arguments, "process_id"@, name));
        process::removed_process_is_gone(before.processes@, name);
    }
}

/// The reply once a process was killed names it and ends with its exit code, or
/// with the word for none.
pub proof fn killed_job_is_named(id: Seq<char>, code: Option<i32>)
    ensures
        process_client::stop_reply(id, code) == "Process "@ + id + " stopped. Exit code: "@ + (
        match code {
            Some(n) => "Some("@ + text::signed_text(n as int) + ")"@,
            None => "None"@,
        }),
{
}

/// A process that ends with the code 0 completes its job without a summary.
/// Every other end fails it, with the code in the summary, or -1 where there is
/// none. A job that is over, or not there, stays as it is.
pub proof fn exit_code_decides_the_job(
    registry: RegistryView,
    id: Seq<char>,
    code: Option<i32>,
    now: Moment,
)
    requires
        registry.keys_distinct(),
    ensures
        ({
            let next = process_client::settled(registry, id, code, now);
            match registry.get(id) {
                None => next == registry,
                Some(t) => if job_registry_laws::has_ended(t) {
                    next == registry
                } else {
                    &&& job_registry_laws::only_differs_in(registry, next, id)
                    &&& next.get(id) matches Some(u) && match code {
                        Some(0i32) => u.state == JobState::Completed && u.result_summary is None,
                        Some(n) => u.state == JobState::Failed && u.result_summary == Some(
                            "exit code: "@ + text::signed_text(n as int),
                        ),
                        None => u.state == JobState::Failed && u.result_summary == Some(
                            "exit code: "@ + text::signed_text(-1),
                        ),
                    }
                },
            }
        }),
{
    let summary = "exit code: "@ + text::signed_text(
        match code {
            Some(n) => n as int,
            None => -1,
        },
    );
    job_registry_laws::transition_moves_one_job(registry, id, JobState::Completed, None, now);
    job_registry_laws::transition_moves_one_job(
        registry,
        id,
        JobState::Failed,
        Some(summary),
        now,
    );
}

// ── Reminders ─────────────────────────────────────────────────────────

/// A reminder is set for the delay that was read, with its message, under the
/// identifier of its number; the reply shows the message, the delay and the
/// identifier. A delay that cannot be read is shown in the refusal, with what
/// is wrong with it.
pub proof fn reminder_is_set_as_asked(
    number: u32,
    delay: Seq<char>,
    message: Seq<char>,
    secs: u64,
    nanos: u32,
    wrong: Seq<char>,
)
    ensures
        process_client::reminder_set(number, delay, message, Ok((secs, nanos))) matches Ok(plan)
            && {
            &&& plan.id == "timer_"@ + text::decimal_text(number as nat)
            &&& plan.delay.nanos == secs * 1_000_000_000 + nanos
            &&& plan.message == message
            &&& plan.reply == "Reminder scheduled: "@ + message + " (fires in "@
                + outside::humantime_text(secs, nanos) + "). Job ID: "@ + plan.id
        },
        process_client::reminder_set(number, delay, message, Err(wrong)) == Err::<
            ReminderPlanView,
            _,
        >("Invalid delay '"@ + delay + "': "@ + wrong),
{
}

/// A reminder that is set is registered as a working job with its message, and
/// fires after its delay; nothing is told yet.
pub proof fn set_reminder_is_registered(
    registry: RegistryView,
    plan: ReminderPlanView,
    wrong: Seq<char>,
    now: Moment,
)
    requires
        registry.keys_distinct(),
    ensures
        process_client::after_reminder(registry, Err(wrong), now) == registry,
        ({
            let next = process_client::after_reminder(registry, Ok(plan), now);
            &&& next.events == registry.events
            &&& forall|other: Seq<char>|
                other != plan.id ==> #[trigger] next.get(other) == registry.get(other)
            &&& next.get(plan.id) matches Some(j) && {
                &&& j.id == plan.id
                &&& j.source == JobSource::Timer
                &&& j.description == plan.message
                &&& j.state == JobState::Working
                &&& j.meta.deadline == Some(now.after(plan.delay))
                &&& j.created_at == now
            }
        }),
{
    let job = process_client::fresh_job(
        plan.id,
        JobSource::Timer,
        plan.message,
        Some(now.after(plan.delay)),
        now,
    );
    jobs::registered_is_found(registry, job);
}

/// A call of `schedule_reminder` sets the reminder that it asks for, if its
/// delay can be read and an identifier is left; the identifier is then used up.
/// A delay that is too long to be read here is handed on. In any other case
/// nothing changes.
pub proof fn reminder_call_is_decided_by_its_arguments(
    before: ProcessClient,
    registry: JobRegistry,
    arguments: Option<JsonObject>,
    r: Result<ReminderOutcome, String>,
    after: ProcessClient,
    registry_after: JobRegistry,
    delay: Seq<char>,
    message: Seq<char>,
)
    requires
        process_client::reminder_handled(before, registry, arguments, r, after, registry_after),
    ensures
        after.processes == before.processes,
        (forall|t: Seq<char>| !#[trigger] gives(arguments, "delay"@, t)) || (forall|t: Seq<char>|
            !#[trigger] gives(arguments, "message"@, t)) ==> r is Err && after.next_id
            == before.next_id && registry_after@ == registry@,
        gives(arguments, "delay"@, delay) && gives(arguments, "message"@, message) ==> {
            if !outside::in_range(delay) {
                &&& r matches Ok(ReminderOutcome::Unread { delay: d, message: m }) && d@ == delay
                    && m@ == message
                &&& after.next_id == before.next_id
                &&& registry_after@ == registry@
            } else {
                match outside::humantime_read(delay) {
                    Err(wrong) => {
                        &&& r matches Err(e) && e@ == "Invalid delay '"@ + delay + "': "@ + wrong
                        &&& after.next_id == before.next_id
                        &&& registry_after@ == registry@
                    },
                    Ok((secs, nanos)) => if before.next_id == u32::MAX {
                        &&& r matches Ok(ReminderOutcome::NoMoreIds)
                        &&& after.next_id == before.next_id
                        &&& registry_after@ == registry@
                    } else {
                        &&& after.next_id == before.next_id + 1
                        &&& registry.shows(registry_after.latest())
                        &&& r matches Ok(ReminderOutcome::Scheduled(plan)) && {
                            &&& plan.id@ == "timer_"@ + text::decimal_text(before.next_id as nat)
                            &&& plan.delay.nanos == secs * 1_000_000_000 + nanos
                            &&& plan.message@ == message
                            &&& registry_after@ == process_client::after_reminder(
                                registry@,
                                Ok(plan@),
                                registry_after.latest(),
                            )
                        }
                    },
                }
            }
        },
{
    if let Some(t) = process_client::text_given(arguments, "delay"@) {
        assert(gives(arguments, "delay"@, t));
    }
    if let Some(t) = process_client::text_given(arguments, "message"@) {
        assert(gives(arguments, "message"@, t));
    }
}

// ── Listing ───────────────────────────────────────────────────────────

/// How a job that comes from somewhere is called.
pub open spec fn word_of_job(source: JobSource) -> Seq<char> {
    match source {
        JobSource::Timer => "timer"@,
        JobSource::Process => "process"@,
        JobSource::Subagent => "subagent"@,
        JobSource::McpResource => "job"@,
        JobSource::McpTool => "job"@,
        JobSource::SwarmAgent => "job"@,
    }
}

/// The line of a working job names it, its source and its description, and
/// tells the time to its deadline, if it has one that lies ahead.
pub proof fn line_shows_the_job(working: Seq<JobView>, i: int, now: Moment)
    requires
        0 <= i < working.len(),
    ensures
        ({
            let j = working[i];
            process_client::job_lines(working, now)[i] == "• "@ + j.id + " ["@ + word_of_job(
                j.source,
            ) + "] "@ + (match j.meta.deadline {
                None => "Working"@,
                Some(deadline) => if now.reached(deadline) {
                    "Working (firing...)"@
                } else {
                    "Working ("@ + outside::humantime_text(
                        deadline.since(now).standard_secs(),
                        deadline.since(now).subsec_nanos(),
                    ) + " remaining)"@
                },
            }) + ": \""@ + j.description + "\""@
        }),
{
}

/// The listing has one line for each job that works, in the order in which
/// they are kept; where none works it says so.
pub proof fn every_working_job_is_listed(registry: RegistryView, now: Moment)
    ensures
        ({
            let working = registry.working();
            let lines = process_client::job_lines(working, now);
            &&& lines.len() == working.len()
            &&& working.len() == 0 ==> process_client::listing(registry, now) == "No active jobs."@
            &&& working.len() > 0 ==> process_client::listing(registry, now) == text::joined(
                lines,
                "\n"@,
            )
            &&& forall|i: int|
                0 <= i < lines.len() ==> showing::shows(
                    process_client::listing(registry, now),
                    #[trigger] lines[i],
                )
        }),
{
    let lines = process_client::job_lines(registry.working(), now);
    assert forall|i: int| 0 <= i < lines.len() implies showing::shows(
        process_client::listing(registry, now),
        #[trigger] lines[i],
    ) by {
        text_laws::joined_shows_its_parts(lines, "\n"@, i);
    }
}

} // verus!
