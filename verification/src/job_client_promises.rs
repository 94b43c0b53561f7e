//! What the operations behind the process tools promise.
use crate::arguments::JsonObject;
use crate::job_process::JobProcessView;
use crate::job_registry_laws;
use crate::jobs;
use crate::jobs::{JobRegistry, JobSource, JobState};
use crate::output::PatternWatch;
use crate::output_laws;
use crate::outside;
use crate::process;
use crate::process::{ChildState, WriteAction, WriteStep};
use crate::process_client;
use crate::process_client::{
    JobPlan, JobStart, OutputStream, ProcessClient, ReminderOutcome, ReminderPlan, StopPlan,
};
use crate::showing;
use crate::start_task;
use crate::text;
use crate::time::Moment;
use vstd::prelude::*;
use vstd::string::*;
use vstd::utf8::*;

verus! {

// ── Starting ──────────────────────────────────────────────────────────

/// A process is planned with its command and its pattern, under the next
/// identifier, as long as there is one.
pub proof fn starting_plans_the_command(
    client: &mut ProcessClient,
    command: Option<String>,
    wait_for: Option<String>,
    r: Result<JobStart, String>,
)
    requires
        call_ensures(ProcessClient::plan_start, (client, command, wait_for), r),
    ensures
        r is Ok <==> command is Some,
        match r {
            Ok(JobStart::Planned(plan)) => {
                &&& plan.id@ == "proc_"@ + text::decimal_text(old(client).next_id as nat)
                &&& plan.command@ == command.unwrap()@
                &&& text::opt_text(plan.wait_for) == text::opt_text(wait_for)
                &&& final(client).next_id == old(client).next_id + 1
            },
            Ok(JobStart::NoMoreIds) => old(client).next_id == u32::MAX && final(client).next_id
                == old(client).next_id,
            Err(_) => final(client).next_id == old(client).next_id,
        },
        final(client).processes == old(client).processes,
{
}

/// A process that was started runs, with no output yet; its job works, described
/// by the command. The reply names both.
pub proof fn started_jobs_are_tracked(
    client: &mut ProcessClient,
    registry: &mut JobRegistry,
    plan: JobPlan,
    now: Moment,
    r: String,
)
    requires
        old(client).wf(),
        old(registry).wf(),
        call_ensures(ProcessClient::process_started_at, (client, registry, plan, now), r),
    ensures
        final(client).next_id == old(client).next_id,
        process::process_of(final(client).processes@, plan.id@) matches Some(p) && {
            &&& p.running
            &&& p.stdin_open
            &&& p.output_lines.len() == 0
            &&& p.description == start_task::abbreviated(plan.command@)
        },
        forall|other: Seq<char>|
            other != plan.id@ ==> #[trigger] process::process_of(final(client).processes@, other)
                == process::process_of(old(client).processes@, other),
        final(registry)@.get(plan.id@) == Some(
            process_client::fresh_job(
                plan.id@,
                JobSource::Process,
                start_task::abbreviated(plan.command@),
                None,
                now,
            ),
        ),
        forall|other: Seq<char>|
            other != plan.id@ ==> #[trigger] final(registry)@.get(other) == old(registry)@.get(
                other,
            ),
        final(registry)@.events == old(registry)@.events,
        ("Process started with handle: "@ + plan.id@ + "\nCommand: "@ + plan.command@
            + "\n"@).is_prefix_of(r@),
{
    let p = JobProcessView::started(start_task::abbreviated(plan.command@));
    process::put_process_is_found(old(client).processes@, plan.id@, p);
    let j = process_client::fresh_job(
        plan.id@,
        JobSource::Process,
        start_task::abbreviated(plan.command@),
        None,
        now,
    );
    jobs::registered_is_found(old(registry)@, j);
    crate::job_client_laws::started_job_is_named(plan.id@, plan.command@);
}

/// A line of output is kept after those before, marked by where it came from;
/// nothing else changes.
pub proof fn output_lines_are_kept(
    client: &mut ProcessClient,
    id: &str,
    stream: OutputStream,
    line: &str,
)
    requires
        old(client).wf(),
        call_ensures(ProcessClient::add_line, (client, id, stream, line), ()),
    ensures
        final(client).next_id == old(client).next_id,
        match process::process_of(old(client).processes@, id@) {
            None => final(client).processes@ == old(client).processes@,
            Some(p) => process::process_of(final(client).processes@, id@) == Some(
                JobProcessView {
                    output_lines: p.output_lines.push(
                        (match stream {
                            OutputStream::Stdout => "[stdout] "@,
                            OutputStream::Stderr => "[stderr] "@,
                        }) + line@,
                    ),
                    ..p
                },
            ),
        },
        forall|other: Seq<char>|
            other != id@ ==> #[trigger] process::process_of(final(client).processes@, other)
                == process::process_of(old(client).processes@, other),
{
    if let Some(p) = process::process_of(old(client).processes@, id@) {
        process::put_process_is_found(
            old(client).processes@,
            id@,
            p.with_line(process_client::marked(stream, line@)),
        );
    }
}

// ── Reading and writing ───────────────────────────────────────────────

/// The output of a process is shown exactly if there is such a process.
pub proof fn output_is_shown(
    client: &ProcessClient,
    id: Option<String>,
    arguments: &Option<JsonObject>,
    r: Result<String, String>,
)
    ensures
        call_ensures(ProcessClient::output_of, (client, id), r) ==> match id {
            None => r is Err,
            Some(name) => match process::process_of(client.processes@, name@) {
                None => r is Err,
                Some(p) => r matches Ok(reply) && reply@ == process_client::output_reply(name@, p),
            },
        },
        call_ensures(ProcessClient::handle_read_output, (client, arguments), r) ==> text::outcome(r)
            == process_client::output_replied(*client, *arguments),
{
}

/// A line is written exactly to a process that is there and can be written to:
/// the input, the end of the line, and then it is flushed.
pub proof fn lines_are_written(
    client: &ProcessClient,
    id: Option<String>,
    input: Option<String>,
    arguments: &Option<JsonObject>,
    r: Result<(Vec<WriteStep>, String), String>,
)
    ensures
        call_ensures(ProcessClient::write_line, (client, id, input), r) ==> {
            &&& r is Ok <==> id is Some && input is Some && (process::process_of(
                client.processes@,
                id.unwrap()@,
            ) matches Some(p) && p.stdin_open)
            &&& r matches Ok((steps, reply)) ==> {
                &&& steps@.len() == 3
                &&& steps@[0].action matches WriteAction::Write(bytes) && bytes@ == encode_utf8(
                    input.unwrap()@,
                )
                &&& steps@[1].action matches WriteAction::Write(bytes) && bytes@ == seq![10u8]
                &&& steps@[2].action is Flush
                &&& reply@ == "Wrote to "@ + id.unwrap()@ + ": "@ + input.unwrap()@
            }
        },
        call_ensures(ProcessClient::handle_write_stdin, (client, arguments), r)
            ==> process_client::written_outcome(r) == process_client::line_replied(
            *client,
            *arguments,
        ),
{
    if call_ensures(ProcessClient::write_line, (client, id, input), r) {
        if let Ok((steps, reply)) = r {
            let seen = process::step_views(steps@);
            assert(seen == process_client::line_steps(encode_utf8(input.unwrap()@)));
            assert(seen.len() == steps@.len());
            assert(seen[0] == steps@[0]@);
            assert(seen[1] == steps@[1]@);
            assert(seen[2] == steps@[2]@);
        }
    }
}

// ── Stopping ──────────────────────────────────────────────────────────

/// A job with a process is to be killed and gives the process up; one without is
/// canceled; any other identifier is refused.
pub proof fn stopping_stops(
    client: &mut ProcessClient,
    registry: &mut JobRegistry,
    id: String,
    now: Moment,
    r: Result<StopPlan, String>,
)
    requires
        old(client).wf(),
        call_ensures(ProcessClient::stop_at, (client, registry, id, now), r),
    ensures
        process::process_of(final(client).processes@, id@) is None,
        if process::process_of(old(client).processes@, id@) is Some {
            (r matches Ok(StopPlan::Kill { id: named }) && named@ == id@) && final(registry)@
                == old(registry)@
        } else if old(registry)@.get(id@) is Some {
            r is Ok && r->Ok_0 is Canceled && final(registry)@ == old(registry)@.canceled(id@, now)
        } else {
            r is Err && final(registry)@ == old(registry)@
        },
{
    process::removed_process_is_gone(old(client).processes@, id@);
}

/// A job whose process was killed is canceled, and the reply tells the exit
/// code.
pub proof fn killed_jobs_are_canceled(
    registry: &mut JobRegistry,
    id: &str,
    code: Option<i32>,
    now: Moment,
    r: String,
)
    requires
        old(registry).wf(),
        call_ensures(process_client::process_stopped_at, (registry, id, code, now), r),
    ensures
        job_registry_laws::moves(
            old(registry)@,
            final(registry)@,
            id@,
            JobState::Canceled,
            Some("canceled"@),
            now,
        ),
        r@ == "Process "@ + id@ + " stopped. Exit code: "@ + (match code {
            Some(n) => "Some("@ + text::signed_text(n as int) + ")"@,
            None => "None"@,
        }),
{
    job_registry_laws::transition_moves_one_job(
        old(registry)@,
        id@,
        JobState::Canceled,
        Some("canceled"@),
        now,
    );
}

/// The calls of `start_process`, `stop_process` and `schedule_reminder` are
/// decided as their arguments say.
pub proof fn job_calls_are_decided(
    client: &mut ProcessClient,
    registry: &mut JobRegistry,
    arguments: &Option<JsonObject>,
    start: Result<JobStart, String>,
    stop: Result<StopPlan, String>,
    reminder: Result<ReminderOutcome, String>,
)
    ensures
        call_ensures(ProcessClient::handle_start, (client, arguments), start)
            ==> process_client::start_handled(*old(client), *arguments, start, *final(client)),
        call_ensures(ProcessClient::handle_stop, (client, registry, arguments), stop)
            ==> process_client::stop_handled(
            *old(client),
            *old(registry),
            *arguments,
            stop,
            *final(client),
            *final(registry),
        ),
        call_ensures(
            ProcessClient::handle_schedule_reminder,
            (client, registry, arguments),
            reminder,
        ) ==> process_client::reminder_handled(
            *old(client),
            *old(registry),
            *arguments,
            reminder,
            *final(client),
            *final(registry),
        ),
{
}

/// A job is settled once its process has ended, by its exit code; while the
/// process runs it is looked at again, and where it is no longer kept the job is
/// left as it is.
pub proof fn job_settling_follows_the_process(
    registry: &mut JobRegistry,
    id: &str,
    child: ChildState,
    now: Moment,
    again: bool,
)
    requires
        old(registry).wf(),
        call_ensures(process_client::settle_job_step_at, (registry, id, child, now), again),
    ensures
        again <==> child == ChildState::Running,
        match child {
            ChildState::Running => final(registry)@ == old(registry)@,
            ChildState::Gone => final(registry)@ == old(registry)@,
            ChildState::Ended(code) => final(registry)@ == process_client::settled(
                old(registry)@,
                id@,
                code,
                now,
            ),
            ChildState::Unknown => job_registry_laws::moves(
                old(registry)@,
                final(registry)@,
                id@,
                JobState::Failed,
                Some("exit code: "@ + text::signed_text(-1)),
                now,
            ),
        },
{
    job_registry_laws::transition_moves_one_job(
        old(registry)@,
        id@,
        JobState::Failed,
        Some("exit code: "@ + text::signed_text(-1)),
        now,
    );
}

/// The first line that shows the pattern of a watch is told of with the pattern
/// and the line; no other line is.
pub proof fn job_watching_tells_once(
    watch: &mut PatternWatch,
    registry: &mut JobRegistry,
    id: &str,
    line: &str,
    now: Moment,
)
    requires
        call_ensures(process_client::watch_job_line_at, (watch, registry, id, line, now), ()),
    ensures
        final(watch)@ == old(watch)@.after(line@),
        if !old(watch).fired && (old(watch).pattern matches Some(p) && showing::shows(line@, p@)) {
            final(registry)@ == old(registry)@.matched(
                id@,
                old(watch).pattern.unwrap()@,
                line@,
                now,
            )
        } else {
            final(registry)@ == old(registry)@
        },
{
    output_laws::watch_reacts_once(old(watch)@, line@);
}

// ── Reminders ─────────────────────────────────────────────────────────

/// A reminder is set for its delay, with its message, under the next identifier;
/// its job works until then. A delay that could not be read sets none.
pub proof fn reminding_sets_a_reminder(
    client: &mut ProcessClient,
    registry: &mut JobRegistry,
    delay: &str,
    message: String,
    read: Result<(u64, u32), String>,
    now: Moment,
    r: Result<ReminderPlan, String>,
)
    requires
        old(registry).wf(),
        call_ensures(ProcessClient::remind_at, (client, registry, delay, message, read, now), r),
    ensures
        match read {
            Err(wrong) => {
                &&& r matches Err(e) && e@ == "Invalid delay '"@ + delay@ + "': "@ + wrong@
                &&& final(client).next_id == old(client).next_id
                &&& final(registry)@ == old(registry)@
            },
            Ok((secs, nanos)) => {
                &&& final(client).next_id == old(client).next_id + 1
                &&& r matches Ok(plan) && {
                    &&& plan.id@ == "timer_"@ + text::decimal_text(old(client).next_id as nat)
                    &&& plan.delay.nanos == secs * 1_000_000_000 + nanos
                    &&& plan.message@ == message@
                    &&& plan.reply@ == "Reminder scheduled: "@ + message@ + " (fires in "@
                        + outside::humantime_text(secs, nanos) + "). Job ID: "@ + plan.id@
                    &&& final(registry)@.get(plan.id@) matches Some(j) && {
                        &&& j.state == JobState::Working
                        &&& j.source == JobSource::Timer
                        &&& j.description == message@
                        &&& j.meta.deadline == Some(now.after(plan.delay))
                    }
                }
            },
        },
        final(client).processes == old(client).processes,
        final(registry)@.events == old(registry)@.events,
{
    if let Ok(plan) = r {
        crate::job_client_laws::set_reminder_is_registered(old(registry)@, plan@, delay@, now);
    }
}

/// The delay of a reminder is known exactly if it has a message, too, and can be
/// read.
pub proof fn delays_are_read(arguments: &Option<JsonObject>, r: Option<(u64, u32)>)
    requires
        call_ensures(ProcessClient::reminder_delay, (arguments,), r),
    ensures
        r matches Some(parts) ==> exists|delay: Seq<char>| #[trigger]
            crate::job_client_laws::gives(*arguments, "delay"@, delay) && outside::in_range(delay)
                && outside::humantime_read(delay) == Ok::<_, Seq<char>>(parts),
        forall|delay: Seq<char>, message: Seq<char>|
            #![trigger crate::job_client_laws::gives(*arguments, "delay"@, delay), crate::job_client_laws::gives(*arguments, "message"@, message)]
            crate::job_client_laws::gives(*arguments, "delay"@, delay)
                && crate::job_client_laws::gives(*arguments, "message"@, message)
                && outside::in_range(delay) ==> (match outside::humantime_read(delay) {
                Ok(parts) => r == Some(parts),
                Err(_) => r is None,
            }),
{
    if r is Some {
        let delay = process_client::text_given(*arguments, "delay"@).unwrap();
        assert(crate::job_client_laws::gives(*arguments, "delay"@, delay));
    }
}

// ── Listing ───────────────────────────────────────────────────────────

/// The listing is of the working jobs of the registry.
pub proof fn job_listings_list(
    client: &ProcessClient,
    registry: &JobRegistry,
    now: Moment,
    r: String,
)
    requires
        call_ensures(ProcessClient::list_jobs_at, (client, registry, now), r),
    ensures
        r@ == process_client::listing(registry@, now),
{
}

/// Listing by the clock changes nothing.
pub proof fn listing_jobs_changes_nothing(
    client: &ProcessClient,
    registry: &mut JobRegistry,
    r: String,
)
    requires
        call_ensures(ProcessClient::handle_list_jobs, (client, registry), r),
    ensures
        final(registry)@ == old(registry)@,
        old(registry).shows(final(registry).latest()),
        r@ == process_client::listing(old(registry)@, final(registry).latest()),
{
}

} // verus!
