//! The client behind the process tools, which run their work as jobs.
use crate::arguments;
use crate::arguments::JsonObject;
use crate::job_laws;
use crate::job_laws::Operation;
use crate::job_process::{JobProcess, JobProcessTable, JobProcessView};
use crate::jobs;
use crate::jobs::{
    Job, JobMeta, JobRegistry, JobSource, JobState, JobView, NotifyPolicy, RegistryView,
};
use crate::output::PatternWatch;
use crate::outside;
use crate::process;
use crate::process::{ChildState, WriteAction, WriteActionView, WriteStep, WriteStepView};
use crate::start_task;
use crate::text;
use crate::time::{Moment, Span};
use vstd::prelude::*;
use vstd::string::*;
use vstd::utf8::*;

verus! {

/// What the process tools share.
#[derive(Debug)]
pub struct ProcessClient {
    pub processes: JobProcessTable,
    /// The number that the next job gets.
    pub next_id: u32,
}

/// How many lines of output are shown at most.
pub const TAIL_COUNT: usize = 50;

/// A process to be started.
#[derive(Debug)]
pub struct JobPlan {
    pub id: String,
    pub command: String,
    /// What to watch for in the output.
    pub wait_for: Option<String>,
}

#[verifier::ext_equal]
pub struct JobPlanView {
    pub id: Seq<char>,
    pub command: Seq<char>,
    pub wait_for: Option<Seq<char>>,
}

impl View for JobPlan {
    type V = JobPlanView;

    open spec fn view(&self) -> JobPlanView {
        JobPlanView {
            id: self.id@,
            command: self.command@,
            wait_for: text::opt_text(self.wait_for),
        }
    }
}

/// Where a line of output came from.
#[derive(Debug, Clone, Copy, PartialEq, Eq, Structural)]
pub enum OutputStream {
    Stdout,
    Stderr,
}

/// What stopping a job comes to.
#[derive(Debug)]
pub enum StopPlan {
    /// The process of the job is to be killed.
    Kill { id: String },
    /// The job, which has no process, is canceled.
    Canceled { reply: String },
}

#[verifier::ext_equal]
pub enum StopPlanView {
    Kill { id: Seq<char> },
    Canceled { reply: Seq<char> },
}

impl View for StopPlan {
    type V = StopPlanView;

    open spec fn view(&self) -> StopPlanView {
        match *self {
            StopPlan::Kill { id } => StopPlanView::Kill { id: id@ },
            StopPlan::Canceled { reply } => StopPlanView::Canceled { reply: reply@ },
        }
    }
}

/// A reminder that was set.
#[derive(Debug)]
pub struct ReminderPlan {
    pub id: String,
    /// When the reminder fires, counted from its start.
    pub delay: Span,
    pub message: String,
    pub reply: String,
}

#[verifier::ext_equal]
pub struct ReminderPlanView {
    pub id: Seq<char>,
    pub delay: Span,
    pub message: Seq<char>,
    pub reply: Seq<char>,
}

impl View for ReminderPlan {
    type V = ReminderPlanView;

    open spec fn view(&self) -> ReminderPlanView {
        ReminderPlanView {
            id: self.id@,
            delay: self.delay,
            message: self.message@,
            reply: self.reply@,
        }
    }
}

/// What starting a process comes to.
#[derive(Debug)]
pub enum JobStart {
    /// This process is to be started.
    Planned(JobPlan),
    /// All identifiers have been given out.
    NoMoreIds,
}

#[verifier::ext_equal]
pub enum JobStartView {
    Planned(JobPlanView),
    NoMoreIds,
}

impl View for JobStart {
    type V = JobStartView;

    open spec fn view(&self) -> JobStartView {
        match *self {
            JobStart::Planned(plan) => JobStartView::Planned(plan@),
            JobStart::NoMoreIds => JobStartView::NoMoreIds,
        }
    }
}

/// What a call of `schedule_reminder` comes to.
#[derive(Debug)]
pub enum ReminderOutcome {
    /// This reminder is set.
    Scheduled(ReminderPlan),
    /// All identifiers have been given out.
    NoMoreIds,
    /// The delay may add up to more seconds than 64 bits hold, and was not read
    /// here. Once it is read, [`ProcessClient::remind_at`] goes on.
    Unread { delay: String, message: String },
}

// ── Model ─────────────────────────────────────────────────────────────

/// The identifier of the process with a number.
pub open spec fn process_id(number: u32) -> Seq<char> {
    "proc_"@ + text::decimal_text(number as nat)
}

/// The identifier of the reminder with a number.
pub open spec fn timer_id(number: u32) -> Seq<char> {
    "timer_"@ + text::decimal_text(number as nat)
}

/// What starting a process comes to, if its identifier gets this number. The
/// last number is never given out.
pub open spec fn start_planned(
    number: u32,
    command: Option<Seq<char>>,
    wait_for: Option<Seq<char>>,
) -> Result<JobStartView, Seq<char>> {
    match command {
        None => Err("Missing 'command' argument"@),
        Some(command) => if number == u32::MAX {
            Ok(JobStartView::NoMoreIds)
        } else {
            Ok(
                JobStartView::Planned(
                    JobPlanView { id: process_id(number), command, wait_for },
                ),
            )
        },
    }
}

/// A plan or a complaint, as texts.
pub open spec fn job_outcome(r: Result<JobStart, String>) -> Result<JobStartView, Seq<char>> {
    match r {
        Ok(start) => Ok(start@),
        Err(e) => Err(e@),
    }
}

/// The number of the next identifier once starting a process came to this.
pub open spec fn number_after(number: u32, start: Result<JobStartView, Seq<char>>) -> int {
    match start {
        Ok(JobStartView::Planned(_)) => number + 1,
        _ => number as int,
    }
}

/// A call of `start_process` was decided on: this is what came of it, and this
/// what became of the client.
pub open spec fn start_handled(
    before: ProcessClient,
    arguments: Option<JsonObject>,
    r: Result<JobStart, String>,
    after: ProcessClient,
) -> bool {
    &&& after.processes == before.processes
    &&& job_outcome(r) == (if arguments is None {
        Err("Missing arguments"@)
    } else {
        start_planned(
            before.next_id,
            text_given(arguments, "command"@),
            text_given(arguments, "wait_for"@),
        )
    })
    &&& after.next_id == number_after(before.next_id, job_outcome(r))
}

/// A job as it is registered.
pub open spec fn fresh_job(
    id: Seq<char>,
    source: JobSource,
    description: Seq<char>,
    deadline: Option<Moment>,
    now: Moment,
) -> JobView {
    JobView {
        id,
        source,
        description,
        state: JobState::Working,
        batch_id: None,
        notify_policy: NotifyPolicy::OnCompletion,
        meta: JobMeta { deadline, ..JobMeta::usual() },
        created_at: now,
        last_activity: now,
        worked_duration: Span::none(),
        notifications: Seq::empty(),
        result_summary: None,
    }
}

/// The reply to the start of a process.
pub open spec fn start_reply(id: Seq<char>, command: Seq<char>) -> Seq<char> {
    "Process started with handle: "@ + id + "\nCommand: "@ + command + "\n\nUse read_output(\""@
        + id + "\") to check output, write_stdin(\""@ + id
        + "\", ...) to send input, stop_process(\""@ + id + "\") to terminate."@
}

/// A line of output, with where it came from.
pub open spec fn marked(stream: OutputStream, line: Seq<char>) -> Seq<char> {
    match stream {
        OutputStream::Stdout => "[stdout] "@ + line,
        OutputStream::Stderr => "[stderr] "@ + line,
    }
}

/// The last lines of the output.
pub open spec fn recent(lines: Seq<Seq<char>>) -> Seq<char> {
    if lines.len() > TAIL_COUNT {
        "("@ + text::decimal_text(lines.len()) + " lines total, showing last "@
            + text::decimal_text(TAIL_COUNT as nat) + ")\n"@ + text::joined(
            lines.skip(lines.len() - TAIL_COUNT),
            "\n"@,
        )
    } else {
        text::joined(lines, "\n"@)
    }
}

/// The reply to `read_output`.
pub open spec fn output_reply(id: Seq<char>, p: JobProcessView) -> Seq<char> {
    "# Process "@ + id + " ("@ + (if p.running {
        "running"@
    } else {
        "exited"@
    }) + ")\n\n"@ + recent(p.output_lines) + "\n\n---\n"@ + text::decimal_text(
        p.output_lines.len(),
    ) + " lines total"@
}

/// The complaint that a process is not there.
pub open spec fn no_process(id: Seq<char>) -> Seq<char> {
    "Process '"@ + id + "' not found"@
}

/// Reading the output of a process.
pub open spec fn output_read(
    table: Seq<(Seq<char>, JobProcessView)>,
    id: Option<Seq<char>>,
) -> Result<Seq<char>, Seq<char>> {
    match id {
        None => Err("Missing 'process_id' argument"@),
        Some(id) => match process::process_of(table, id) {
            None => Err(no_process(id)),
            Some(p) => Ok(output_reply(id, p)),
        },
    }
}

/// The steps that bring a line to a process.
pub open spec fn line_steps(input: Seq<u8>) -> Seq<WriteStepView> {
    seq![
        WriteStepView {
            action: WriteActionView::Write(input),
            failure: "Failed to write to stdin: "@,
        },
        WriteStepView {
            action: WriteActionView::Write(seq![10u8]),
            failure: "Failed to write newline: "@,
        },
        WriteStepView { action: WriteActionView::Flush, failure: "Failed to flush stdin: "@ },
    ]
}

/// Writing to a process: the steps and the reply.
pub open spec fn line_written(
    table: Seq<(Seq<char>, JobProcessView)>,
    id: Option<Seq<char>>,
    input: Option<Seq<char>>,
) -> Result<(Seq<WriteStepView>, Seq<char>), Seq<char>> {
    match (id, input) {
        (None, _) => Err("Missing 'process_id' argument"@),
        (Some(_), None) => Err("Missing 'input' argument"@),
        (Some(id), Some(input)) => match process::process_of(table, id) {
            None => Err(no_process(id)),
            Some(p) => if p.stdin_open {
                Ok((line_steps(encode_utf8(input)), "Wrote to "@ + id + ": "@ + input))
            } else {
                Err("Process stdin not available (already closed)"@)
            },
        },
    }
}

/// Steps and a reply or a complaint, as texts.
pub open spec fn written_outcome(r: Result<(Vec<WriteStep>, String), String>) -> Result<
    (Seq<WriteStepView>, Seq<char>),
    Seq<char>,
> {
    match r {
        Ok((steps, reply)) => Ok((process::step_views(steps@), reply@)),
        Err(e) => Err(e@),
    }
}

/// Stopping a job.
pub open spec fn stopped(
    table: Seq<(Seq<char>, JobProcessView)>,
    registry: RegistryView,
    id: Seq<char>,
) -> Result<StopPlanView, Seq<char>> {
    if process::process_of(table, id) is Some {
        Ok(StopPlanView::Kill { id })
    } else if registry.has(id) {
        Ok(StopPlanView::Canceled { reply: "Job "@ + id + " canceled."@ })
    } else {
        Err("Job '"@ + id + "' not found"@)
    }
}

/// A plan or a complaint, as texts.
pub open spec fn stop_outcome(r: Result<StopPlan, String>) -> Result<StopPlanView, Seq<char>> {
    match r {
        Ok(plan) => Ok(plan@),
        Err(e) => Err(e@),
    }
}

/// The registry once a job without a process was stopped at `now`.
pub open spec fn after_stopping(
    registry: RegistryView,
    plan: Result<StopPlanView, Seq<char>>,
    id: Seq<char>,
    now: Moment,
) -> RegistryView {
    match plan {
        Ok(StopPlanView::Canceled { .. }) => registry.canceled(id, now),
        _ => registry,
    }
}

/// A call of `stop_process` was decided on: this is what came of it, and this
/// what became of the client and the registry.
pub open spec fn stop_handled(
    before: ProcessClient,
    registry: JobRegistry,
    arguments: Option<JsonObject>,
    r: Result<StopPlan, String>,
    after: ProcessClient,
    registry_after: JobRegistry,
) -> bool {
    &&& after.next_id == before.next_id
    &&& match text_given(arguments, "process_id"@) {
        None => {
            &&& after.processes@ == before.processes@
            &&& registry_after@ == registry@
            &&& registry_after.latest() == registry.latest()
            &&& stop_outcome(r) == (if arguments is None {
                Err::<StopPlanView, _>("Missing arguments"@)
            } else {
                Err("Missing 'process_id' argument"@)
            })
        },
        Some(id) => {
            &&& after.processes@ == process::without_process(before.processes@, id)
            &&& stop_outcome(r) == stopped(before.processes@, registry@, id)
            &&& registry.shows(registry_after.latest())
            &&& registry_after@ == after_stopping(
                registry@,
                stop_outcome(r),
                id,
                registry_after.latest(),
            )
        },
    }
}

/// An exit code, if it is known.
pub open spec fn code_text(code: Option<i32>) -> Seq<char> {
    match code {
        Some(n) => "Some("@ + text::signed_text(n as int) + ")"@,
        None => "None"@,
    }
}

/// The reply once a process was killed.
pub open spec fn stop_reply(id: Seq<char>, code: Option<i32>) -> Seq<char> {
    "Process "@ + id + " stopped. Exit code: "@ + code_text(code)
}

/// Setting a reminder, once its delay was read.
pub open spec fn reminder_set(
    number: u32,
    delay: Seq<char>,
    message: Seq<char>,
    read: Result<(u64, u32), Seq<char>>,
) -> Result<ReminderPlanView, Seq<char>> {
    match read {
        Err(e) => Err("Invalid delay '"@ + delay + "': "@ + e),
        Ok((secs, nanos)) => Ok(
            ReminderPlanView {
                id: timer_id(number),
                delay: Span::of(secs, nanos),
                message,
                reply: "Reminder scheduled: "@ + message + " (fires in "@
                    + outside::humantime_text(secs, nanos) + "). Job ID: "@ + timer_id(number),
            },
        ),
    }
}

/// The registry once a reminder was set at `now`.
pub open spec fn after_reminder(
    registry: RegistryView,
    plan: Result<ReminderPlanView, Seq<char>>,
    now: Moment,
) -> RegistryView {
    match plan {
        Ok(p) => registry.registered(
            fresh_job(p.id, JobSource::Timer, p.message, Some(now.after(p.delay)), now),
        ),
        Err(_) => registry,
    }
}

/// A call of `schedule_reminder` was decided on: this is what came of it, and
/// this what became of the client and the registry. A reminder is set if the
/// delay can be read and there is an identifier for it.
pub open spec fn reminder_handled(
    before: ProcessClient,
    registry: JobRegistry,
    arguments: Option<JsonObject>,
    r: Result<ReminderOutcome, String>,
    after: ProcessClient,
    registry_after: JobRegistry,
) -> bool {
    let delay = text_given(arguments, "delay"@);
    let message = text_given(arguments, "message"@);
    let kept = after.next_id == before.next_id && registry_after@ == registry@
        && registry_after.latest() == registry.latest();
    &&& after.processes == before.processes
    &&& if delay is None || message is None || !outside::in_range(delay.unwrap()) {
        &&& kept
        &&& match r {
            Err(e) => e@ == (if arguments is None {
                "Missing arguments"@
            } else if delay is None {
                "Missing 'delay' argument"@
            } else {
                "Missing 'message' argument"@
            }) && (delay is None || message is None),
            Ok(ReminderOutcome::Unread { delay: d, message: m }) => delay == Some(d@) && message
                == Some(m@),
            Ok(_) => false,
        }
    } else {
        let plan = reminder_set(
            before.next_id,
            delay.unwrap(),
            message.unwrap(),
            outside::humantime_read(delay.unwrap()),
        );
        if plan is Ok && before.next_id == u32::MAX {
            &&& kept
            &&& r matches Ok(ReminderOutcome::NoMoreIds)
        } else {
            &&& after.next_id == before.next_id + (if r is Ok {
                1int
            } else {
                0
            })
            &&& match r {
                Err(e) => plan == Err::<ReminderPlanView, _>(e@),
                Ok(ReminderOutcome::Scheduled(p)) => plan == Ok::<_, Seq<char>>(p@),
                Ok(_) => false,
            }
            &&& registry.shows(registry_after.latest())
            &&& registry_after@ == after_reminder(registry@, plan, registry_after.latest())
        }
    }
}

/// The delay of the reminder that is asked for, if it can be read.
pub open spec fn delay_asked(arguments: Option<JsonObject>) -> Option<(u64, u32)> {
    match (text_given(arguments, "delay"@), text_given(arguments, "message"@)) {
        (Some(delay), Some(_)) => if outside::in_range(delay) {
            match outside::humantime_read(delay) {
                Ok(parts) => Some(parts),
                Err(_) => None,
            }
        } else {
            None
        },
        _ => None,
    }
}

/// A plan or a complaint, as texts.
pub open spec fn reminder_outcome(r: Result<ReminderPlan, String>) -> Result<
    ReminderPlanView,
    Seq<char>,
> {
    match r {
        Ok(plan) => Ok(plan@),
        Err(e) => Err(e@),
    }
}

/// What was read of a delay, or what is wrong with it, as texts.
pub open spec fn read_view(r: Result<(u64, u32), String>) -> Result<(u64, u32), Seq<char>> {
    match r {
        Ok(parts) => Ok(parts),
        Err(e) => Err(e@),
    }
}

/// What a job is called by its source.
pub open spec fn source_word(source: JobSource) -> Seq<char> {
    match source {
        JobSource::Timer => "timer"@,
        JobSource::Process => "process"@,
        JobSource::Subagent => "subagent"@,
        _ => "job"@,
    }
}

/// How far a working job is. `left` is the time to its deadline, in words.
pub open spec fn progress(j: JobView, left: Seq<char>, now: Moment) -> Seq<char> {
    match j.meta.deadline {
        None => "Working"@,
        Some(deadline) => if now.reached(deadline) {
            "Working (firing...)"@
        } else {
            "Working ("@ + left + " remaining)"@
        },
    }
}

/// The time to the deadline of a job, in words.
pub open spec fn time_left(j: JobView, now: Moment) -> Seq<char> {
    match j.meta.deadline {
        None => Seq::empty(),
        Some(deadline) => {
            let left = deadline.since(now);
            outside::humantime_text(left.standard_secs(), left.subsec_nanos())
        },
    }
}

/// The line of a working job in a list. `left` is the time to its deadline, in
/// words.
pub open spec fn job_line(j: JobView, left: Seq<char>, now: Moment) -> Seq<char> {
    "• "@ + j.id + " ["@ + source_word(j.source) + "] "@ + progress(j, left, now) + ": \""@
        + j.description + "\""@
}

/// The lines of the working jobs, in their order.
pub open spec fn job_lines(working: Seq<JobView>, now: Moment) -> Seq<Seq<char>> {
    working.map_values(|j: JobView| job_line(j, time_left(j, now), now))
}

/// The reply to `list_jobs` at `now`.
pub open spec fn listing(registry: RegistryView, now: Moment) -> Seq<char> {
    if registry.working().len() == 0 {
        "No active jobs."@
    } else {
        text::joined(job_lines(registry.working(), now), "\n"@)
    }
}

/// The registry once the process of a job ended. Only the exit code 0 is a
/// success: a process that was ended by a signal has no code.
pub open spec fn settled(
    registry: RegistryView,
    id: Seq<char>,
    code: Option<i32>,
    now: Moment,
) -> RegistryView {
    if code == Some(0i32) {
        registry.transitioned(id, JobState::Completed, None, now)
    } else {
        registry.transitioned(
            id,
            JobState::Failed,
            Some(
                "exit code: "@ + text::signed_text(
                    match code {
                        Some(n) => n as int,
                        None => -1,
                    },
                ),
            ),
            now,
        )
    }
}

/// The text under a name in the arguments, if there are arguments.
pub open spec fn text_given(arguments: Option<JsonObject>, key: Seq<char>) -> Option<Seq<char>> {
    match arguments {
        Some(object) => arguments::text_in(arguments::members(object), key),
        None => None,
    }
}

/// The reply to a call of `read_output`.
pub open spec fn output_replied(client: ProcessClient, arguments: Option<JsonObject>) -> Result<
    Seq<char>,
    Seq<char>,
> {
    if arguments is None {
        Err("Missing arguments"@)
    } else {
        output_read(client.processes@, text_given(arguments, "process_id"@))
    }
}

/// The steps and the reply that a call of `write_stdin` comes to.
pub open spec fn line_replied(client: ProcessClient, arguments: Option<JsonObject>) -> Result<
    (Seq<WriteStepView>, Seq<char>),
    Seq<char>,
> {
    if arguments is None {
        Err("Missing arguments"@)
    } else {
        line_written(
            client.processes@,
            text_given(arguments, "process_id"@),
            text_given(arguments, "input"@),
        )
    }
}

// ── Execution ─────────────────────────────────────────────────────────

fn new_job(
    id: String,
    source: JobSource,
    description: String,
    deadline: Option<Moment>,
    now: Moment,
) -> (r: Job)
    ensures
        r@ == fresh_job(id@, source, description@, deadline, now),
{
    let usual = JobMeta::default();
    let r = Job {
        id,
        source,
        description,
        state: JobState::Working,
        batch_id: None,
        notify_policy: NotifyPolicy::OnCompletion,
        meta: JobMeta { deadline, ..usual },
        created_at: now,
        last_activity: now,
        worked_duration: Span::zero(),
        notifications: Vec::new(),
        result_summary: None,
    };
    assert(r@.notifications =~= Seq::empty());
    r
}

fn no_process_text(id: &str) -> (r: String)
    ensures
        r@ == no_process(id@),
{
    "Process '".to_owned().concat(id).concat("' not found")
}

fn recent_text(lines: &Vec<String>) -> (r: String)
    ensures
        r@ == recent(text::texts(lines@)),
{
    if lines.len() > TAIL_COUNT {
        let mut r = "(".to_owned();
        r.append(text::decimal(lines.len() as u64).as_str());
        r.append(" lines total, showing last ");
        r.append(text::decimal(TAIL_COUNT as u64).as_str());
        r.append(")\n");
        let from: usize = lines.len() - TAIL_COUNT;
        r.append(text::join_from(lines, from, "\n").as_str());
        r
    } else {
        text::join(lines, "\n")
    }
}

fn line_steps_of(input: &[u8]) -> (r: Vec<WriteStep>)
    ensures
        process::step_views(r@) == line_steps(input@),
{
    let mut newline: Vec<u8> = Vec::new();
    newline.push(10u8);
    assert(newline@ =~= seq![10u8]);
    let mut r: Vec<WriteStep> = Vec::new();
    r.push(
        WriteStep {
            action: WriteAction::Write(vstd::slice::slice_to_vec(input)),
            failure: "Failed to write to stdin: ",
        },
    );
    r.push(
        WriteStep { action: WriteAction::Write(newline), failure: "Failed to write newline: " },
    );
    r.push(WriteStep { action: WriteAction::Flush, failure: "Failed to flush stdin: " });
    assert(process::step_views(r@) =~= line_steps(input@));
    r
}

fn given(arguments: &Option<JsonObject>, key: &str) -> (r: Option<String>)
    ensures
        text::opt_text(r) == text_given(*arguments, key@),
{
    match arguments {
        Some(object) => arguments::get_text(object, key),
        None => None,
    }
}

fn source_word_text(source: JobSource) -> (r: &'static str)
    ensures
        r@ == source_word(source),
{
    match source {
        JobSource::Timer => "timer",
        JobSource::Process => "process",
        JobSource::Subagent => "subagent",
        _ => "job",
    }
}

/// The line of a working job in a list. `left` is the time to its deadline, in
/// words.
pub fn job_line_text(j: &Job, left: &str, now: Moment) -> (r: String)
    ensures
        r@ == job_line(j@, left@, now),
{
    let mut r = "• ".to_owned();
    r.append(j.id.as_str());
    r.append(" [");
    r.append(source_word_text(j.source));
    r.append("] ");
    let progress = match j.meta.deadline {
        None => "Working".to_owned(),
        Some(deadline) => if now.has_reached(deadline) {
            "Working (firing...)".to_owned()
        } else {
            "Working (".to_owned().concat(left).concat(" remaining)")
        },
    };
    r.append(progress.as_str());
    r.append(": \"");
    r.append(j.description.as_str());
    r.append("\"");
    r
}

fn time_left_text(j: &Job, now: Moment) -> (r: String)
    ensures
        r@ == time_left(j@, now),
{
    match j.meta.deadline {
        None => {
            let nothing = String::new();
            assert(nothing@ =~= Seq::empty());
            nothing
        },
        Some(deadline) => {
            let (secs, nanos) = deadline.duration_since(now).parts();
            outside::write_human(secs, nanos)
        },
    }
}

/// One more than 64 bits hold: what is larger counts as this.
const CAP: u128 = 18_446_744_073_709_551_616;

/// A number, cut off at the cap.
spec fn capped(n: nat) -> nat {
    if n < CAP {
        n
    } else {
        CAP as nat
    }
}

fn cap(n: u128) -> (r: u128)
    ensures
        r == capped(n as nat),
{
    if n < CAP {
        n
    } else {
        CAP
    }
}

fn unit_seconds(cs: &Vec<char>, at: usize) -> (r: u128)
    requires
        at < cs@.len(),
    ensures
        r == outside::unit_bound(cs@.skip(at as int)),
        1 <= r <= 31_557_600,
{
    let c: char = cs[at];
    let followed = at < cs.len() - 1;
    assert(followed ==> cs@.skip(at as int)[1] == cs@[at + 1]);
    if c == 'y' {
        31_557_600
    } else if c == 'M' || (c == 'm' && followed && cs[at + 1] == 'o') {
        2_630_016
    } else if c == 'w' {
        604_800
    } else if c == 'd' {
        86_400
    } else if c == 'h' {
        3_600
    } else if c == 'm' && !(followed && cs[at + 1] == 's') {
        60
    } else {
        1
    }
}

proof fn cap_absorbs(n: nat, total: nat, unit: nat)
    requires
        unit >= 1,
    ensures
        capped(capped(total) + capped(n) * unit) == capped(total + n * unit),
        forall|d: nat| #[trigger] capped(capped(n) * 10 + d) == capped(n * 10 + d),
{
    if n >= CAP {
        assert(n * unit >= CAP) by (nonlinear_arith)
            requires
                n >= CAP,
                unit >= 1,
        ;
        assert(CAP * unit >= CAP) by (nonlinear_arith)
            requires
                unit >= 1,
        ;
    }
    assert(n * unit >= 0) by (nonlinear_arith);
}

/// Whether the durations in a text add up to no more seconds than 64 bits
/// hold.
pub fn is_in_range(s: &str) -> (r: bool)
    ensures
        r == outside::in_range(s@),
{
    let cs = text::chars_of(s);
    let mut digits: u128 = 0;
    let mut total: u128 = 0;
    let ghost mut d: nat = 0;
    let ghost mut t: nat = 0;
    let mut i: usize = 0;
    assert(cs@.skip(0) =~= cs@);
    while i < cs.len()
        invariant
            i <= cs@.len(),
            digits == capped(d),
            total == capped(t),
            outside::seconds_bound(cs@, 0, 0) == outside::seconds_bound(cs@.skip(i as int), d, t),
        decreases cs.len() - i,
    {
        let c: char = cs[i];
        proof {
            assert(cs@.skip(i as int)[0] == c);
            assert(cs@.skip(i as int).drop_first() =~= cs@.skip(i + 1));
        }
        if '0' <= c && c <= '9' {
            let value: u128 = (c as u128) - 48;
            proof {
                cap_absorbs(d, t, 1);
                d = d * 10 + (c as u32 - '0' as u32) as nat;
            }
            digits = cap(digits * 10 + value);
        } else if ('a' <= c && c <= 'z') || ('A' <= c && c <= 'Z') || c == 'µ' {
            let unit: u128 = unit_seconds(&cs, i);
            proof {
                cap_absorbs(d, t, unit as nat);
                t = t + d * (unit as nat);
                d = 0;
            }
            assert(digits * unit <= CAP * 31_557_600) by (nonlinear_arith)
                requires
                    digits <= CAP,
                    1 <= unit <= 31_557_600,
            ;
            total = cap(total + digits * unit);
            digits = 0;
        }
        i += 1;
    }
    total < CAP
}

impl ProcessClient {
    /// The invariant of every client.
    pub open spec fn wf(&self) -> bool {
        self.processes.wf()
    }

    pub fn new() -> (r: ProcessClient)
        ensures
            r.wf(),
            r.processes@.len() == 0,
            r.next_id == 1,
    {
        ProcessClient { processes: JobProcessTable::new(), next_id: 1 }
    }

    // ── start_process ─────────────────────────────────────────────────

    /// Decides on starting a process.
    pub fn plan_start(&mut self, command: Option<String>, wait_for: Option<String>) -> (r: Result<
        JobStart,
        String,
    >)
        requires
            old(self).wf(),
        ensures
            final(self).wf(),
            final(self).processes == old(self).processes,
            job_outcome(r) == start_planned(
                old(self).next_id,
                text::opt_text(command),
                text::opt_text(wait_for),
            ),
            final(self).next_id == number_after(old(self).next_id, job_outcome(r)),
    {
        match command {
            None => Err("Missing 'command' argument".to_owned()),
            Some(command) => {
                let number: u32 = self.next_id;
                if number == u32::MAX {
                    return Ok(JobStart::NoMoreIds);
                }
                let id = "proc_".to_owned().concat(text::decimal(number as u64).as_str());
                self.next_id = number + 1;
                Ok(JobStart::Planned(JobPlan { id, command, wait_for }))
            },
        }
    }

    /// Decides on a call of `start_process`.
    pub fn handle_start(&mut self, arguments: &Option<JsonObject>) -> (r: Result<JobStart, String>)
        requires
            old(self).wf(),
        ensures
            final(self).wf(),
            start_handled(*old(self), *arguments, r, *final(self)),
    {
        if arguments.is_none() {
            return Err("Missing arguments".to_owned());
        }
        self.plan_start(given(arguments, "command"), given(arguments, "wait_for"))
    }

    /// Takes down at `now` that a planned process was started, and gives the
    /// reply.
    pub fn process_started_at(&mut self, registry: &mut JobRegistry, plan: JobPlan, now: Moment)
        -> (r: String)
        requires
            old(self).wf(),
            old(registry).wf(),
        ensures
            final(self).wf(),
            final(self).next_id == old(self).next_id,
            final(self).processes@ == process::with_new_process(
                old(self).processes@,
                plan@.id,
                JobProcessView::started(start_task::abbreviated(plan@.command)),
            ),
            final(registry).wf(),
            final(registry).latest() == old(registry).latest(),
            final(registry)@ == old(registry)@.registered(
                fresh_job(
                    plan@.id,
                    JobSource::Process,
                    start_task::abbreviated(plan@.command),
                    None,
                    now,
                ),
            ),
            r@ == start_reply(plan@.id, plan@.command),
    {
        let description = start_task::abbreviate(plan.command.as_str());
        registry.register(
            new_job(plan.id.clone(), JobSource::Process, description.clone(), None, now),
        );
        let mut reply = "Process started with handle: ".to_owned();
        reply.append(plan.id.as_str());
        reply.append("\nCommand: ");
        reply.append(plan.command.as_str());
        reply.append("\n\nUse read_output(\"");
        reply.append(plan.id.as_str());
        reply.append("\") to check output, write_stdin(\"");
        reply.append(plan.id.as_str());
        reply.append("\", ...) to send input, stop_process(\"");
        reply.append(plan.id.as_str());
        reply.append("\") to terminate.");
        self.processes.insert(plan.id, JobProcess::start(description));
        reply
    }

    /// Takes down a line of output.
    pub fn add_line(&mut self, id: &str, stream: OutputStream, line: &str)
        requires
            old(self).wf(),
        ensures
            final(self).wf(),
            final(self).next_id == old(self).next_id,
            match process::process_of(old(self).processes@, id@) {
                Some(p) => final(self).processes@ == process::with_process(
                    old(self).processes@,
                    id@,
                    p.with_line(marked(stream, line@)),
                ),
                None => final(self).processes@ == old(self).processes@,
            },
    {
        let mark = match stream {
            OutputStream::Stdout => "[stdout] ",
            OutputStream::Stderr => "[stderr] ",
        };
        self.processes.push_line(id, mark.to_owned().concat(line));
    }

    // ── read_output ───────────────────────────────────────────────────

    /// The output of a process.
    pub fn output_of(&self, id: Option<String>) -> (r: Result<String, String>)
        requires
            self.wf(),
        ensures
            text::outcome(r) == output_read(self.processes@, text::opt_text(id)),
    {
        let id = match id {
            Some(id) => id,
            None => {
                return Err("Missing 'process_id' argument".to_owned());
            },
        };
        match self.processes.get(id.as_str()) {
            None => Err(no_process_text(id.as_str())),
            Some(p) => {
                assert(p@.output_lines.len() == p.output_lines@.len());
                let mut r = "# Process ".to_owned();
                r.append(id.as_str());
                r.append(" (");
                if p.running {
                    r.append("running");
                } else {
                    r.append("exited");
                }
                r.append(")\n\n");
                r.append(recent_text(&p.output_lines).as_str());
                r.append("\n\n---\n");
                r.append(text::decimal(p.output_lines.len() as u64).as_str());
                r.append(" lines total");
                Ok(r)
            },
        }
    }

    /// The reply to a call of `read_output`.
    pub fn handle_read_output(&self, arguments: &Option<JsonObject>) -> (r: Result<String, String>)
        requires
            self.wf(),
        ensures
            text::outcome(r) == output_replied(*self, *arguments),
    {
        if arguments.is_none() {
            return Err("Missing arguments".to_owned());
        }
        self.output_of(given(arguments, "process_id"))
    }

    // ── write_stdin ───────────────────────────────────────────────────

    /// Decides on writing to a process.
    pub fn write_line(&self, id: Option<String>, input: Option<String>) -> (r: Result<
        (Vec<WriteStep>, String),
        String,
    >)
        requires
            self.wf(),
        ensures
            written_outcome(r) == line_written(
                self.processes@,
                text::opt_text(id),
                text::opt_text(input),
            ),
    {
        let id = match id {
            Some(id) => id,
            None => {
                return Err("Missing 'process_id' argument".to_owned());
            },
        };
        let input = match input {
            Some(input) => input,
            None => {
                return Err("Missing 'input' argument".to_owned());
            },
        };
        match self.processes.get(id.as_str()) {
            None => Err(no_process_text(id.as_str())),
            Some(p) => {
                if !p.stdin_open {
                    return Err("Process stdin not available (already closed)".to_owned());
                }
                let mut reply = "Wrote to ".to_owned();
                reply.append(id.as_str());
                reply.append(": ");
                reply.append(input.as_str());
                Ok((line_steps_of(input.as_str().as_bytes()), reply))
            },
        }
    }

    /// Decides on a call of `write_stdin`: gives the steps and the reply.
    pub fn handle_write_stdin(&self, arguments: &Option<JsonObject>) -> (r: Result<
        (Vec<WriteStep>, String),
        String,
    >)
        requires
            self.wf(),
        ensures
            written_outcome(r) == line_replied(*self, *arguments),
    {
        if arguments.is_none() {
            return Err("Missing arguments".to_owned());
        }
        self.write_line(given(arguments, "process_id"), given(arguments, "input"))
    }

    // ── stop_process ──────────────────────────────────────────────────

    /// Decides at `now` on stopping a job.
    pub fn stop_at(&mut self, registry: &mut JobRegistry, id: String, now: Moment) -> (r: Result<
        StopPlan,
        String,
    >)
        requires
            old(self).wf(),
            old(registry).wf(),
        ensures
            final(self).wf(),
            final(self).next_id == old(self).next_id,
            final(self).processes@ == process::without_process(old(self).processes@, id@),
            final(registry).wf(),
            final(registry).latest() == old(registry).latest(),
            stop_outcome(r) == stopped(old(self).processes@, old(registry)@, id@),
            final(registry)@ == after_stopping(old(registry)@, stop_outcome(r), id@, now),
    {
        if self.processes.remove(id.as_str()).is_some() {
            return Ok(StopPlan::Kill { id });
        }
        if registry.get(id.as_str()).is_some() {
            registry.cancel_at(id.as_str(), now);
            let reply = "Job ".to_owned().concat(id.as_str()).concat(" canceled.");
            return Ok(StopPlan::Canceled { reply });
        }
        Err("Job '".to_owned().concat(id.as_str()).concat("' not found"))
    }

    /// Decides on a call of `stop_process`.
    pub fn handle_stop(&mut self, registry: &mut JobRegistry, arguments: &Option<JsonObject>) -> (r:
        Result<StopPlan, String>)
        requires
            old(self).wf(),
            old(registry).wf(),
        ensures
            final(self).wf(),
            final(registry).wf(),
            stop_handled(
                *old(self),
                *old(registry),
                *arguments,
                r,
                *final(self),
                *final(registry),
            ),
    {
        match given(arguments, "process_id") {
            None => {
                if arguments.is_none() {
                    Err("Missing arguments".to_owned())
                } else {
                    Err("Missing 'process_id' argument".to_owned())
                }
            },
            Some(id) => {
                let now = registry.tick();
                self.stop_at(registry, id, now)
            },
        }
    }

    // ── schedule_reminder ─────────────────────────────────────────────

    /// Sets a reminder at `now`, once its delay was read as seconds and
    /// nanoseconds, or found to be wrong.
    pub fn remind_at(
        &mut self,
        registry: &mut JobRegistry,
        delay: &str,
        message: String,
        read: Result<(u64, u32), String>,
        now: Moment,
    ) -> (r: Result<ReminderPlan, String>)
        requires
            old(self).wf(),
            old(registry).wf(),
            read matches Ok(parts) ==> parts.1 < 1_000_000_000 && old(self).next_id < u32::MAX,
        ensures
            final(self).wf(),
            final(self).processes == old(self).processes,
            final(self).next_id == old(self).next_id + (if r is Ok {
                1int
            } else {
                0
            }),
            final(registry).wf(),
            final(registry).latest() == old(registry).latest(),
            reminder_outcome(r) == reminder_set(
                old(self).next_id,
                delay@,
                message@,
                read_view(read),
            ),
            final(registry)@ == after_reminder(old(registry)@, reminder_outcome(r), now),
    {
        match read {
            Err(e) => {
                let mut complaint = "Invalid delay '".to_owned();
                complaint.append(delay);
                complaint.append("': ");
                complaint.append(e.as_str());
                Err(complaint)
            },
            Ok((secs, nanos)) => {
                let number: u32 = self.next_id;
                let id = "timer_".to_owned().concat(text::decimal(number as u64).as_str());
                self.next_id = number + 1;
                let span = Span::from_parts(secs, nanos);
                registry.register(
                    new_job(
                        id.clone(),
                        JobSource::Timer,
                        message.clone(),
                        Some(now.plus(span)),
                        now,
                    ),
                );
                let mut reply = "Reminder scheduled: ".to_owned();
                reply.append(message.as_str());
                reply.append(" (fires in ");
                reply.append(outside::write_human(secs, nanos).as_str());
                reply.append("). Job ID: ");
                reply.append(id.as_str());
                Ok(ReminderPlan { id, delay: span, message, reply })
            },
        }
    }

    /// Decides on a call of `schedule_reminder`.
    pub fn handle_schedule_reminder(
        &mut self,
        registry: &mut JobRegistry,
        arguments: &Option<JsonObject>,
    ) -> (r: Result<ReminderOutcome, String>)
        requires
            old(self).wf(),
            old(registry).wf(),
        ensures
            final(self).wf(),
            final(registry).wf(),
            reminder_handled(
                *old(self),
                *old(registry),
                *arguments,
                r,
                *final(self),
                *final(registry),
            ),
    {
        if arguments.is_none() {
            return Err("Missing arguments".to_owned());
        }
        let delay = match given(arguments, "delay") {
            Some(delay) => delay,
            None => {
                return Err("Missing 'delay' argument".to_owned());
            },
        };
        let message = match given(arguments, "message") {
            Some(message) => message,
            None => {
                return Err("Missing 'message' argument".to_owned());
            },
        };
        if !is_in_range(delay.as_str()) {
            return Ok(ReminderOutcome::Unread { delay, message });
        }
        let read = outside::read_human(delay.as_str());
        assert(read_view(read) == outside::humantime_read(delay@));
        if read.is_ok() && self.next_id == u32::MAX {
            return Ok(ReminderOutcome::NoMoreIds);
        }
        let now = registry.tick();
        let planned = self.remind_at(registry, delay.as_str(), message, read, now);
        assert(registry@ == after_reminder(old(registry)@, reminder_outcome(planned), now));
        match planned {
            Ok(plan) => Ok(ReminderOutcome::Scheduled(plan)),
            Err(e) => Err(e),
        }
    }

    /// The delay, in seconds and nanoseconds, of the reminder that a call of
    /// `schedule_reminder` asks for, if it can be read.
    pub fn reminder_delay(arguments: &Option<JsonObject>) -> (r: Option<(u64, u32)>)
        ensures
            r == delay_asked(*arguments),
            r matches Some(parts) ==> parts.1 < 1_000_000_000,
    {
        let delay = match given(arguments, "delay") {
            Some(delay) => delay,
            None => {
                return None;
            },
        };
        if given(arguments, "message").is_none() || !is_in_range(delay.as_str()) {
            return None;
        }
        match outside::read_human(delay.as_str()) {
            Ok(parts) => Some(parts),
            Err(_) => None,
        }
    }

    // ── list_jobs ─────────────────────────────────────────────────────

    /// The reply to a call of `list_jobs` at `now`.
    pub fn list_jobs_at(&self, registry: &JobRegistry, now: Moment) -> (r: String)
        ensures
            r@ == listing(registry@, now),
    {
        let jobs = registry.running();
        let ghost working = registry@.working();
        assert(jobs@.map_values(|t: &Job| t@).len() == jobs@.len());
        if jobs.len() == 0 {
            return "No active jobs.".to_owned();
        }
        let mut lines: Vec<String> = Vec::new();
        let mut i: usize = 0;
        while i < jobs.len()
            invariant
                i <= jobs@.len(),
                jobs@.map_values(|t: &Job| t@) == working,
                jobs@.len() == working.len(),
                lines@.len() == i,
                forall|k: int| 0 <= k < i ==> (#[trigger] lines@[k])@ == job_lines(working, now)[k],
            decreases jobs.len() - i,
        {
            assert(jobs@.map_values(|t: &Job| t@)[i as int] == jobs@[i as int]@);
            let left = time_left_text(jobs[i], now);
            lines.push(job_line_text(jobs[i], left.as_str(), now));
            i += 1;
        }
        assert(text::texts(lines@) =~= job_lines(working, now));
        text::join(&lines, "\n")
    }

    /// The reply to a call of `list_jobs`.
    pub fn handle_list_jobs(&self, registry: &mut JobRegistry) -> (r: String)
        requires
            old(registry).wf(),
        ensures
            final(registry).wf(),
            final(registry)@ == old(registry)@,
            old(registry).shows(final(registry).latest()),
            r@ == listing(old(registry)@, final(registry).latest()),
    {
        let now = registry.tick();
        self.list_jobs_at(registry, now)
    }
}

/// Cancels a job at `now` whose process was killed, and gives the reply.
pub fn process_stopped_at(
    registry: &mut JobRegistry,
    id: &str,
    code: Option<i32>,
    now: Moment,
) -> (r: String)
    requires
        old(registry).wf(),
    ensures
        final(registry).wf(),
        final(registry).latest() == old(registry).latest(),
        final(registry)@ == old(registry)@.canceled(id@, now),
        r@ == stop_reply(id@, code),
{
    registry.cancel_at(id, now);
    let mut reply = "Process ".to_owned();
    reply.append(id);
    reply.append(" stopped. Exit code: ");
    match code {
        Some(n) => {
            let shown = "Some(".to_owned().concat(text::signed_decimal(n).as_str()).concat(")");
            reply.append(shown.as_str());
        },
        None => reply.append("None"),
    }
    reply
}

/// Ends a job at `now` whose process ended.
pub fn settle_job_at(registry: &mut JobRegistry, id: &str, code: Option<i32>, now: Moment)
    requires
        old(registry).wf(),
    ensures
        final(registry).wf(),
        final(registry).latest() == old(registry).latest(),
        final(registry)@ == settled(old(registry)@, id@, code, now),
{
    let n: i32 = match code {
        Some(n) => n,
        None => -1,
    };
    if n == 0 {
        registry.complete_at(id, None, now);
    } else {
        let summary = "exit code: ".to_owned().concat(text::signed_decimal(n).as_str());
        registry.fail_at(id, Some(summary), now);
    }
}

/// Goes on, at `now`, with a job whose process was looked at, and tells whether
/// to look again. While the process runs there is nothing to settle; where it
/// is no longer kept, the job was ended otherwise.
pub fn settle_job_step_at(
    registry: &mut JobRegistry,
    id: &str,
    child: ChildState,
    now: Moment,
) -> (again: bool)
    requires
        old(registry).wf(),
    ensures
        final(registry).wf(),
        final(registry).latest() == old(registry).latest(),
        again == (child is Running),
        final(registry)@ == (match child {
            ChildState::Ended(code) => settled(old(registry)@, id@, code, now),
            ChildState::Unknown => settled(old(registry)@, id@, None, now),
            _ => old(registry)@,
        }),
{
    match child {
        ChildState::Running => true,
        ChildState::Gone => false,
        ChildState::Ended(code) => {
            settle_job_at(registry, id, code, now);
            false
        },
        ChildState::Unknown => {
            settle_job_at(registry, id, None, now);
            false
        },
    }
}

/// Sees a line of a job at `now`, and tells the registry of the pattern.
pub fn watch_job_line_at(
    watch: &mut PatternWatch,
    registry: &mut JobRegistry,
    id: &str,
    line: &str,
    now: Moment,
)
    requires
        old(registry).wf(),
    ensures
        final(registry).wf(),
        final(registry).latest() == old(registry).latest(),
        final(watch)@ == old(watch)@.after(line@),
        final(registry)@ == (if old(watch)@.hit(line@) {
            old(registry)@.matched(id@, old(watch)@.pattern.unwrap(), line@, now)
        } else {
            old(registry)@
        }),
{
    if let Some(found) = watch.observe(line) {
        registry.pattern_matched_at(id, found, line.to_owned(), now);
    }
}

// ── Laws ──────────────────────────────────────────────────────────────

/// A job whose process ended is completed if the exit code was 0, and failed
/// whatever else the process ended with.
pub proof fn only_success_completes(
    registry: RegistryView,
    id: Seq<char>,
    code: Option<i32>,
    now: Moment,
)
    requires
        registry.keys_distinct(),
        registry.get(id) is Some,
        !registry.get(id)->0.state.terminal(),
    ensures
        settled(registry, id, code, now).get(id) is Some,
        settled(registry, id, code, now).get(id)->0.state == (if code == Some(0i32) {
            JobState::Completed
        } else {
            JobState::Failed
        }),
{
    let op = if code == Some(0i32) {
        Operation::Complete { summary: None }
    } else {
        Operation::Fail {
            summary: Some(
                "exit code: "@ + text::signed_text(
                    match code {
                        Some(n) => n as int,
                        None => -1,
                    },
                ),
            ),
        }
    };
    job_laws::lifecycle(registry, id, op, now);
}

/// Different numbers make different identifiers, and no process is called
/// like a reminder.
pub proof fn job_ids_are_distinct(m: u32, n: u32)
    ensures
        process_id(m) == process_id(n) ==> m == n,
        timer_id(m) == timer_id(n) ==> m == n,
        process_id(m) != timer_id(n),
{
    reveal_strlit("proc_");
    reveal_strlit("timer_");
    assert(process_id(m)[0] == 'p');
    assert(timer_id(n)[0] == 't');
    assert(process_id(m).skip(5) =~= text::decimal_text(m as nat));
    assert(process_id(n).skip(5) =~= text::decimal_text(n as nat));
    assert(timer_id(m).skip(6) =~= text::decimal_text(m as nat));
    assert(timer_id(n).skip(6) =~= text::decimal_text(n as nat));
    if text::decimal_text(m as nat) == text::decimal_text(n as nat) {
        text::decimal_is_injective(m as nat, n as nat);
    }
}

/// What reaches a process is the input and the end of a line.
pub proof fn line_arrives_whole(input: Seq<u8>)
    ensures
        process::written(line_steps(input)) == input.push(10u8),
{
    let steps = line_steps(input);
    let two = steps.drop_last();
    let one = two.drop_last();
    assert(one.drop_last() =~= Seq::empty());
    assert(process::written(one.drop_last()) =~= Seq::empty());
    assert(process::written(one) =~= input);
    assert(two.last().action == WriteActionView::Write(seq![10u8]));
    assert(process::written(two) =~= input.push(10u8));
}

/// A reminder that is set and then fires is told of once, with its message.
pub proof fn reminder_is_told(
    registry: RegistryView,
    plan: ReminderPlanView,
    set: Moment,
    fired: Moment,
)
    requires
        registry.keys_distinct(),
    ensures
        ({
            let waiting = after_reminder(registry, Ok(plan), set);
            let over = waiting.transitioned(
                plan.id,
                JobState::Completed,
                Some(plan.message),
                fired,
            );
            &&& waiting.events == registry.events
            &&& over.events.len() == registry.events.len() + 1
            &&& over.events.last() matches jobs::JobEventView::JobCompleted { job } && job.id
                == plan.id && job.description == plan.message
        }),
{
    let waiting = after_reminder(registry, Ok(plan), set);
    let job = fresh_job(plan.id, JobSource::Timer, plan.message, Some(set.after(plan.delay)), set);
    jobs::registered_is_found(registry, job);
    assert(waiting.get(plan.id) == Some(job));
}

} // verus!
