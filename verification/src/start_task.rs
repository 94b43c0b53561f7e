//! Starting tasks: processes and timers.
use crate::arguments;
use crate::arguments::{JsonObject, MemberView};
use crate::duration;
use crate::duration::DurationReading;
use crate::process;
use crate::process::{ChildState, ManagedProcess, ProcessView};
use crate::task_client;
use crate::task_client::{ClientId, TasksClient};
use crate::task_laws;
use crate::task_laws::Operation;
use crate::tasks::{
    NotifyPolicy, OutgoingView, RegistryView, Task, TaskEventView, TaskMeta, TaskRegistry,
    TaskSource, TaskState, TaskView,
};
use crate::text;
use crate::time::{Moment, Span};
use vstd::prelude::*;
use vstd::string::*;
use vstd::utf8::*;

verus! {

// ── Arguments ─────────────────────────────────────────────────────────

/// The arguments of `start_task`, as far as they are of the right type.
#[derive(Debug)]
pub struct StartArguments {
    pub kind: Option<String>,
    pub command: Option<String>,
    pub wait_for: Option<String>,
    pub use_pty: Option<bool>,
    pub timeout_seconds: Option<u64>,
    pub working_dir: Option<String>,
    /// The variables for the process, with the values that are texts.
    pub env: Vec<(String, Option<String>)>,
    pub delay: Option<String>,
    pub message: Option<String>,
}

#[verifier::ext_equal]
pub struct StartArgumentsView {
    pub kind: Option<Seq<char>>,
    pub command: Option<Seq<char>>,
    pub wait_for: Option<Seq<char>>,
    pub use_pty: Option<bool>,
    pub timeout_seconds: Option<u64>,
    pub working_dir: Option<Seq<char>>,
    pub env: Seq<(Seq<char>, Option<Seq<char>>)>,
    pub delay: Option<Seq<char>>,
    pub message: Option<Seq<char>>,
}

impl View for StartArguments {
    type V = StartArgumentsView;

    open spec fn view(&self) -> StartArgumentsView {
        StartArgumentsView {
            kind: text::opt_text(self.kind),
            command: text::opt_text(self.command),
            wait_for: text::opt_text(self.wait_for),
            use_pty: self.use_pty,
            timeout_seconds: self.timeout_seconds,
            working_dir: text::opt_text(self.working_dir),
            env: arguments::rows_view(self.env@),
            delay: text::opt_text(self.delay),
            message: text::opt_text(self.message),
        }
    }
}

impl StartArgumentsView {
    /// What the members of an object say.
    pub open spec fn of(object: Map<Seq<char>, MemberView>) -> StartArgumentsView {
        StartArgumentsView {
            kind: arguments::text_in(object, "kind"@),
            command: arguments::text_in(object, "command"@),
            wait_for: arguments::text_in(object, "wait_for"@),
            use_pty: arguments::flag_in(object, "use_pty"@),
            timeout_seconds: arguments::number_in(object, "timeout_seconds"@),
            working_dir: arguments::text_in(object, "working_dir"@),
            env: match arguments::table_in(object, "env"@) {
                Some(rows) => rows,
                None => Seq::empty(),
            },
            delay: arguments::text_in(object, "delay"@),
            message: arguments::text_in(object, "message"@),
        }
    }
}

impl StartArguments {
    pub fn read(object: &JsonObject) -> (r: StartArguments)
        ensures
            r@ == StartArgumentsView::of(arguments::members(*object)),
    {
        let env = match arguments::get_table(object, "env") {
            Some(rows) => rows,
            None => Vec::new(),
        };
        let r = StartArguments {
            kind: arguments::get_text(object, "kind"),
            command: arguments::get_text(object, "command"),
            wait_for: arguments::get_text(object, "wait_for"),
            use_pty: arguments::get_flag(object, "use_pty"),
            timeout_seconds: arguments::get_number(object, "timeout_seconds"),
            working_dir: arguments::get_text(object, "working_dir"),
            env,
            delay: arguments::get_text(object, "delay"),
            message: arguments::get_text(object, "message"),
        };
        assert(r@.env =~= StartArgumentsView::of(arguments::members(*object)).env);
        r
    }
}

// ── Plans ─────────────────────────────────────────────────────────────

/// A process to be started.
#[derive(Debug)]
pub struct ProcessPlan {
    pub id: String,
    pub command: String,
    /// What to watch for in the output.
    pub wait_for: Option<String>,
    /// The process is killed after this many seconds.
    pub timeout_seconds: Option<u64>,
    pub working_dir: Option<String>,
    pub env: Vec<(String, String)>,
    pub stdout_path: String,
    /// Where the error output goes; a process in a terminal has none.
    pub stderr_path: Option<String>,
}

#[verifier::ext_equal]
pub struct ProcessPlanView {
    pub id: Seq<char>,
    pub command: Seq<char>,
    pub wait_for: Option<Seq<char>>,
    pub timeout_seconds: Option<u64>,
    pub working_dir: Option<Seq<char>>,
    pub env: Seq<(Seq<char>, Seq<char>)>,
    pub stdout_path: Seq<char>,
    pub stderr_path: Option<Seq<char>>,
}

/// The variables as texts.
pub open spec fn env_view(env: Seq<(String, String)>) -> Seq<(Seq<char>, Seq<char>)> {
    env.map_values(|e: (String, String)| (e.0@, e.1@))
}

impl View for ProcessPlan {
    type V = ProcessPlanView;

    open spec fn view(&self) -> ProcessPlanView {
        ProcessPlanView {
            id: self.id@,
            command: self.command@,
            wait_for: text::opt_text(self.wait_for),
            timeout_seconds: self.timeout_seconds,
            working_dir: text::opt_text(self.working_dir),
            env: env_view(self.env@),
            stdout_path: self.stdout_path@,
            stderr_path: text::opt_text(self.stderr_path),
        }
    }
}

/// A timer that was started.
#[derive(Debug)]
pub struct TimerPlan {
    pub id: String,
    /// When the timer fires, counted from its start.
    pub delay: Span,
    /// What the timer reminds of.
    pub message: String,
    pub reply: String,
}

#[verifier::ext_equal]
pub struct TimerPlanView {
    pub id: Seq<char>,
    pub delay: Span,
    pub message: Seq<char>,
    pub reply: Seq<char>,
}

impl View for TimerPlan {
    type V = TimerPlanView;

    open spec fn view(&self) -> TimerPlanView {
        TimerPlanView {
            id: self.id@,
            delay: self.delay,
            message: self.message@,
            reply: self.reply@,
        }
    }
}

/// What a call of `start_task` comes to.
#[derive(Debug)]
pub enum StartPlan {
    /// This process is to be started.
    Process(ProcessPlan),
    /// This timer runs.
    Timer(TimerPlan),
    /// The delay of a timer adds up to more seconds than 64 bits hold.
    DelayTooLong,
}

#[verifier::ext_equal]
pub enum StartPlanView {
    Process(ProcessPlanView),
    Timer(TimerPlanView),
    DelayTooLong,
}

impl View for StartPlan {
    type V = StartPlanView;

    open spec fn view(&self) -> StartPlanView {
        match *self {
            StartPlan::Process(plan) => StartPlanView::Process(plan@),
            StartPlan::Timer(plan) => StartPlanView::Timer(plan@),
            StartPlan::DelayTooLong => StartPlanView::DelayTooLong,
        }
    }
}

/// A plan or a complaint, as texts.
pub open spec fn plan_outcome(r: Result<StartPlan, String>) -> Result<StartPlanView, Seq<char>> {
    match r {
        Ok(plan) => Ok(plan@),
        Err(e) => Err(e@),
    }
}

// ── Model ─────────────────────────────────────────────────────────────

/// Where a client keeps the output of a task.
pub open spec fn stdout_log(client: ClientId, id: Seq<char>) -> Seq<char> {
    task_client::log_dir(client) + "/"@ + id + "_stdout.log"@
}

/// Where a client keeps the error output of a task.
pub open spec fn stderr_log(client: ClientId, id: Seq<char>) -> Seq<char> {
    task_client::log_dir(client) + "/"@ + id + "_stderr.log"@
}

/// The variables whose values are texts.
pub open spec fn settings(rows: Seq<(Seq<char>, Option<Seq<char>>)>) -> Seq<
    (Seq<char>, Seq<char>),
>
    decreases rows.len(),
{
    if rows.len() == 0 {
        Seq::empty()
    } else {
        let front = settings(rows.drop_last());
        match rows.last().1 {
            Some(value) => front.push((rows.last().0, value)),
            None => front,
        }
    }
}

/// A command as a description: its first characters, if it is long.
pub open spec fn abbreviated(command: Seq<char>) -> Seq<char> {
    if encode_utf8(command).len() > 60 {
        command.take(
            if command.len() < 60 {
                command.len() as int
            } else {
                60
            },
        ) + "..."@
    } else {
        command
    }
}

/// A task as it is registered.
pub open spec fn fresh_task(
    id: Seq<char>,
    source: TaskSource,
    description: Seq<char>,
    now: Moment,
) -> TaskView {
    TaskView {
        id,
        source,
        description,
        state: TaskState::Working,
        batch_id: None,
        notify_policy: NotifyPolicy::OnCompletion,
        meta: TaskMeta::usual(),
        created_at: now,
        last_activity: now,
        worked_duration: Span::none(),
        notifications: Seq::empty(),
        status_message: None,
        result: None,
        error: None,
        result_summary: None,
        input_request: None,
        ttl_ms: Some(300_000),
        poll_interval_ms: None,
        cancellation_token: None,
    }
}

/// The description of a timer.
pub open spec fn timer_description(message: Seq<char>, delay: Seq<char>) -> Seq<char> {
    "Timer: "@ + message + " ("@ + delay + ")"@
}

/// The reply to the start of a timer.
pub open spec fn timer_reply(id: Seq<char>, delay: Seq<char>, message: Seq<char>) -> Seq<char> {
    "Task "@ + id + " started (timer)\nReminder set for "@ + delay + ": "@ + message
        + "\n\nThe system will notify you when the timer fires."@
}

/// The reply to the start of a process.
pub open spec fn process_reply(id: Seq<char>, command: Seq<char>, pty: bool) -> Seq<char> {
    "Task "@ + id + (if pty {
        " started (process, PTY mode). TTL: 5 minutes of inactivity before automatic cleanup.\nCommand: "@
    } else {
        " started (process). TTL: 5 minutes of inactivity before automatic cleanup.\nCommand: "@
    }) + command + "\n\nUse send_input(task_id: \""@ + id
        + "\", input: \"...\") to send input, read_output(task_id: \""@ + id
        + "\") to check output, cancel_task(task_id: \""@ + id + "\") to stop."@
}

/// What starting a process comes to.
pub open spec fn process_planned(
    client: ClientId,
    id: Seq<char>,
    a: StartArgumentsView,
) -> Result<
    StartPlanView,
    Seq<char>,
> {
    match a.command {
        None => Err("Missing 'command' argument"@),
        Some(command) => Ok(
            StartPlanView::Process(
                ProcessPlanView {
                    id,
                    command,
                    wait_for: a.wait_for,
                    timeout_seconds: a.timeout_seconds,
                    working_dir: a.working_dir,
                    env: settings(a.env),
                    stdout_path: stdout_log(client, id),
                    stderr_path: if a.use_pty == Some(true) {
                        None
                    } else {
                        Some(stderr_log(client, id))
                    },
                },
            ),
        ),
    }
}

/// What starting a timer comes to.
pub open spec fn timer_planned(id: Seq<char>, a: StartArgumentsView) -> Result<
    StartPlanView,
    Seq<char>,
> {
    match (a.delay, a.message) {
        (None, _) => Err("Missing 'delay' argument (e.g. '30s', '5m', '2h')"@),
        (Some(_), None) => Err("Missing 'message' argument"@),
        (Some(delay), Some(message)) => if duration::duration_reading(delay) is TooLong {
            Ok(StartPlanView::DelayTooLong)
        } else {
            match duration::duration_of(delay) {
                Ok(span) => Ok(
                    StartPlanView::Timer(
                        TimerPlanView {
                            id,
                            delay: span,
                            message,
                            reply: timer_reply(id, delay, message),
                        },
                    ),
                ),
                Err(e) => Err(e),
            }
        },
    }
}

/// What a call of `start_task` to a client comes to, if its next task is called
/// `id`.
pub open spec fn planned(client: ClientId, id: Seq<char>, a: StartArgumentsView) -> Result<
    StartPlanView,
    Seq<char>,
> {
    match a.kind {
        None => Err(
            "Missing 'kind' argument (must be 'process', 'timer', or 'subagent')"@,
        ),
        Some(kind) => if kind == "process"@ {
            process_planned(client, id, a)
        } else if kind == "timer"@ {
            timer_planned(id, a)
        } else if kind == "subagent"@ {
            Err(
                "Subagent tasks should be created via the delegate tool in the summon extension. Use delegate(source: \"...\", instructions: \"...\", async: true) to run a subagent in the background."@,
            )
        } else {
            Err("Unknown task kind '"@ + kind + "'. Must be 'process', 'timer', or 'subagent'."@)
        },
    }
}

/// A plan that has given its identifier to a task.
pub open spec fn takes_an_id(plan: Result<StartPlanView, Seq<char>>) -> bool {
    match plan {
        Ok(StartPlanView::Process(_)) => true,
        Ok(StartPlanView::Timer(_)) => true,
        _ => false,
    }
}

/// The registry once a call of `start_task` was planned at `now`: a timer
/// runs at once.
pub open spec fn after_planning(
    registry: RegistryView,
    plan: Result<StartPlanView, Seq<char>>,
    a: StartArgumentsView,
    now: Moment,
) -> RegistryView {
    match plan {
        Ok(StartPlanView::Timer(t)) => registry.registered(
            fresh_task(
                t.id,
                TaskSource::Timer,
                timer_description(t.message, a.delay.unwrap()),
                now,
            ),
        ),
        _ => registry,
    }
}

/// A call of `start_task` was decided on: this is what came of it, and this
/// what became of the client and the registry.
pub open spec fn start_handled(
    before: TasksClient,
    registry: TaskRegistry,
    arguments: Option<JsonObject>,
    r: Result<StartPlan, String>,
    after: TasksClient,
    registry_after: TaskRegistry,
) -> bool {
    &&& after.processes == before.processes
    &&& after.client == before.client
    &&& match arguments {
        None => {
            &&& plan_outcome(r) == Err::<StartPlanView, Seq<char>>("Missing arguments"@)
            &&& after.next_id == before.next_id
            &&& registry_after@ == registry@
            &&& registry_after.latest() == registry.latest()
        },
        Some(object) => {
            let a = StartArgumentsView::of(arguments::members(object));
            &&& plan_outcome(r) == planned(
                before.client,
                task_client::task_id(before.next_id),
                a,
            )
            &&& after.next_id == (if takes_an_id(plan_outcome(r)) {
                task_client::following(before.next_id)
            } else {
                before.next_id
            })
            &&& registry.shows(registry_after.latest())
            &&& registry_after@ == after_planning(
                registry@,
                plan_outcome(r),
                a,
                registry_after.latest(),
            )
        },
    }
}

/// A process as it is kept once it was started.
pub open spec fn started_process(plan: ProcessPlanView, child_id: Option<u32>) -> ProcessView {
    ProcessView {
        pty: plan.stderr_path is None,
        child_id,
        stdin_open: true,
        stdout_path: plan.stdout_path,
        stderr_path: plan.stderr_path,
        stdout_pos: 0,
        stderr_pos: match plan.stderr_path {
            Some(_) => Some(0),
            None => None,
        },
    }
}

/// The registry once the process of a task ended. Only the exit code 0 is a
/// success: a process that was ended by a signal has no code.
pub open spec fn settled(
    registry: RegistryView,
    id: Seq<char>,
    code: Option<i32>,
    now: Moment,
) -> RegistryView {
    if code == Some(0i32) {
        registry.transitioned(id, TaskState::Completed, None, now)
    } else {
        registry.transitioned(
            id,
            TaskState::Failed,
            Some(
                "exit code: "@ + text::signed_text(
                    match code {
                        Some(n) => n as int,
                        None => -1,
                    },
                ),
            ),
            now,
        )
    }
}

// ── Execution ─────────────────────────────────────────────────────────

fn text_values(rows: &Vec<(String, Option<String>)>) -> (r: Vec<(String, String)>)
    ensures
        env_view(r@) == settings(arguments::rows_view(rows@)),
{
    let mut r: Vec<(String, String)> = Vec::new();
    let ghost all = arguments::rows_view(rows@);
    let mut i: usize = 0;
    assert(env_view(r@) =~= settings(all.take(0)));
    while i < rows.len()
        invariant
            i <= rows@.len(),
            all == arguments::rows_view(rows@),
            env_view(r@) == settings(all.take(i as int)),
        decreases rows.len() - i,
    {
        let ghost before = r@;
        proof {
            assert(all.take(i + 1).drop_last() =~= all.take(i as int));
            assert(all.take(i + 1).last() == all[i as int]);
        }
        if let Some(value) = &rows[i].1 {
            r.push((rows[i].0.clone(), value.clone()));
            assert(env_view(r@) =~= env_view(before).push((rows@[i as int].0@, value@)));
        }
        i += 1;
    }
    assert(all.take(all.len() as int) =~= all);
    r
}

/// A command as a description.
pub fn abbreviate(command: &str) -> (r: String)
    ensures
        r@ == abbreviated(command@),
{
    if command.as_bytes().len() > 60 {
        let cs = text::chars_of(command);
        let upto: usize = if cs.len() < 60 {
            cs.len()
        } else {
            60
        };
        let mut r = text::string_of(&cs, 0, upto);
        r.append("...");
        assert(command@.subrange(0, upto as int) =~= command@.take(upto as int));
        r
    } else {
        command.to_owned()
    }
}

/// A task to be registered.
pub fn new_task(id: String, source: TaskSource, description: String, now: Moment) -> (r: Task)
    ensures
        r@ == fresh_task(id@, source, description@, now),
{
    let r = Task {
        id,
        source,
        description,
        state: TaskState::Working,
        batch_id: None,
        notify_policy: NotifyPolicy::OnCompletion,
        meta: TaskMeta::default(),
        created_at: now,
        last_activity: now,
        worked_duration: Span::zero(),
        notifications: Vec::new(),
        status_message: None,
        result: None,
        error: None,
        result_summary: None,
        input_request: None,
        ttl_ms: Some(300_000),
        poll_interval_ms: None,
        cancellation_token: None,
    };
    assert(r@.notifications =~= Seq::empty());
    r
}

fn process_reply_text(id: &str, command: &str, pty: bool) -> (r: String)
    ensures
        r@ == process_reply(id@, command@, pty),
{
    let mut r = "Task ".to_owned();
    r.append(id);
    if pty {
        r.append(
            " started (process, PTY mode). TTL: 5 minutes of inactivity before automatic cleanup.\nCommand: ",
        );
    } else {
        r.append(
            " started (process). TTL: 5 minutes of inactivity before automatic cleanup.\nCommand: ",
        );
    }
    r.append(command);
    r.append("\n\nUse send_input(task_id: \"");
    r.append(id);
    r.append("\", input: \"...\") to send input, read_output(task_id: \"");
    r.append(id);
    r.append("\") to check output, cancel_task(task_id: \"");
    r.append(id);
    r.append("\") to stop.");
    r
}

impl TasksClient {
    /// Where the client keeps a log of a task.
    fn log_path(&self, id: &str, suffix: &str) -> (r: String)
        ensures
            r@ == task_client::log_dir(self.client) + "/"@ + id@ + suffix@,
    {
        let mut r = self.log_dir();
        r.append("/");
        r.append(id);
        r.append(suffix);
        r
    }

    /// Decides on starting a process.
    pub fn start_process(&mut self, a: StartArguments) -> (r: Result<StartPlan, String>)
        requires
            old(self).wf(),
        ensures
            final(self).processes == old(self).processes,
            final(self).client == old(self).client,
            plan_outcome(r) == process_planned(
                old(self).client,
                task_client::task_id(old(self).next_id),
                a@,
            ),
            final(self).next_id == (if r is Ok {
                task_client::following(old(self).next_id)
            } else {
                old(self).next_id
            }),
    {
        let command = match a.command {
            Some(command) => command,
            None => {
                return Err("Missing 'command' argument".to_owned());
            },
        };
        let use_pty = match a.use_pty {
            Some(flag) => flag,
            None => false,
        };
        let id = self.next_task_id();
        let stdout_path = self.log_path(id.as_str(), "_stdout.log");
        let stderr_path = if use_pty {
            None
        } else {
            Some(self.log_path(id.as_str(), "_stderr.log"))
        };
        let env = text_values(&a.env);
        Ok(
            StartPlan::Process(
                ProcessPlan {
                    id,
                    command,
                    wait_for: a.wait_for,
                    timeout_seconds: a.timeout_seconds,
                    working_dir: a.working_dir,
                    env,
                    stdout_path,
                    stderr_path,
                },
            ),
        )
    }

    fn start_timer(
        &mut self,
        registry: &mut TaskRegistry,
        a: StartArguments,
        now: Moment,
    ) -> (r: Result<StartPlan, String>)
        requires
            old(self).wf(),
            old(registry).wf(),
        ensures
            final(self).processes == old(self).processes,
            final(self).client == old(self).client,
            final(registry).wf(),
            final(registry).latest() == old(registry).latest(),
            plan_outcome(r) == timer_planned(task_client::task_id(old(self).next_id), a@),
            final(self).next_id == (if takes_an_id(plan_outcome(r)) {
                task_client::following(old(self).next_id)
            } else {
                old(self).next_id
            }),
            final(registry)@ == after_planning(old(registry)@, plan_outcome(r), a@, now),
    {
        let delay = match a.delay {
            Some(delay) => delay,
            None => {
                return Err("Missing 'delay' argument (e.g. '30s', '5m', '2h')".to_owned());
            },
        };
        let message = match a.message {
            Some(message) => message,
            None => {
                return Err("Missing 'message' argument".to_owned());
            },
        };
        if let DurationReading::TooLong = duration::examine_duration(delay.as_str()) {
            return Ok(StartPlan::DelayTooLong);
        }
        let span = match duration::parse_duration(delay.as_str()) {
            Ok(span) => span,
            Err(e) => {
                return Err(e);
            },
        };
        let id = self.next_task_id();
        let mut description = "Timer: ".to_owned();
        description.append(message.as_str());
        description.append(" (");
        description.append(delay.as_str());
        description.append(")");
        registry.register(new_task(id.clone(), TaskSource::Timer, description, now));
        let mut reply = "Task ".to_owned();
        reply.append(id.as_str());
        reply.append(" started (timer)\nReminder set for ");
        reply.append(delay.as_str());
        reply.append(": ");
        reply.append(message.as_str());
        reply.append("\n\nThe system will notify you when the timer fires.");
        Ok(StartPlan::Timer(TimerPlan { id, delay: span, message, reply }))
    }

    /// Decides at `now` on a call of `start_task`.
    pub fn plan_start_at(
        &mut self,
        registry: &mut TaskRegistry,
        a: StartArguments,
        now: Moment,
    ) -> (r: Result<StartPlan, String>)
        requires
            old(self).wf(),
            old(registry).wf(),
        ensures
            final(self).wf(),
            final(self).processes == old(self).processes,
            final(self).client == old(self).client,
            final(registry).wf(),
            final(registry).latest() == old(registry).latest(),
            plan_outcome(r) == planned(
                old(self).client,
                task_client::task_id(old(self).next_id),
                a@,
            ),
            final(self).next_id == (if takes_an_id(plan_outcome(r)) {
                task_client::following(old(self).next_id)
            } else {
                old(self).next_id
            }),
            final(registry)@ == after_planning(old(registry)@, plan_outcome(r), a@, now),
    {
        let kind = match &a.kind {
            Some(kind) => kind.clone(),
            None => {
                return Err(
                    "Missing 'kind' argument (must be 'process', 'timer', or 'subagent')".to_owned(),
                );
            },
        };
        if text::same_text(kind.as_str(), "process") {
            self.start_process(a)
        } else if text::same_text(kind.as_str(), "timer") {
            self.start_timer(registry, a, now)
        } else if text::same_text(kind.as_str(), "subagent") {
            Err(
                "Subagent tasks should be created via the delegate tool in the summon extension. Use delegate(source: \"...\", instructions: \"...\", async: true) to run a subagent in the background.".to_owned(),
            )
        } else {
            let mut e = "Unknown task kind '".to_owned();
            e.append(kind.as_str());
            e.append("'. Must be 'process', 'timer', or 'subagent'.");
            Err(e)
        }
    }

    /// Decides on a call of `start_task`.
    pub fn handle_start_task(
        &mut self,
        registry: &mut TaskRegistry,
        arguments: &Option<JsonObject>,
    ) -> (r: Result<StartPlan, String>)
        requires
            old(self).wf(),
            old(registry).wf(),
        ensures
            final(self).wf(),
            final(registry).wf(),
            start_handled(
                *old(self),
                *old(registry),
                *arguments,
                r,
                *final(self),
                *final(registry),
            ),
    {
        match arguments {
            None => Err("Missing arguments".to_owned()),
            Some(object) => {
                let now = registry.tick();
                self.plan_start_at(registry, StartArguments::read(object), now)
            },
        }
    }

    /// Takes down at `now` that a planned process was started, and gives the
    /// reply.
    pub fn process_started_at(
        &mut self,
        registry: &mut TaskRegistry,
        plan: ProcessPlan,
        running: Option<u32>,
        now: Moment,
    ) -> (r: String)
        requires
            old(self).wf(),
            old(registry).wf(),
        ensures
            final(self).wf(),
            final(self).next_id == old(self).next_id,
            final(self).client == old(self).client,
            final(self).processes@ == process::with_new_process(
                old(self).processes@,
                plan@.id,
                started_process(plan@, running),
            ),
            final(registry).wf(),
            final(registry).latest() == old(registry).latest(),
            final(registry)@ == old(registry)@.registered(
                fresh_task(plan@.id, TaskSource::Process, abbreviated(plan@.command), now),
            ),
            r@ == process_reply(plan@.id, plan@.command, plan@.stderr_path is None),
    {
        let pty = plan.stderr_path.is_none();
        let description = abbreviate(plan.command.as_str());
        registry.register(new_task(plan.id.clone(), TaskSource::Process, description, now));
        let reply = process_reply_text(plan.id.as_str(), plan.command.as_str(), pty);
        let stdout_path = plan.stdout_path;
        let started = match plan.stderr_path {
            Some(stderr_path) => ManagedProcess::Pipe {
                child_id: running,
                stdin_open: true,
                stdout_path,
                stderr_path,
                stdout_pos: 0,
                stderr_pos: 0,
            },
            None => ManagedProcess::Pty { child_id: running, stdout_path, stdout_pos: 0 },
        };
        self.processes.insert(plan.id, started);
        reply
    }

    /// Takes down that a planned process was started, and gives the reply.
    pub fn process_started(
        &mut self,
        registry: &mut TaskRegistry,
        plan: ProcessPlan,
        running: Option<u32>,
    ) -> (r: String)
        requires
            old(self).wf(),
            old(registry).wf(),
        ensures
            final(self).wf(),
            final(self).next_id == old(self).next_id,
            final(self).client == old(self).client,
            final(self).processes@ == process::with_new_process(
                old(self).processes@,
                plan@.id,
                started_process(plan@, running),
            ),
            final(registry).wf(),
            old(registry).shows(final(registry).latest()),
            final(registry)@ == old(registry)@.registered(
                fresh_task(
                    plan@.id,
                    TaskSource::Process,
                    abbreviated(plan@.command),
                    final(registry).latest(),
                ),
            ),
            r@ == process_reply(plan@.id, plan@.command, plan@.stderr_path is None),
    {
        let now = registry.tick();
        self.process_started_at(registry, plan, running, now)
    }

    /// Ends a task at `now` whose time is over, and gives the process that is
    /// to be killed, if it is still kept.
    pub fn time_out_at(
        &mut self,
        registry: &mut TaskRegistry,
        id: &str,
        now: Moment,
    ) -> (r: Option<ManagedProcess>)
        requires
            old(self).wf(),
            old(registry).wf(),
        ensures
            final(self).wf(),
            final(self).next_id == old(self).next_id,
            final(self).client == old(self).client,
            final(self).processes@ == process::without_process(old(self).processes@, id@),
            final(registry).wf(),
            final(registry).latest() == old(registry).latest(),
            final(registry)@ == old(registry)@.transitioned(
                id@,
                TaskState::Failed,
                Some("Timed out"@),
                now,
            ),
            match r {
                Some(p) => process::process_of(old(self).processes@, id@) == Some(p@),
                None => process::process_of(old(self).processes@, id@) is None,
            },
    {
        registry.fail_at(id, Some("Timed out".to_owned()), now);
        self.processes.remove(id)
    }
}

/// Ends a task at `now` whose process ended.
pub fn settle_at(registry: &mut TaskRegistry, id: &str, code: Option<i32>, now: Moment)
    requires
        old(registry).wf(),
    ensures
        final(registry).wf(),
        final(registry).latest() == old(registry).latest(),
        final(registry)@ == settled(old(registry)@, id@, code, now),
{
    let n: i32 = match code {
        Some(n) => n,
        None => -1,
    };
    if n == 0 {
        registry.complete_at(id, None, now);
    } else {
        let summary = "exit code: ".to_owned().concat(text::signed_decimal(n).as_str());
        registry.fail_at(id, Some(summary), now);
    }
}

/// Goes on, at `now`, with a task whose process was looked at, and tells whether
/// to look again. While the process runs there is nothing to settle; where it
/// is no longer kept, the task was ended otherwise.
pub fn settle_step_at(
    registry: &mut TaskRegistry,
    id: &str,
    child: ChildState,
    now: Moment,
) -> (again: bool)
    requires
        old(registry).wf(),
    ensures
        final(registry).wf(),
        final(registry).latest() == old(registry).latest(),
        again == (child is Running),
        final(registry)@ == (match child {
            ChildState::Ended(code) => settled(old(registry)@, id@, code, now),
            ChildState::Unknown => settled(old(registry)@, id@, None, now),
            _ => old(registry)@,
        }),
{
    match child {
        ChildState::Running => true,
        ChildState::Gone => false,
        ChildState::Ended(code) => {
            settle_at(registry, id, code, now);
            false
        },
        ChildState::Unknown => {
            settle_at(registry, id, None, now);
            false
        },
    }
}

// ── Laws ──────────────────────────────────────────────────────────────

/// A task whose process ended is completed if the exit code was 0, and failed
/// whatever else the process ended with.
pub proof fn only_success_completes(
    registry: RegistryView,
    id: Seq<char>,
    code: Option<i32>,
    now: Moment,
)
    requires
        registry.keys_distinct(),
        registry.get(id) is Some,
        !registry.get(id)->0.state.terminal(),
    ensures
        settled(registry, id, code, now).get(id) is Some,
        settled(registry, id, code, now).get(id)->0.state == (if code == Some(0i32) {
            TaskState::Completed
        } else {
            TaskState::Failed
        }),
{
    let op = if code == Some(0i32) {
        Operation::Complete { summary: None }
    } else {
        Operation::Fail {
            summary: Some(
                "exit code: "@ + text::signed_text(
                    match code {
                        Some(n) => n as int,
                        None => -1,
                    },
                ),
            ),
        }
    };
    task_laws::lifecycle(registry, id, op, now);
}

/// The directories of different clients are told apart by what stands before
/// the next slash.
proof fn log_dirs_are_distinct(c: ClientId, a: Seq<char>, d: ClientId, b: Seq<char>)
    requires
        task_client::log_dir(c) + "/"@ + a == task_client::log_dir(d) + "/"@ + b,
    ensures
        c == d,
        a == b,
{
    reveal_strlit("/tmp/goose_task_");
    reveal_strlit("_");
    reveal_strlit("/");
    let from = "/tmp/goose_task_"@.len() as int;
    let cp = text::decimal_text(c.process as nat);
    let cn = text::decimal_text(c.number as nat);
    let dp = text::decimal_text(d.process as nat);
    let dn = text::decimal_text(d.number as nat);
    text::decimal_reads_back(c.process as nat);
    text::decimal_reads_back(c.number as nat);
    text::decimal_reads_back(d.process as nat);
    text::decimal_reads_back(d.number as nat);
    let whole = task_client::log_dir(c) + "/"@ + a;
    assert(whole.skip(from) =~= cp + ("_"@ + cn + "/"@ + a));
    assert(whole.skip(from) =~= dp + ("_"@ + dn + "/"@ + b));
    text::digits_end(cp, "_"@ + cn + "/"@ + a, dp, "_"@ + dn + "/"@ + b);
    let rest = "_"@ + cn + "/"@ + a;
    assert(rest.skip(1) =~= cn + ("/"@ + a));
    assert(rest.skip(1) =~= dn + ("/"@ + b));
    text::digits_end(cn, "/"@ + a, dn, "/"@ + b);
    assert(("/"@ + a).skip(1) =~= a);
    assert(("/"@ + b).skip(1) =~= b);
    text::decimal_is_injective(c.process as nat, d.process as nat);
    text::decimal_is_injective(c.number as nat, d.number as nat);
}

/// Different tasks keep their output in different files, be they of one client
/// or of two, and no task keeps its output where one keeps its error output.
pub proof fn logs_are_distinct(c: ClientId, a: Seq<char>, d: ClientId, b: Seq<char>)
    ensures
        stdout_log(c, a) == stdout_log(d, b) ==> c == d && a == b,
        stderr_log(c, a) == stderr_log(d, b) ==> c == d && a == b,
        stdout_log(c, a) != stderr_log(d, b),
{
    reveal_strlit("_stdout.log");
    reveal_strlit("_stderr.log");
    let out = "_stdout.log"@;
    let err = "_stderr.log"@;
    assert(stdout_log(c, a) =~= task_client::log_dir(c) + "/"@ + (a + out));
    assert(stdout_log(d, b) =~= task_client::log_dir(d) + "/"@ + (b + out));
    assert(stderr_log(c, a) =~= task_client::log_dir(c) + "/"@ + (a + err));
    assert(stderr_log(d, b) =~= task_client::log_dir(d) + "/"@ + (b + err));
    assert((a + out).take(a.len() as int) =~= a);
    assert((b + out).take(b.len() as int) =~= b);
    assert((a + err).take(a.len() as int) =~= a);
    assert((b + err).take(b.len() as int) =~= b);
    if stdout_log(c, a) == stdout_log(d, b) {
        log_dirs_are_distinct(c, a + out, d, b + out);
    }
    if stderr_log(c, a) == stderr_log(d, b) {
        log_dirs_are_distinct(c, a + err, d, b + err);
    }
    if stdout_log(c, a) == stderr_log(d, b) {
        assert(stdout_log(c, a)[stdout_log(c, a).len() - 5] == 't');
        assert(stderr_log(d, b)[stderr_log(d, b).len() - 5] == 'r');
    }
}

/// The two processes share no log.
pub open spec fn logs_apart(p: ProcessView, q: ProcessView) -> bool {
    &&& p.stdout_path != q.stdout_path
    &&& q.stderr_path != Some(p.stdout_path)
    &&& p.stderr_path != Some(q.stdout_path)
    &&& p.stderr_path is Some ==> p.stderr_path != q.stderr_path
}

/// Every process of a client writes to the logs that the client keeps for its
/// task.
pub open spec fn writes_own_logs(client: ClientId, table: Seq<(Seq<char>, ProcessView)>) -> bool {
    forall|i: int| 0 <= i < table.len() ==> #[trigger] has_own_logs(client, table[i].0, table[i].1)
}

/// A process writes to the logs that a client keeps for a task.
pub open spec fn has_own_logs(client: ClientId, id: Seq<char>, p: ProcessView) -> bool {
    p.stdout_path == stdout_log(client, id) && (p.stderr_path is None || p.stderr_path == Some(
        stderr_log(client, id),
    ))
}

/// A process that is planned, once it is started, writes to the logs of its
/// task, and so every process of a client does: none does at first, and
/// starting, reading, closing the input and removing keep it.
pub proof fn processes_write_own_logs(
    client: ClientId,
    table: Seq<(Seq<char>, ProcessView)>,
    id: Seq<char>,
    a: StartArgumentsView,
    running: Option<u32>,
    other: Seq<char>,
    stdout_pos: u64,
    stderr_pos: Option<u64>,
)
    requires
        process::entries_distinct(table),
        writes_own_logs(client, table),
    ensures
        writes_own_logs(client, Seq::empty()),
        planned(client, id, a) matches Ok(StartPlanView::Process(plan)) ==> {
            &&& plan.id == id
            &&& has_own_logs(client, id, started_process(plan, running))
            &&& writes_own_logs(
                client,
                process::with_new_process(table, id, started_process(plan, running)),
            )
        },
        process::process_of(table, other) matches Some(p) ==> {
            &&& has_own_logs(client, other, p)
            &&& writes_own_logs(
                client,
                process::with_process(table, other, p.read_to(stdout_pos, stderr_pos)),
            )
            &&& writes_own_logs(client, process::with_process(table, other, p.input_closed()))
        },
        writes_own_logs(client, process::without_process(table, other)),
{
    if let Some(p) = process::process_of(table, other) {
        let at = process::entry_of(table, other);
        assert(process::listed(table, other, at));
        assert(has_own_logs(client, table[at].0, table[at].1));
        let rest = process::without_process(table, other);
        assert forall|i: int| 0 <= i < rest.len() implies #[trigger] has_own_logs(
            client,
            rest[i].0,
            rest[i].1,
        ) by {
            let from: int = if i < at {
                i
            } else {
                i + 1
            };
            assert(rest[i] == table[from]);
            assert(has_own_logs(client, table[from].0, table[from].1));
        }
        let read = process::with_process(table, other, p.read_to(stdout_pos, stderr_pos));
        let closed = process::with_process(table, other, p.input_closed());
        assert forall|i: int| 0 <= i < table.len() implies #[trigger] has_own_logs(
            client,
            read[i].0,
            read[i].1,
        ) && has_own_logs(client, closed[i].0, closed[i].1) by {
            assert(has_own_logs(client, table[i].0, table[i].1));
        }
        assert(writes_own_logs(client, closed)) by {
            assert forall|i: int| 0 <= i < closed.len() implies #[trigger] has_own_logs(
                client,
                closed[i].0,
                closed[i].1,
            ) by {
                assert(has_own_logs(client, read[i].0, read[i].1));
            }
        }
    }
    if let Ok(StartPlanView::Process(plan)) = planned(client, id, a) {
        let next = process::with_new_process(table, id, started_process(plan, running));
        if process::process_of(table, id) is Some {
            assert(process::listed(table, id, process::entry_of(table, id)));
        }
        assert forall|i: int| 0 <= i < next.len() implies #[trigger] has_own_logs(
            client,
            next[i].0,
            next[i].1,
        ) by {
            if i < table.len() {
                assert(has_own_logs(client, table[i].0, table[i].1));
            }
        }
    }
}

/// No two tasks write to the same log, be they of one client or of two that
/// run at the same time, whose tasks may have the same identifiers.
pub proof fn no_two_tasks_share_a_log(
    c: ClientId,
    table: Seq<(Seq<char>, ProcessView)>,
    i: Seq<char>,
    d: ClientId,
    other: Seq<(Seq<char>, ProcessView)>,
    j: Seq<char>,
)
    requires
        writes_own_logs(c, table),
        writes_own_logs(d, other),
        c != d || i != j,
        process::process_of(table, i) is Some,
        process::process_of(other, j) is Some,
    ensures
        logs_apart(process::process_of(table, i).unwrap(), process::process_of(other, j).unwrap()),
{
    let at = process::entry_of(table, i);
    let to = process::entry_of(other, j);
    assert(process::listed(table, i, at));
    assert(process::listed(other, j, to));
    assert(has_own_logs(c, table[at].0, table[at].1));
    assert(has_own_logs(d, other[to].0, other[to].1));
    logs_are_distinct(c, i, d, j);
    logs_are_distinct(d, j, c, i);
}

/// The logs of two planned processes are apart, unless one client has planned
/// both for the same task.
pub proof fn no_two_plans_share_a_log(
    c: ClientId,
    i: Seq<char>,
    a: StartArgumentsView,
    d: ClientId,
    j: Seq<char>,
    b: StartArgumentsView,
    first: Option<u32>,
    second: Option<u32>,
)
    requires
        c != d || i != j,
    ensures
        planned(c, i, a) matches Ok(StartPlanView::Process(p)) ==> planned(d, j, b) matches Ok(
            StartPlanView::Process(q),
        ) ==> logs_apart(started_process(p, first), started_process(q, second)),
{
    logs_are_distinct(c, i, d, j);
    logs_are_distinct(d, j, c, i);
}

/// A task that was started is found as working under its identifier, and its
/// process under the same.
pub proof fn started_process_is_tracked(
    registry: RegistryView,
    table: Seq<(Seq<char>, ProcessView)>,
    plan: ProcessPlanView,
    running: Option<u32>,
    now: Moment,
)
    requires
        registry.keys_distinct(),
        process::entries_distinct(table),
    ensures
        ({
            let t = fresh_task(plan.id, TaskSource::Process, abbreviated(plan.command), now);
            &&& registry.registered(t).get(plan.id) == Some(t)
            &&& t.state == TaskState::Working
            &&& process::process_of(
                process::with_new_process(table, plan.id, started_process(plan, running)),
                plan.id,
            ) == Some(started_process(plan, running))
        }),
{
    let t = fresh_task(plan.id, TaskSource::Process, abbreviated(plan.command), now);
    crate::tasks::registered_is_found(registry, t);
    process::put_process_is_found(table, plan.id, started_process(plan, running));
}

/// A timer that was started and then fires is told of once, with its message
/// as the result.
pub proof fn timer_is_told(
    registry: RegistryView,
    plan: TimerPlanView,
    a: StartArgumentsView,
    started: Moment,
    fired: Moment,
)
    requires
        registry.keys_distinct(),
    ensures
        ({
            let waiting = after_planning(registry, Ok(StartPlanView::Timer(plan)), a, started);
            let over = waiting.transitioned(
                plan.id,
                TaskState::Completed,
                Some(plan.message),
                fired,
            );
            &&& waiting.outgoing == registry.outgoing
            &&& over.outgoing.len() == registry.outgoing.len() + 1
            &&& over.outgoing.last() matches OutgoingView::Event(
                TaskEventView::TaskCompleted { task },
            ) && task.id == plan.id && task.state == TaskState::Completed && task.result_summary
                == Some(plan.message)
        }),
{
    let waiting = after_planning(registry, Ok(StartPlanView::Timer(plan)), a, started);
    let task = fresh_task(
        plan.id,
        TaskSource::Timer,
        timer_description(plan.message, a.delay.unwrap()),
        started,
    );
    crate::tasks::registered_is_found(registry, task);
    assert(waiting.get(plan.id) == Some(task));
}

} // verus!
