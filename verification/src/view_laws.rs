//! What is seen of the values of the library is what they hold.
use crate::arguments;
use crate::finished;
use crate::finished::FinishedTask;
use crate::input_thread::{
    Happening, HappeningView, InputAction, InputActionView, InputEvent, InputEventView,
    InputResult, InputResultView,
};
use crate::job_process::JobProcess;
use crate::jobs::{Job, JobEvent, JobEventView, JobNotification, JobSummary};
use crate::manage_tasks;
use crate::message::{ContentBlockView, Message, MessageContentBlock};
use crate::output::{PatternWatch, ReadWait};
use crate::process;
use crate::process::{ManagedProcess, WriteAction, WriteActionView, WriteStep};
use crate::process_client;
use crate::process_client::{JobPlan, JobStart, JobStartView, ReminderPlan, StopPlan, StopPlanView};
use crate::read_output;
use crate::read_output::{
    ReadArguments, ReadMode, ReadModeView, ReadPlan, WaitVerdict, WaitVerdictView,
};
use crate::send_input;
use crate::send_input::{SendAction, SendActionView, SendArguments};
use crate::start_task;
use crate::start_task::{ProcessPlan, StartArguments, StartPlan, StartPlanView, TimerPlan};
use crate::steer;
use crate::steer::SteerOutcome;
use crate::task_notification;
use crate::tasks::{
    Outgoing, OutgoingView, Task, TaskEvent, TaskEventView, TaskNotification, TaskSummary,
};
use crate::text;
use crate::tools;
use crate::tools::{ParamSpec, ToolSpec};
use crate::turn_queue::{TurnInput, TurnInputView};
use vstd::prelude::*;
use vstd::string::*;

verus! {

// ── Values ────────────────────────────────────────────────────────────

/// A value of `FinishedTask` is seen with all that it holds.
pub proof fn finished_task_is_seen_whole(x: FinishedTask)
    ensures
        x@.id == x.id@,
        x@.description == x.description@,
        x@.summary == x.summary@,
        x@.state == x.state,
{
}

/// A value of `InputResult` is seen as what it is, with all that it holds.
pub proof fn input_result_is_seen_whole(x: InputResult)
    ensures
        match x {
            InputResult::Message(held) => x@ matches InputResultView::Message(seen) && {
                &&& seen == held@
            },
            InputResult::Exit => x@ == InputResultView::Exit,
            InputResult::Retry => x@ == InputResultView::Retry,
        },
{
}

/// A value of `InputEvent` is seen as what it is, with all that it holds.
pub proof fn input_event_is_seen_whole(x: InputEvent)
    ensures
        match x {
            InputEvent::Input(held) => x@ matches InputEventView::Input(seen) && {
                &&& seen == held@
            },
            InputEvent::Closed => x@ == InputEventView::Closed,
        },
{
}

/// A value of `Happening` is seen as what it is, with all that it holds.
pub proof fn happening_is_seen_whole(x: Happening)
    ensures
        match x {
            Happening::Polled(held) => x@ matches HappeningView::Polled(seen) && {
                &&& seen == held
            },
            Happening::Line(held) => x@ matches HappeningView::Line(seen) && {
                &&& match held {
                    Some(s) => seen == Some(s@),
                    None => seen is None,
                }
            },
            Happening::Sent(held) => x@ matches HappeningView::Sent(seen) && {
                &&& seen == held
            },
            Happening::Commanded(held) => x@ matches HappeningView::Commanded(seen) && {
                &&& seen == held
            },
        },
{
}

/// A value of `InputAction` is seen as what it is, with all that it holds.
pub proof fn input_action_is_seen_whole(x: InputAction)
    ensures
        match x {
            InputAction::Poll => x@ == InputActionView::Poll,
            InputAction::Prompt => x@ == InputActionView::Prompt,
            InputAction::SaveAndSend(held) => x@ matches InputActionView::SaveAndSend(seen) && {
                &&& seen == held@
            },
            InputAction::Send(held) => x@ matches InputActionView::Send(seen) && {
                &&& seen == held@
            },
            InputAction::Wait => x@ == InputActionView::Wait,
            InputAction::Stop => x@ == InputActionView::Stop,
        },
{
}

/// A value of `JobProcess` is seen with all that it holds.
pub proof fn job_process_is_seen_whole(x: JobProcess)
    ensures
        x@.running == x.running,
        x@.stdin_open == x.stdin_open,
        x@.output_lines.len() == x.output_lines@.len(),
        forall|i: int|
            0 <= i < x@.output_lines.len() ==> #[trigger] x@.output_lines[i] == x.output_lines@[i]@,
        x@.description == x.description@,
{
}

/// A value of `JobNotification` is seen with all that it holds.
pub proof fn job_notification_is_seen_whole(x: JobNotification)
    ensures
        x@.timestamp == x.timestamp,
        x@.message == x.message@,
{
}

/// A value of `Job` is seen with all that it holds.
pub proof fn job_is_seen_whole(x: Job)
    ensures
        x@.id == x.id@,
        x@.source == x.source,
        x@.description == x.description@,
        x@.state == x.state,
        match x.batch_id {
            Some(s) => x@.batch_id == Some(s@),
            None => x@.batch_id is None,
        },
        x@.notify_policy == x.notify_policy,
        x@.meta == x.meta,
        x@.created_at == x.created_at,
        x@.last_activity == x.last_activity,
        x@.worked_duration == x.worked_duration,
        x@.notifications.len() == x.notifications@.len(),
        forall|i: int|
            0 <= i < x@.notifications.len() ==> #[trigger] x@.notifications[i] == x.notifications@[i]@,
        match x.result_summary {
            Some(s) => x@.result_summary == Some(s@),
            None => x@.result_summary is None,
        },
{
}

/// A value of `JobSummary` is seen with all that it holds.
pub proof fn job_summary_is_seen_whole(x: JobSummary)
    ensures
        x@.id == x.id@,
        x@.source == x.source,
        x@.description == x.description@,
        x@.state == x.state,
        x@.duration == x.duration,
{
}

/// A value of `JobEvent` is seen as what it is, with all that it holds.
pub proof fn job_event_is_seen_whole(x: JobEvent)
    ensures
        match x {
            JobEvent::BatchCompleted { batch_id, job_summaries } => x@ matches JobEventView::BatchCompleted { batch_id: seen_batch_id, job_summaries: seen_job_summaries } && {
                &&& seen_batch_id == batch_id@
                &&& seen_job_summaries.len() == job_summaries@.len()
                &&& forall|i: int|
                    0 <= i < seen_job_summaries.len() ==> #[trigger] seen_job_summaries[i] == job_summaries@[i]@
            },
            JobEvent::JobCompleted { job } => x@ matches JobEventView::JobCompleted { job: seen_job } && {
                &&& seen_job == job@
            },
            JobEvent::JobNeedsInput { job_id, question } => x@ matches JobEventView::JobNeedsInput { job_id: seen_job_id, question: seen_question } && {
                &&& seen_job_id == job_id@
                &&& seen_question == question@
            },
            JobEvent::PatternMatched { job_id, pattern, context } => x@ matches JobEventView::PatternMatched { job_id: seen_job_id, pattern: seen_pattern, context: seen_context } && {
                &&& seen_job_id == job_id@
                &&& seen_pattern == pattern@
                &&& seen_context == context@
            },
        },
{
}

/// A value of `MessageContentBlock` is seen as what it is, with all that it holds.
pub proof fn message_content_block_is_seen_whole(x: MessageContentBlock)
    ensures
        match x {
            MessageContentBlock::Text(held) => x@ matches ContentBlockView::Text(seen) && {
                &&& seen == held@
            },
            MessageContentBlock::SystemNotification { notification_type, msg } => x@ matches ContentBlockView::SystemNotification { notification_type: seen_notification_type, msg: seen_msg } && {
                &&& seen_notification_type == notification_type
                &&& seen_msg == msg@
            },
        },
{
}

/// A value of `Message` is seen with all that it holds.
pub proof fn message_is_seen_whole(x: Message)
    ensures
        x@.role == x.role,
        x@.content.len() == x.content@.len(),
        forall|i: int| 0 <= i < x@.content.len() ==> #[trigger] x@.content[i] == x.content@[i]@,
        x@.user_visible == x.user_visible,
        x@.agent_visible == x.agent_visible,
        x@.steer == x.steer,
{
}

/// A value of `ReadWait` is seen with all that it holds.
pub proof fn read_wait_is_seen_whole(x: ReadWait)
    ensures
        match x.pattern {
            Some(s) => x@.pattern == Some(s@),
            None => x@.pattern is None,
        },
        x@.running == x.running,
        x@.deadline == x.deadline,
        x@.idle_since == x.idle_since,
        x@.stdout == x.stdout@,
        x@.stderr == x.stderr@,
        x@.stdout_pos == x.stdout_pos,
        x@.stderr_pos == x.stderr_pos,
{
}

/// A value of `PatternWatch` is seen with all that it holds.
pub proof fn pattern_watch_is_seen_whole(x: PatternWatch)
    ensures
        match x.pattern {
            Some(s) => x@.pattern == Some(s@),
            None => x@.pattern is None,
        },
        x@.fired == x.fired,
{
}

/// A value of `JobPlan` is seen with all that it holds.
pub proof fn job_plan_is_seen_whole(x: JobPlan)
    ensures
        x@.id == x.id@,
        x@.command == x.command@,
        match x.wait_for {
            Some(s) => x@.wait_for == Some(s@),
            None => x@.wait_for is None,
        },
{
}

/// A value of `StopPlan` is seen as what it is, with all that it holds.
pub proof fn stop_plan_is_seen_whole(x: StopPlan)
    ensures
        match x {
            StopPlan::Kill { id } => x@ matches StopPlanView::Kill { id: seen_id } && {
                &&& seen_id == id@
            },
            StopPlan::Canceled { reply } => x@ matches StopPlanView::Canceled { reply: seen_reply } && {
                &&& seen_reply == reply@
            },
        },
{
}

/// A value of `ReminderPlan` is seen with all that it holds.
pub proof fn reminder_plan_is_seen_whole(x: ReminderPlan)
    ensures
        x@.id == x.id@,
        x@.delay == x.delay,
        x@.message == x.message@,
        x@.reply == x.reply@,
{
}

/// A value of `JobStart` is seen as what it is, with all that it holds.
pub proof fn job_start_is_seen_whole(x: JobStart)
    ensures
        match x {
            JobStart::Planned(held) => x@ matches JobStartView::Planned(seen) && {
                &&& seen == held@
            },
            JobStart::NoMoreIds => x@ == JobStartView::NoMoreIds,
        },
{
}

/// A value of `ReadArguments` is seen with all that it holds.
pub proof fn read_arguments_is_seen_whole(x: ReadArguments)
    ensures
        match x.task_id {
            Some(s) => x@.task_id == Some(s@),
            None => x@.task_id is None,
        },
        match x.wait_for {
            Some(s) => x@.wait_for == Some(s@),
            None => x@.wait_for is None,
        },
        x@.timeout_ms == x.timeout_ms,
        x@.strip_ansi == x.strip_ansi,
        x@.limit_lines == x.limit_lines,
{
}

/// A value of `WaitVerdict` is seen as what it is, with all that it holds.
pub proof fn wait_verdict_is_seen_whole(x: WaitVerdict)
    ensures
        match x {
            WaitVerdict::Waiting => x@ == WaitVerdictView::Waiting,
            WaitVerdict::Shown(held) => x@ matches WaitVerdictView::Shown(seen) && {
                &&& seen == held@
            },
            WaitVerdict::ShowTail(held) => x@ matches WaitVerdictView::ShowTail(seen) && {
                &&& seen == held
            },
        },
{
}

/// A value of `SendArguments` is seen with all that it holds.
pub proof fn send_arguments_is_seen_whole(x: SendArguments)
    ensures
        match x.task_id {
            Some(s) => x@.task_id == Some(s@),
            None => x@.task_id is None,
        },
        match x.input {
            Some(s) => x@.input == Some(s@),
            None => x@.input is None,
        },
        match x.bytes {
            Some(items) => x@.bytes == Some(items@),
            None => x@.bytes is None,
        },
        match x.signal {
            Some(s) => x@.signal == Some(s@),
            None => x@.signal is None,
        },
        x@.no_enter == x.no_enter,
        x@.close_stdin == x.close_stdin,
        x@.elicit == x.elicit,
        match x.elicit_message {
            Some(s) => x@.elicit_message == Some(s@),
            None => x@.elicit_message is None,
        },
        match x.wait_for {
            Some(s) => x@.wait_for == Some(s@),
            None => x@.wait_for is None,
        },
{
}

/// A value of `SendAction` is seen as what it is, with all that it holds.
pub proof fn send_action_is_seen_whole(x: SendAction)
    ensures
        match x {
            SendAction::Signal { signal, pid, reply } => x@ matches SendActionView::Signal { signal: seen_signal, pid: seen_pid, reply: seen_reply } && {
                &&& seen_signal == signal
                &&& seen_pid == pid
                &&& seen_reply == reply@
            },
            SendAction::Write { steps, reply } => x@ matches SendActionView::Write { steps: seen_steps, reply: seen_reply } && {
                &&& seen_steps.len() == steps@.len()
                &&& forall|i: int|
                    0 <= i < seen_steps.len() ==> #[trigger] seen_steps[i] == steps@[i]@
                &&& seen_reply == reply@
            },
            SendAction::Elicit { request_id, prompt } => x@ matches SendActionView::Elicit { request_id: seen_request_id, prompt: seen_prompt } && {
                &&& seen_request_id == request_id@
                &&& seen_prompt == prompt@
            },
            SendAction::Resumed { reply } => x@ matches SendActionView::Resumed { reply: seen_reply } && {
                &&& seen_reply == reply@
            },
        },
{
}

/// A value of `StartArguments` is seen with all that it holds.
pub proof fn start_arguments_is_seen_whole(x: StartArguments)
    ensures
        match x.kind {
            Some(s) => x@.kind == Some(s@),
            None => x@.kind is None,
        },
        match x.command {
            Some(s) => x@.command == Some(s@),
            None => x@.command is None,
        },
        match x.wait_for {
            Some(s) => x@.wait_for == Some(s@),
            None => x@.wait_for is None,
        },
        x@.use_pty == x.use_pty,
        x@.timeout_seconds == x.timeout_seconds,
        match x.working_dir {
            Some(s) => x@.working_dir == Some(s@),
            None => x@.working_dir is None,
        },
        x@.env.len() == x.env@.len(),
        forall|i: int| 0 <= i < x@.env.len() ==> (#[trigger] x@.env[i]).0 == x.env@[i].0@,
        forall|i: int|
            0 <= i < x@.env.len() ==> match x.env@[i].1 { Some(s) => (#[trigger] x@.env[i]).1 == Some(s@), None => (#[trigger] x@.env[i]).1 is None },
        match x.delay {
            Some(s) => x@.delay == Some(s@),
            None => x@.delay is None,
        },
        match x.message {
            Some(s) => x@.message == Some(s@),
            None => x@.message is None,
        },
{
}

/// A value of `ProcessPlan` is seen with all that it holds.
pub proof fn process_plan_is_seen_whole(x: ProcessPlan)
    ensures
        x@.id == x.id@,
        x@.command == x.command@,
        match x.wait_for {
            Some(s) => x@.wait_for == Some(s@),
            None => x@.wait_for is None,
        },
        x@.timeout_seconds == x.timeout_seconds,
        match x.working_dir {
            Some(s) => x@.working_dir == Some(s@),
            None => x@.working_dir is None,
        },
        x@.env.len() == x.env@.len(),
        forall|i: int| 0 <= i < x@.env.len() ==> (#[trigger] x@.env[i]).0 == x.env@[i].0@,
        forall|i: int| 0 <= i < x@.env.len() ==> (#[trigger] x@.env[i]).1 == x.env@[i].1@,
        x@.stdout_path == x.stdout_path@,
        match x.stderr_path {
            Some(s) => x@.stderr_path == Some(s@),
            None => x@.stderr_path is None,
        },
{
}

/// A value of `TimerPlan` is seen with all that it holds.
pub proof fn timer_plan_is_seen_whole(x: TimerPlan)
    ensures
        x@.id == x.id@,
        x@.delay == x.delay,
        x@.message == x.message@,
        x@.reply == x.reply@,
{
}

/// A value of `StartPlan` is seen as what it is, with all that it holds.
pub proof fn start_plan_is_seen_whole(x: StartPlan)
    ensures
        match x {
            StartPlan::Process(held) => x@ matches StartPlanView::Process(seen) && {
                &&& seen == held@
            },
            StartPlan::Timer(held) => x@ matches StartPlanView::Timer(seen) && {
                &&& seen == held@
            },
            StartPlan::DelayTooLong => x@ == StartPlanView::DelayTooLong,
        },
{
}

/// A value of `SteerOutcome` is seen with all that it holds.
pub proof fn steer_outcome_is_seen_whole(x: SteerOutcome)
    ensures
        match x.notice {
            Some(s) => x@.notice == Some(s@),
            None => x@.notice is None,
        },
        x@.steers.len() == x.steers@.len(),
        forall|i: int| 0 <= i < x@.steers.len() ==> #[trigger] x@.steers[i] == x.steers@[i]@,
{
}

/// A value of `TaskNotification` is seen with all that it holds.
pub proof fn task_notification_is_seen_whole(x: TaskNotification)
    ensures
        x@.timestamp == x.timestamp,
        x@.message == x.message@,
{
}

/// A value of `Task` is seen with all that it holds.
pub proof fn task_is_seen_whole(x: Task)
    ensures
        x@.id == x.id@,
        x@.source == x.source,
        x@.description == x.description@,
        x@.state == x.state,
        match x.batch_id {
            Some(s) => x@.batch_id == Some(s@),
            None => x@.batch_id is None,
        },
        x@.notify_policy == x.notify_policy,
        x@.meta == x.meta,
        x@.created_at == x.created_at,
        x@.last_activity == x.last_activity,
        x@.worked_duration == x.worked_duration,
        x@.notifications.len() == x.notifications@.len(),
        forall|i: int|
            0 <= i < x@.notifications.len() ==> #[trigger] x@.notifications[i] == x.notifications@[i]@,
        match x.status_message {
            Some(s) => x@.status_message == Some(s@),
            None => x@.status_message is None,
        },
        x@.result == x.result,
        x@.error == x.error,
        match x.result_summary {
            Some(s) => x@.result_summary == Some(s@),
            None => x@.result_summary is None,
        },
        match x.input_request {
            Some(s) => x@.input_request == Some(s@),
            None => x@.input_request is None,
        },
        x@.ttl_ms == x.ttl_ms,
        x@.poll_interval_ms == x.poll_interval_ms,
        x@.cancellation_token == x.cancellation_token,
{
}

/// A value of `TaskSummary` is seen with all that it holds.
pub proof fn task_summary_is_seen_whole(x: TaskSummary)
    ensures
        x@.id == x.id@,
        x@.source == x.source,
        x@.description == x.description@,
        x@.state == x.state,
        x@.duration == x.duration,
        match x.result_summary {
            Some(s) => x@.result_summary == Some(s@),
            None => x@.result_summary is None,
        },
        match x.status_message {
            Some(s) => x@.status_message == Some(s@),
            None => x@.status_message is None,
        },
        x@.result == x.result,
        x@.error == x.error,
{
}

/// A value of `TaskEvent` is seen as what it is, with all that it holds.
pub proof fn task_event_is_seen_whole(x: TaskEvent)
    ensures
        match x {
            TaskEvent::BatchCompleted { batch_id, task_summaries } => x@ matches TaskEventView::BatchCompleted { batch_id: seen_batch_id, task_summaries: seen_task_summaries } && {
                &&& seen_batch_id == batch_id@
                &&& seen_task_summaries.len() == task_summaries@.len()
                &&& forall|i: int|
                    0 <= i < seen_task_summaries.len() ==> #[trigger] seen_task_summaries[i] == task_summaries@[i]@
            },
            TaskEvent::TaskCompleted { task } => x@ matches TaskEventView::TaskCompleted { task: seen_task } && {
                &&& seen_task == task@
            },
            TaskEvent::TaskNeedsInput { task_id, question } => x@ matches TaskEventView::TaskNeedsInput { task_id: seen_task_id, question: seen_question } && {
                &&& seen_task_id == task_id@
                &&& seen_question == question@
            },
            TaskEvent::PatternMatched { task_id, pattern, context } => x@ matches TaskEventView::PatternMatched { task_id: seen_task_id, pattern: seen_pattern, context: seen_context } && {
                &&& seen_task_id == task_id@
                &&& seen_pattern == pattern@
                &&& seen_context == context@
            },
        },
{
}

/// A value of `Outgoing` is seen as what it is, with all that it holds.
pub proof fn outgoing_is_seen_whole(x: Outgoing)
    ensures
        match x {
            Outgoing::Fire(held) => x@ matches OutgoingView::Fire(seen) && {
                &&& seen == held
            },
            Outgoing::Event(held) => x@ matches OutgoingView::Event(seen) && {
                &&& seen == held@
            },
        },
{
}

/// A value of `ParamSpec` is seen with all that it holds.
pub proof fn param_spec_is_seen_whole(x: ParamSpec)
    ensures
        x@.name == x.name@,
        x@.kind == x.kind,
        x@.required == x.required,
        x@.description == x.description@,
{
}

/// A value of `ToolSpec` is seen with all that it holds.
pub proof fn tool_spec_is_seen_whole(x: ToolSpec)
    ensures
        x@.name == x.name@,
        x@.description == x.description@,
        x@.params.len() == x.params@.len(),
        forall|i: int| 0 <= i < x@.params.len() ==> #[trigger] x@.params[i] == x.params@[i]@,
{
}

/// A value of `TurnInput` is seen as what it is, with all that it holds.
pub proof fn turn_input_is_seen_whole(x: TurnInput)
    ensures
        match x {
            TurnInput::User(held) => x@ matches TurnInputView::User(seen) && {
                &&& seen == held@
            },
            TurnInput::System(held) => x@ matches TurnInputView::System(seen) && {
                &&& seen == held@
            },
        },
{
}

/// A step is seen by what it does and how its failure is reported.
pub proof fn write_step_is_seen_whole(x: WriteStep)
    ensures
        x@.failure == x.failure@,
        match x.action {
            WriteAction::Write(bytes) => x@.action == WriteActionView::Write(bytes@),
            WriteAction::Flush => x@.action == WriteActionView::Flush,
            WriteAction::Pause(millis) => x@.action == WriteActionView::Pause(millis),
            WriteAction::CloseStdin => x@.action == WriteActionView::CloseStdin,
        },
{
}

/// A read is seen with where it reads, how, and what is done to what it gives.
pub proof fn read_plan_is_seen_whole(x: ReadPlan)
    ensures
        x@.task_id == x.task_id@,
        x@.stdout_path == x.stdout_path@,
        match x.stderr_path {
            Some(s) => x@.stderr_path == Some(s@),
            None => x@.stderr_path is None,
        },
        x@.strip_ansi == x.strip_ansi,
        match x.mode {
            ReadMode::Wait { wait, limit } => x@.mode == (ReadModeView::Wait { wait: wait@, limit }),
            ReadMode::Tail(count) => x@.mode == ReadModeView::Tail(count),
            ReadMode::Increment { stdout_pos, stderr_pos } => x@.mode == (ReadModeView::Increment {
                stdout_pos,
                stderr_pos,
            }),
        },
{
}

/// A process is seen by how it is run; one in a terminal has no error output,
/// and its input stays open.
pub proof fn managed_process_is_seen_whole(x: ManagedProcess)
    ensures
        match x {
            ManagedProcess::Pipe {
                child_id,
                stdin_open,
                stdout_path,
                stderr_path,
                stdout_pos,
                stderr_pos,
            } => {
                &&& !x@.pty
                &&& x@.child_id == child_id
                &&& x@.stdin_open == stdin_open
                &&& x@.stdout_path == stdout_path@
                &&& x@.stderr_path == Some(stderr_path@)
                &&& x@.stdout_pos == stdout_pos
                &&& x@.stderr_pos == Some(stderr_pos)
            },
            ManagedProcess::Pty { child_id, stdout_path, stdout_pos } => {
                &&& x@.pty
                &&& x@.child_id == child_id
                &&& x@.stdin_open
                &&& x@.stdout_path == stdout_path@
                &&& x@.stderr_path is None
                &&& x@.stdout_pos == stdout_pos
                &&& x@.stderr_pos is None
            },
        },
{
}

// ── Texts and lists ───────────────────────────────────────────────────

/// Optional texts, replies and lists of texts are seen as they are.
pub proof fn texts_are_seen_whole(
    some: Option<String>,
    reply: Result<String, String>,
    list: Seq<String>,
)
    ensures
        match some {
            Some(s) => text::opt_text(some) == Some(s@),
            None => text::opt_text(some) is None,
        },
        match reply {
            Ok(s) => text::outcome(reply) == Ok::<_, Seq<char>>(s@),
            Err(s) => text::outcome(reply) == Err::<Seq<char>, _>(s@),
        },
        text::texts(list).len() == list.len(),
        forall|i: int| 0 <= i < list.len() ==> #[trigger] text::texts(list)[i] == list[i]@,
{
}

/// Rows and variables are seen one by one.
pub proof fn rows_are_seen_whole(
    rows: Seq<(String, Option<String>)>,
    env: Seq<(String, String)>,
    i: int,
)
    ensures
        arguments::rows_view(rows).len() == rows.len(),
        0 <= i < rows.len() ==> arguments::rows_view(rows)[i].0 == rows[i].0@ && (match rows[i].1 {
            Some(s) => arguments::rows_view(rows)[i].1 == Some(s@),
            None => arguments::rows_view(rows)[i].1 is None,
        }),
        start_task::env_view(env).len() == env.len(),
        0 <= i < env.len() ==> start_task::env_view(env)[i] == (env[i].0@, env[i].1@),
{
}

/// Lists are seen one by one.
pub proof fn lists_are_seen_whole(
    done: Seq<FinishedTask>,
    steps: Seq<WriteStep>,
    messages: Seq<Message>,
    params: Seq<ParamSpec>,
    offered: Seq<ToolSpec>,
    i: int,
)
    ensures
        finished::finished_views(done).len() == done.len(),
        process::step_views(steps).len() == steps.len(),
        steer::message_views(messages).len() == messages.len(),
        tools::param_views(params).len() == params.len(),
        tools::tool_views(offered).len() == offered.len(),
        0 <= i < done.len() ==> finished::finished_views(done)[i] == done[i]@,
        0 <= i < steps.len() ==> process::step_views(steps)[i] == steps[i]@,
        0 <= i < messages.len() ==> steer::message_views(messages)[i] == messages[i]@,
        0 <= i < params.len() ==> tools::param_views(params)[i] == params[i]@,
        0 <= i < offered.len() ==> tools::tool_views(offered)[i] == offered[i]@,
{
}

// ── Outcomes ──────────────────────────────────────────────────────────

/// What a call comes to is seen as what it is: a plan with all that it says, or
/// the complaint.
pub proof fn outcomes_are_seen_whole(
    start: Result<StartPlan, String>,
    send: Result<SendAction, String>,
    read: Result<ReadPlan, String>,
    job: Result<JobStart, String>,
    stop: Result<StopPlan, String>,
    reminder: Result<ReminderPlan, String>,
    delay: Result<(u64, u32), String>,
    written: Result<(Vec<WriteStep>, String), String>,
)
    ensures
        match start {
            Ok(plan) => start_task::plan_outcome(start) == Ok::<_, Seq<char>>(plan@),
            Err(e) => start_task::plan_outcome(start) matches Err(seen) && seen == e@,
        },
        match send {
            Ok(plan) => send_input::action_outcome(send) == Ok::<_, Seq<char>>(plan@),
            Err(e) => send_input::action_outcome(send) matches Err(seen) && seen == e@,
        },
        match read {
            Ok(plan) => read_output::read_outcome(read) == Ok::<_, Seq<char>>(plan@),
            Err(e) => read_output::read_outcome(read) matches Err(seen) && seen == e@,
        },
        match job {
            Ok(plan) => process_client::job_outcome(job) == Ok::<_, Seq<char>>(plan@),
            Err(e) => process_client::job_outcome(job) matches Err(seen) && seen == e@,
        },
        match stop {
            Ok(plan) => process_client::stop_outcome(stop) == Ok::<_, Seq<char>>(plan@),
            Err(e) => process_client::stop_outcome(stop) matches Err(seen) && seen == e@,
        },
        match reminder {
            Ok(plan) => process_client::reminder_outcome(reminder) == Ok::<_, Seq<char>>(plan@),
            Err(e) => process_client::reminder_outcome(reminder) matches Err(seen) && seen == e@,
        },
        match delay {
            Ok(parts) => process_client::read_view(delay) == Ok::<_, Seq<char>>(parts),
            Err(e) => process_client::read_view(delay) matches Err(seen) && seen == e@,
        },
        match written {
            Ok((steps, reply)) => process_client::written_outcome(written) == Ok::<_, Seq<char>>(
                (process::step_views(steps@), reply@),
            ),
            Err(e) => process_client::written_outcome(written) matches Err(seen) && seen == e@,
        },
{
}

/// A process or messages that may be there are seen if they are.
pub proof fn options_are_seen_whole(p: Option<ManagedProcess>, messages: Option<Vec<Message>>)
    ensures
        match p {
            Some(p) => manage_tasks::opt_process(Some(p)) == Some(p@),
            None => manage_tasks::opt_process(None) is None,
        },
        match messages {
            Some(m) => task_notification::opt_messages(Some(m)) == Some(steer::message_views(m@)),
            None => task_notification::opt_messages(None) is None,
        },
{
}

} // verus!
