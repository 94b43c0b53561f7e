//! Calls of the tools: each is decided on by the handler of the tool that is
//! named.
use crate::arguments::JsonObject;
use crate::jobs::JobRegistry;
use crate::manage_tasks;
use crate::process::{ManagedProcess, WriteStep};
use crate::process_client;
use crate::process_client::{JobStart, ProcessClient, ReminderOutcome, StopPlan};
use crate::read_output;
use crate::read_output::ReadPlan;
use crate::send_input;
use crate::send_input::{SendAction, SendArguments};
use crate::start_task;
use crate::start_task::StartPlan;
use crate::task_client::TasksClient;
use crate::tasks::TaskRegistry;
use crate::text;
use crate::tools;
use crate::tools::{ProcessTool, TaskTool};
use vstd::prelude::*;
use vstd::string::*;

verus! {

/// What a call of a task tool comes to.
#[derive(Debug)]
pub enum TaskCall {
    /// A task is to be started.
    StartTask(Result<StartPlan, String>),
    /// Input is to be sent.
    SendInput(Result<(SendArguments, SendAction), String>),
    /// Output is to be read.
    ReadOutput(Result<ReadPlan, String>),
    /// The call is answered. The process, if there is one, is to be killed.
    Answered(Option<ManagedProcess>, Result<String, String>),
}

/// What a call of a process tool comes to.
#[derive(Debug)]
pub enum ProcessCall {
    /// A process is to be started.
    StartProcess(Result<JobStart, String>),
    /// These steps are to be done, with this reply.
    WriteStdin(Result<(Vec<WriteStep>, String), String>),
    /// A job is to be stopped.
    StopProcess(Result<StopPlan, String>),
    /// A reminder is to be awaited.
    ScheduleReminder(Result<ReminderOutcome, String>),
    /// The call is answered.
    Answered(Result<String, String>),
}

/// A task tool was called by its name: the handler of the tool has decided, or
/// there is no such tool and nothing was done.
pub open spec fn task_call_handled(
    before: TasksClient,
    registry: TaskRegistry,
    name: Seq<char>,
    arguments: Option<JsonObject>,
    request_id: Option<Seq<char>>,
    call: TaskCall,
    after: TasksClient,
    registry_after: TaskRegistry,
) -> bool {
    match tools::task_tool_called(name) {
        Some(TaskTool::StartTask) => call matches TaskCall::StartTask(r)
            && start_task::start_handled(before, registry, arguments, r, after, registry_after),
        Some(TaskTool::SendInput) => call matches TaskCall::SendInput(r) && after == before
            && send_input::send_handled(
            before,
            registry,
            arguments,
            request_id,
            r,
            registry_after,
        ),
        Some(TaskTool::ReadOutput) => call matches TaskCall::ReadOutput(r) && after == before
            && read_output::read_handled(before, registry, arguments, r, registry_after),
        Some(TaskTool::ListTasks) => call matches TaskCall::Answered(killed, r) && killed is None
            && text::outcome(r) == Ok::<_, Seq<char>>(manage_tasks::listing(registry@)) && after
            == before && registry_after == registry,
        Some(TaskTool::CancelTask) => call matches TaskCall::Answered(killed, r)
            && manage_tasks::cancel_handled(
            before,
            registry,
            arguments,
            (killed, r),
            after,
            registry_after,
        ),
        Some(TaskTool::GetTask) => call matches TaskCall::Answered(killed, r)
            && manage_tasks::get_handled(
            before,
            registry,
            arguments,
            (killed, r),
            after,
            registry_after,
        ),
        None => call matches TaskCall::Answered(killed, r) && killed is None && text::outcome(r)
            == Err::<Seq<char>, _>("Unknown tool: "@ + name) && after == before && registry_after
            == registry,
    }
}

/// A process tool was called by its name: the handler of the tool has decided,
/// or there is no such tool and nothing was done.
pub open spec fn process_call_handled(
    before: ProcessClient,
    registry: JobRegistry,
    name: Seq<char>,
    arguments: Option<JsonObject>,
    call: ProcessCall,
    after: ProcessClient,
    registry_after: JobRegistry,
) -> bool {
    match tools::process_tool_called(name) {
        Some(ProcessTool::StartProcess) => call matches ProcessCall::StartProcess(r)
            && process_client::start_handled(before, arguments, r, after) && registry_after
            == registry,
        Some(ProcessTool::ReadOutput) => call matches ProcessCall::Answered(r) && text::outcome(r)
            == process_client::output_replied(before, arguments) && after == before
            && registry_after == registry,
        Some(ProcessTool::WriteStdin) => call matches ProcessCall::WriteStdin(r)
            && process_client::written_outcome(r) == process_client::line_replied(
            before,
            arguments,
        ) && after == before && registry_after == registry,
        Some(ProcessTool::StopProcess) => call matches ProcessCall::StopProcess(r)
            && process_client::stop_handled(
            before,
            registry,
            arguments,
            r,
            after,
            registry_after,
        ),
        Some(ProcessTool::ScheduleReminder) => call matches ProcessCall::ScheduleReminder(r)
            && process_client::reminder_handled(
            before,
            registry,
            arguments,
            r,
            after,
            registry_after,
        ),
        Some(ProcessTool::ListJobs) => {
            let now = registry_after.latest();
            call matches ProcessCall::Answered(r) && text::outcome(r) == Ok::<_, Seq<char>>(
                process_client::listing(registry@, now),
            ) && registry.shows(now) && registry_after@ == registry@ && after == before
        },
        None => call matches ProcessCall::Answered(r) && text::outcome(r) == Err::<Seq<char>, _>(
            "Unknown tool: "@ + name,
        ) && after == before && registry_after == registry,
    }
}

impl TasksClient {
    /// Decides on a call of a task tool.
    pub fn call_tool(
        &mut self,
        registry: &mut TaskRegistry,
        name: &str,
        arguments: &Option<JsonObject>,
        request_id: &Option<String>,
    ) -> (r: TaskCall)
        requires
            old(self).wf(),
            old(registry).wf(),
        ensures
            final(self).wf(),
            final(registry).wf(),
            task_call_handled(
                *old(self),
                *old(registry),
                name@,
                *arguments,
                text::opt_text(*request_id),
                r,
                *final(self),
                *final(registry),
            ),
    {
        match tools::task_tool(name) {
            Ok(TaskTool::StartTask) => TaskCall::StartTask(
                self.handle_start_task(registry, arguments),
            ),
            Ok(TaskTool::SendInput) => TaskCall::SendInput(
                self.handle_send_input(registry, arguments, request_id),
            ),
            Ok(TaskTool::ReadOutput) => TaskCall::ReadOutput(
                self.handle_read_output(registry, arguments),
            ),
            Ok(TaskTool::ListTasks) => TaskCall::Answered(
                None,
                Ok(self.handle_list_tasks(registry)),
            ),
            Ok(TaskTool::CancelTask) => {
                let (killed, reply) = self.handle_cancel_task(registry, arguments);
                TaskCall::Answered(killed, reply)
            },
            Ok(TaskTool::GetTask) => {
                let (killed, reply) = self.handle_get_task(registry, arguments);
                TaskCall::Answered(killed, reply)
            },
            Err(e) => TaskCall::Answered(None, Err(e)),
        }
    }
}

impl ProcessClient {
    /// Decides on a call of a process tool.
    pub fn call_tool(
        &mut self,
        registry: &mut JobRegistry,
        name: &str,
        arguments: &Option<JsonObject>,
    ) -> (r: ProcessCall)
        requires
            old(self).wf(),
            old(registry).wf(),
        ensures
            final(self).wf(),
            final(registry).wf(),
            process_call_handled(
                *old(self),
                *old(registry),
                name@,
                *arguments,
                r,
                *final(self),
                *final(registry),
            ),
    {
        match tools::process_tool(name) {
            Ok(ProcessTool::StartProcess) => ProcessCall::StartProcess(
                self.handle_start(arguments),
            ),
            Ok(ProcessTool::ReadOutput) => ProcessCall::Answered(
                self.handle_read_output(arguments),
            ),
            Ok(ProcessTool::WriteStdin) => ProcessCall::WriteStdin(
                self.handle_write_stdin(arguments),
            ),
            Ok(ProcessTool::StopProcess) => ProcessCall::StopProcess(
                self.handle_stop(registry, arguments),
            ),
            Ok(ProcessTool::ScheduleReminder) => ProcessCall::ScheduleReminder(
                self.handle_schedule_reminder(registry, arguments),
            ),
            Ok(ProcessTool::ListJobs) => ProcessCall::Answered(
                Ok(self.handle_list_jobs(registry)),
            ),
            Err(e) => ProcessCall::Answered(Err(e)),
        }
    }
}

// ── Laws ──────────────────────────────────────────────────────────────

/// Every task tool that is offered is answered by its own handler, and any
/// other name is refused with nothing done.
pub proof fn offered_task_tools_are_handled(
    before: TasksClient,
    registry: TaskRegistry,
    name: Seq<char>,
    arguments: Option<JsonObject>,
    request_id: Option<Seq<char>>,
    call: TaskCall,
    after: TasksClient,
    registry_after: TaskRegistry,
)
    requires
        task_call_handled(
            before,
            registry,
            name,
            arguments,
            request_id,
            call,
            after,
            registry_after,
        ),
    ensures
        name == tools::start_task().name ==> (call matches TaskCall::StartTask(r)
            && start_task::start_handled(before, registry, arguments, r, after, registry_after)),
        name == tools::send_input().name ==> (call matches TaskCall::SendInput(r)
            && send_input::send_handled(
            before,
            registry,
            arguments,
            request_id,
            r,
            registry_after,
        )),
        name == tools::read_output().name ==> (call matches TaskCall::ReadOutput(r)
            && read_output::read_handled(before, registry, arguments, r, registry_after)),
        name == tools::list_tasks().name ==> (call matches TaskCall::Answered(_, r)
            && text::outcome(r) == Ok::<_, Seq<char>>(manage_tasks::listing(registry@))),
        name == tools::cancel_task().name ==> (call matches TaskCall::Answered(killed, r)
            && manage_tasks::cancel_handled(
            before,
            registry,
            arguments,
            (killed, r),
            after,
            registry_after,
        )),
        name == tools::get_task().name ==> (call matches TaskCall::Answered(killed, r)
            && manage_tasks::get_handled(
            before,
            registry,
            arguments,
            (killed, r),
            after,
            registry_after,
        )),
        (forall|i: int|
            0 <= i < tools::task_tools_offered().len() ==> (#[trigger] tools::task_tools_offered()[
                i]).name != name) ==> (call matches TaskCall::Answered(_, r) && text::outcome(r)
            == Err::<Seq<char>, _>("Unknown tool: "@ + name) && after == before && registry_after
            == registry),
{
    tools::task_tools_offered_can_be_called(name);
    let offered = tools::task_tools_offered();
    assert forall|i: int, j: int| 0 <= i < j < offered.len() implies (#[trigger] offered[i]).name
        != (#[trigger] offered[j]).name by {
        tools::task_tools_have_distinct_names(i, j);
    }
    assert(offered[0] == tools::start_task());
    assert(offered[1] == tools::send_input());
    assert(offered[2] == tools::read_output());
    assert(offered[3] == tools::list_tasks());
    assert(offered[4] == tools::cancel_task());
    assert(offered[5] == tools::get_task());
}

/// Every process tool that is offered is answered by its own handler, and any
/// other name is refused with nothing done.
pub proof fn offered_process_tools_are_handled(
    before: ProcessClient,
    registry: JobRegistry,
    name: Seq<char>,
    arguments: Option<JsonObject>,
    call: ProcessCall,
    after: ProcessClient,
    registry_after: JobRegistry,
)
    requires
        process_call_handled(before, registry, name, arguments, call, after, registry_after),
    ensures
        name == tools::job_start_process().name ==> (call matches ProcessCall::StartProcess(r)
            && process_client::start_handled(before, arguments, r, after)),
        name == tools::job_read_output().name ==> (call matches ProcessCall::Answered(r)
            && text::outcome(r) == process_client::output_replied(before, arguments)),
        name == tools::job_write_stdin().name ==> (call matches ProcessCall::WriteStdin(r)
            && process_client::written_outcome(r) == process_client::line_replied(
            before,
            arguments,
        )),
        name == tools::job_stop_process().name ==> (call matches ProcessCall::StopProcess(r)
            && process_client::stop_handled(
            before,
            registry,
            arguments,
            r,
            after,
            registry_after,
        )),
        name == tools::job_schedule_reminder().name
            ==> (call matches ProcessCall::ScheduleReminder(r) && process_client::reminder_handled(
            before,
            registry,
            arguments,
            r,
            after,
            registry_after,
        )),
        name == tools::job_list_jobs().name ==> (call matches ProcessCall::Answered(r)
            && text::outcome(r) == Ok::<_, Seq<char>>(
            process_client::listing(registry@, registry_after.latest()),
        )),
        (forall|i: int|
            0 <= i < tools::process_tools_offered().len() ==> (
            #[trigger] tools::process_tools_offered()[i]).name != name)
            ==> (call matches ProcessCall::Answered(r) && text::outcome(r) == Err::<Seq<char>, _>(
            "Unknown tool: "@ + name,
        ) && after == before && registry_after == registry),
{
    tools::process_tools_offered_can_be_called(name);
    let offered = tools::process_tools_offered();
    assert forall|i: int, j: int| 0 <= i < j < offered.len() implies (#[trigger] offered[i]).name
        != (#[trigger] offered[j]).name by {
        tools::process_tools_have_distinct_names(i, j);
    }
    assert(offered[0] == tools::job_start_process());
    assert(offered[1] == tools::job_read_output());
    assert(offered[2] == tools::job_write_stdin());
    assert(offered[3] == tools::job_stop_process());
    assert(offered[4] == tools::job_schedule_reminder());
    assert(offered[5] == tools::job_list_jobs());
}

} // verus!
