//! What holds of the tools that are offered and called.
use crate::arguments::JsonObject;
use crate::calls;
use crate::calls::{ProcessCall, TaskCall};
use crate::jobs::JobRegistry;
use crate::manage_tasks;
use crate::process_client;
use crate::process_client::ProcessClient;
use crate::read_output;
use crate::send_input;
use crate::start_task;
use crate::task_client::TasksClient;
use crate::tasks::TaskRegistry;
use crate::tools;
use crate::tools::{ParamKind, ParamView, ProcessTool, TaskTool};
use vstd::prelude::*;
use vstd::string::*;

verus! {

// ── Tools ─────────────────────────────────────────────────────────────

/// The parameter has this name and kind, and is required or not.
pub open spec fn is_param(p: ParamView, name: Seq<char>, kind: ParamKind, required: bool) -> bool {
    p.name == name && p.kind == kind && p.required == required
}

/// The parameters of the tool `start_task`.
pub proof fn tasks_parameters_of_start_task()
    ensures
        tools::start_task().name == "start_task"@,
        tools::start_task().params.len() == 9,
        is_param(tools::start_task().params[0], "kind"@, ParamKind::Text, true),
        is_param(tools::start_task().params[1], "command"@, ParamKind::Text, false),
        is_param(tools::start_task().params[2], "use_pty"@, ParamKind::Flag, false),
        is_param(tools::start_task().params[3], "wait_for"@, ParamKind::Text, false),
        is_param(tools::start_task().params[4], "timeout_seconds"@, ParamKind::Number, false),
        is_param(tools::start_task().params[5], "working_dir"@, ParamKind::Text, false),
        is_param(tools::start_task().params[6], "env"@, ParamKind::Texts, false),
        is_param(tools::start_task().params[7], "delay"@, ParamKind::Text, false),
        is_param(tools::start_task().params[8], "message"@, ParamKind::Text, false),
{
}

/// The parameters of the tool `send_input`.
pub proof fn tasks_parameters_of_send_input()
    ensures
        tools::send_input().name == "send_input"@,
        tools::send_input().params.len() == 9,
        is_param(tools::send_input().params[0], "task_id"@, ParamKind::Text, true),
        is_param(tools::send_input().params[1], "input"@, ParamKind::Text, false),
        is_param(tools::send_input().params[2], "bytes"@, ParamKind::Bytes, false),
        is_param(tools::send_input().params[3], "signal"@, ParamKind::Text, false),
        is_param(tools::send_input().params[4], "no_enter"@, ParamKind::Flag, false),
        is_param(tools::send_input().params[5], "close_stdin"@, ParamKind::Flag, false),
        is_param(tools::send_input().params[6], "elicit"@, ParamKind::Flag, false),
        is_param(tools::send_input().params[7], "elicit_message"@, ParamKind::Text, false),
        is_param(tools::send_input().params[8], "wait_for"@, ParamKind::Text, false),
{
}

/// The parameters of the tool `read_output`.
pub proof fn tasks_parameters_of_read_output()
    ensures
        tools::read_output().name == "read_output"@,
        tools::read_output().params.len() == 5,
        is_param(tools::read_output().params[0], "task_id"@, ParamKind::Text, true),
        is_param(tools::read_output().params[1], "wait_for"@, ParamKind::Text, false),
        is_param(tools::read_output().params[2], "timeout_ms"@, ParamKind::Number, false),
        is_param(tools::read_output().params[3], "strip_ansi"@, ParamKind::Flag, false),
        is_param(tools::read_output().params[4], "limit_lines"@, ParamKind::Integer, false),
{
}

/// The tool `list_tasks` takes no parameters.
pub proof fn tasks_parameters_of_list_tasks()
    ensures
        tools::list_tasks().name == "list_tasks"@,
        tools::list_tasks().params.len() == 0,
{
}

/// The parameters of the tool `cancel_task`.
pub proof fn tasks_parameters_of_cancel_task()
    ensures
        tools::cancel_task().name == "cancel_task"@,
        tools::cancel_task().params.len() == 1,
        is_param(tools::cancel_task().params[0], "task_id"@, ParamKind::Text, true),
{
}

/// The parameters of the tool `get_task`.
pub proof fn tasks_parameters_of_get_task()
    ensures
        tools::get_task().name == "get_task"@,
        tools::get_task().params.len() == 1,
        is_param(tools::get_task().params[0], "task_id"@, ParamKind::Text, true),
{
}

/// The parameters of the tool `start_process`.
pub proof fn jobs_parameters_of_start_process()
    ensures
        tools::job_start_process().name == "start_process"@,
        tools::job_start_process().params.len() == 2,
        is_param(tools::job_start_process().params[0], "command"@, ParamKind::Text, true),
        is_param(tools::job_start_process().params[1], "wait_for"@, ParamKind::Text, false),
{
}

/// The parameters of the tool `read_output`.
pub proof fn jobs_parameters_of_read_output()
    ensures
        tools::job_read_output().name == "read_output"@,
        tools::job_read_output().params.len() == 1,
        is_param(tools::job_read_output().params[0], "process_id"@, ParamKind::Text, true),
{
}

/// The parameters of the tool `write_stdin`.
pub proof fn jobs_parameters_of_write_stdin()
    ensures
        tools::job_write_stdin().name == "write_stdin"@,
        tools::job_write_stdin().params.len() == 2,
        is_param(tools::job_write_stdin().params[0], "process_id"@, ParamKind::Text, true),
        is_param(tools::job_write_stdin().params[1], "input"@, ParamKind::Text, true),
{
}

/// The parameters of the tool `stop_process`.
pub proof fn jobs_parameters_of_stop_process()
    ensures
        tools::job_stop_process().name == "stop_process"@,
        tools::job_stop_process().params.len() == 1,
        is_param(tools::job_stop_process().params[0], "process_id"@, ParamKind::Text, true),
{
}

/// The parameters of the tool `schedule_reminder`.
pub proof fn jobs_parameters_of_schedule_reminder()
    ensures
        tools::job_schedule_reminder().name == "schedule_reminder"@,
        tools::job_schedule_reminder().params.len() == 2,
        is_param(tools::job_schedule_reminder().params[0], "delay"@, ParamKind::Text, true),
        is_param(tools::job_schedule_reminder().params[1], "message"@, ParamKind::Text, true),
{
}

/// The tool `list_jobs` takes no parameters.
pub proof fn jobs_parameters_of_list_jobs()
    ensures
        tools::job_list_jobs().name == "list_jobs"@,
        tools::job_list_jobs().params.len() == 0,
{
}

/// The task tools, in the order in which they are offered.
pub proof fn task_tools_in_order()
    ensures
        tools::task_tools_offered() == seq![
            tools::start_task(),
            tools::send_input(),
            tools::read_output(),
            tools::list_tasks(),
            tools::cancel_task(),
            tools::get_task(),
        ],
{
}

/// The process tools, in the order in which they are offered.
pub proof fn process_tools_in_order()
    ensures
        tools::process_tools_offered() == seq![
            tools::job_start_process(),
            tools::job_read_output(),
            tools::job_write_stdin(),
            tools::job_stop_process(),
            tools::job_schedule_reminder(),
            tools::job_list_jobs(),
        ],
{
}

// ── Names ─────────────────────────────────────────────────────────────

/// The name of a task tool.
pub open spec fn name_of_task_tool(tool: TaskTool) -> Seq<char> {
    match tool {
        TaskTool::StartTask => "start_task"@,
        TaskTool::SendInput => "send_input"@,
        TaskTool::ReadOutput => "read_output"@,
        TaskTool::ListTasks => "list_tasks"@,
        TaskTool::CancelTask => "cancel_task"@,
        TaskTool::GetTask => "get_task"@,
    }
}

/// A task tool is called by its own name, and by no other.
pub proof fn task_tools_are_called_by_name(name: Seq<char>, tool: TaskTool)
    ensures
        tools::task_tool_called(name) == Some(tool) <==> name == name_of_task_tool(tool),
{
    reveal_strlit("start_task");
    reveal_strlit("send_input");
    reveal_strlit("read_output");
    reveal_strlit("list_tasks");
    reveal_strlit("cancel_task");
    reveal_strlit("get_task");
    assert("start_task"@[1] == 't');
    assert("send_input"@[1] == 'e');
    assert("read_output"@[0] == 'r');
    assert("list_tasks"@[0] == 'l');
    assert("cancel_task"@[0] == 'c');
    assert("get_task"@[0] == 'g');
    assert("start_task"@[0] == 's');
    assert("send_input"@[0] == 's');
}

/// The name of a process tool.
pub open spec fn name_of_process_tool(tool: ProcessTool) -> Seq<char> {
    match tool {
        ProcessTool::StartProcess => "start_process"@,
        ProcessTool::ReadOutput => "read_output"@,
        ProcessTool::WriteStdin => "write_stdin"@,
        ProcessTool::StopProcess => "stop_process"@,
        ProcessTool::ScheduleReminder => "schedule_reminder"@,
        ProcessTool::ListJobs => "list_jobs"@,
    }
}

/// A process tool is called by its own name, and by no other.
pub proof fn process_tools_are_called_by_name(name: Seq<char>, tool: ProcessTool)
    ensures
        tools::process_tool_called(name) == Some(tool) <==> name == name_of_process_tool(tool),
{
    reveal_strlit("start_process");
    reveal_strlit("read_output");
    reveal_strlit("write_stdin");
    reveal_strlit("stop_process");
    reveal_strlit("schedule_reminder");
    reveal_strlit("list_jobs");
    assert("start_process"@.len() == 13);
    assert("read_output"@.len() == 11);
    assert("write_stdin"@.len() == 11);
    assert("read_output"@[0] == 'r');
    assert("write_stdin"@[0] == 'w');
    assert("stop_process"@.len() == 12);
    assert("schedule_reminder"@.len() == 17);
    assert("list_jobs"@.len() == 9);
}

// ── Calls ─────────────────────────────────────────────────────────────

/// A call of a task tool is decided by the handler of the tool with that name,
/// on its arguments and its request. Sending and reading leave the client as it
/// is, and listing the registry too; a name that is not known is shown in the
/// refusal, and nothing is done.
pub proof fn task_calls_go_by_name(
    before: TasksClient,
    registry: TaskRegistry,
    name: Seq<char>,
    arguments: Option<JsonObject>,
    request_id: Option<Seq<char>>,
    call: TaskCall,
    after: TasksClient,
    registry_after: TaskRegistry,
)
    requires
        calls::task_call_handled(
            before,
            registry,
            name,
            arguments,
            request_id,
            call,
            after,
            registry_after,
        ),
    ensures
        name == "start_task"@ ==> (call matches TaskCall::StartTask(r)
            && start_task::start_handled(before, registry, arguments, r, after, registry_after)),
        name == "send_input"@ ==> (call matches TaskCall::SendInput(r) && after == before
            && send_input::send_handled(
            before,
            registry,
            arguments,
            request_id,
            r,
            registry_after,
        )),
        name == "read_output"@ ==> (call matches TaskCall::ReadOutput(r) && after == before
            && read_output::read_handled(before, registry, arguments, r, registry_after)),
        name == "list_tasks"@ ==> (call matches TaskCall::Answered(killed, Ok(reply)) && killed
            is None && reply@ == manage_tasks::listing(registry@) && after == before
            && registry_after == registry),
        name == "cancel_task"@ ==> (call matches TaskCall::Answered(killed, r)
            && manage_tasks::cancel_handled(
            before,
            registry,
            arguments,
            (killed, r),
            after,
            registry_after,
        )),
        name == "get_task"@ ==> (call matches TaskCall::Answered(killed, r)
            && manage_tasks::get_handled(
            before,
            registry,
            arguments,
            (killed, r),
            after,
            registry_after,
        )),
        (forall|tool: TaskTool| name != #[trigger] name_of_task_tool(tool))
            ==> (call matches TaskCall::Answered(killed, Err(e)) && killed is None && e@
            == "Unknown tool: "@ + name && after == before && registry_after == registry),
{
    task_tools_are_called_by_name(name, TaskTool::StartTask);
    task_tools_are_called_by_name(name, TaskTool::SendInput);
    task_tools_are_called_by_name(name, TaskTool::ReadOutput);
    task_tools_are_called_by_name(name, TaskTool::ListTasks);
    task_tools_are_called_by_name(name, TaskTool::CancelTask);
    task_tools_are_called_by_name(name, TaskTool::GetTask);
}

/// A call of a process tool is decided by the handler of the tool with that
/// name, on its arguments. Reading, writing and listing leave the client and the
/// jobs as they are; a name that is not known is shown in the refusal, and
/// nothing is done.
pub proof fn process_calls_go_by_name(
    before: ProcessClient,
    registry: JobRegistry,
    name: Seq<char>,
    arguments: Option<JsonObject>,
    call: ProcessCall,
    after: ProcessClient,
    registry_after: JobRegistry,
)
    requires
        calls::process_call_handled(
            before,
            registry,
            name,
            arguments,
            call,
            after,
            registry_after,
        ),
    ensures
        name == "start_process"@ ==> (call matches ProcessCall::StartProcess(r)
            && process_client::start_handled(before, arguments, r, after) && registry_after
            == registry),
        name == "read_output"@ ==> (call matches ProcessCall::Answered(r) && (match r {
            Ok(reply) => process_client::output_replied(before, arguments) == Ok::<_, Seq<char>>(
                reply@,
            ),
            Err(e) => process_client::output_replied(before, arguments) == Err::<Seq<char>, _>(e@),
        }) && after == before && registry_after == registry),
        name == "write_stdin"@ ==> (call matches ProcessCall::WriteStdin(r)
            && process_client::written_outcome(r) == process_client::line_replied(
            before,
            arguments,
        ) && after == before && registry_after == registry),
        name == "stop_process"@ ==> (call matches ProcessCall::StopProcess(r)
            && process_client::stop_handled(
            before,
            registry,
            arguments,
            r,
            after,
            registry_after,
        )),
        name == "schedule_reminder"@ ==> (call matches ProcessCall::ScheduleReminder(r)
            && process_client::reminder_handled(
            before,
            registry,
            arguments,
            r,
            after,
            registry_after,
        )),
        name == "list_jobs"@ ==> (call matches ProcessCall::Answered(Ok(reply)) && reply@
            == process_client::listing(registry@, registry_after.latest()) && registry.shows(
            registry_after.latest(),
        ) && registry_after@ == registry@ && after == before),
        (forall|tool: ProcessTool| name != #[trigger] name_of_process_tool(tool))
            ==> (call matches ProcessCall::Answered(Err(e)) && e@ == "Unknown tool: "@ + name
            && after == before && registry_after == registry),
{
    process_tools_are_called_by_name(name, ProcessTool::StartProcess);
    process_tools_are_called_by_name(name, ProcessTool::ReadOutput);
    process_tools_are_called_by_name(name, ProcessTool::WriteStdin);
    process_tools_are_called_by_name(name, ProcessTool::StopProcess);
    process_tools_are_called_by_name(name, ProcessTool::ScheduleReminder);
    process_tools_are_called_by_name(name, ProcessTool::ListJobs);
}

} // verus!
