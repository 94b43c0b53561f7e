//! The tools that the clients offer, and which of them a call names.
use crate::text;
use vstd::prelude::*;
use vstd::string::*;

verus! {

/// The type of a parameter.
#[derive(Debug, Clone, Copy, PartialEq, Eq, Structural)]
pub enum ParamKind {
    Text,
    Flag,
    Number,
    Integer,
    /// A list of numbers from 0 to 255.
    Bytes,
    /// Texts by name.
    Texts,
}

/// A parameter of a tool.
#[derive(Debug, Clone)]
pub struct ParamSpec {
    pub name: &'static str,
    pub kind: ParamKind,
    pub required: bool,
    pub description: &'static str,
}

#[verifier::ext_equal]
pub struct ParamView {
    pub name: Seq<char>,
    pub kind: ParamKind,
    pub required: bool,
    pub description: Seq<char>,
}

impl View for ParamSpec {
    type V = ParamView;

    open spec fn view(&self) -> ParamView {
        ParamView {
            name: self.name@,
            kind: self.kind,
            required: self.required,
            description: self.description@,
        }
    }
}

/// A tool.
#[derive(Debug, Clone)]
pub struct ToolSpec {
    pub name: &'static str,
    pub description: &'static str,
    pub params: Vec<ParamSpec>,
}

#[verifier::ext_equal]
pub struct ToolView {
    pub name: Seq<char>,
    pub description: Seq<char>,
    pub params: Seq<ParamView>,
}

/// Parameters, by what they say.
pub open spec fn param_views(params: Seq<ParamSpec>) -> Seq<ParamView> {
    params.map_values(|p: ParamSpec| p@)
}

impl View for ToolSpec {
    type V = ToolView;

    open spec fn view(&self) -> ToolView {
        ToolView {
            name: self.name@,
            description: self.description@,
            params: param_views(self.params@),
        }
    }
}

/// Tools, by what they say.
pub open spec fn tool_views(tools: Seq<ToolSpec>) -> Seq<ToolView> {
    tools.map_values(|t: ToolSpec| t@)
}

/// A parameter.
pub open spec fn param(
    name: Seq<char>,
    kind: ParamKind,
    required: bool,
    description: Seq<char>,
) -> ParamView {
    ParamView { name, kind, required, description }
}

fn put_param(
    params: &mut Vec<ParamSpec>,
    name: &'static str,
    kind: ParamKind,
    required: bool,
    description: &'static str,
)
    ensures
        param_views(final(params)@) == param_views(old(params)@).push(
            param(name@, kind, required, description@),
        ),
{
    params.push(ParamSpec { name, kind, required, description });
    assert(param_views(params@) =~= param_views(old(params)@).push(
        param(name@, kind, required, description@),
    ));
}

// ── The task tools ──────────────────────────────────────────────────

/// The tool `start_task`.
pub open spec fn start_task() -> ToolView {
    ToolView {
        name: "start_task"@,
        description: "Create a new background task. Supports kinds: 'process' (run a shell command), 'timer' (schedule a timed reminder), 'subagent' (delegate work to a subagent — use the delegate tool instead). Returns a task_id for monitoring."@,
        params: seq![
            param(
                "kind"@,
                ParamKind::Text,
                true,
                "Task kind: 'process' (shell command), 'timer' (timed reminder), or 'subagent' (use delegate tool instead)"@,
            ),
            param(
                "command"@,
                ParamKind::Text,
                false,
                "Shell command to run (for kind: 'process')"@,
            ),
            param(
                "use_pty"@,
                ParamKind::Flag,
                false,
                "Use a PTY for interactive programs (python3, gdb, ssh). Default: false."@,
            ),
            param(
                "wait_for"@,
                ParamKind::Text,
                false,
                "Pattern to watch for in stdout. When matched, triggers a notification. Process keeps running."@,
            ),
            param(
                "timeout_seconds"@,
                ParamKind::Number,
                false,
                "Kill the process after this many seconds."@,
            ),
            param(
                "working_dir"@,
                ParamKind::Text,
                false,
                "Working directory for the process."@,
            ),
            param(
                "env"@,
                ParamKind::Texts,
                false,
                "Environment variables for the process."@,
            ),
            param(
                "delay"@,
                ParamKind::Text,
                false,
                "Timer delay (for kind: 'timer'). Examples: '30s', '5m', '2h', '1h30m'"@,
            ),
            param(
                "message"@,
                ParamKind::Text,
                false,
                "Reminder message (for kind: 'timer'). Injected when the timer fires."@,
            ),
        ],
    }
}

fn start_task_tool() -> (r: ToolSpec)
    ensures
        r@ == start_task(),
{
    let mut params: Vec<ParamSpec> = Vec::new();
    assert(param_views(params@) =~= Seq::empty());
    put_param(
        &mut params,
        "kind",
        ParamKind::Text,
        true,
        "Task kind: 'process' (shell command), 'timer' (timed reminder), or 'subagent' (use delegate tool instead)",
    );
    put_param(
        &mut params,
        "command",
        ParamKind::Text,
        false,
        "Shell command to run (for kind: 'process')",
    );
    put_param(
        &mut params,
        "use_pty",
        ParamKind::Flag,
        false,
        "Use a PTY for interactive programs (python3, gdb, ssh). Default: false.",
    );
    put_param(
        &mut params,
        "wait_for",
        ParamKind::Text,
        false,
        "Pattern to watch for in stdout. When matched, triggers a notification. Process keeps running.",
    );
    put_param(
        &mut params,
        "timeout_seconds",
        ParamKind::Number,
        false,
        "Kill the process after this many seconds.",
    );
    put_param(
        &mut params,
        "working_dir",
        ParamKind::Text,
        false,
        "Working directory for the process.",
    );
    put_param(
        &mut params,
        "env",
        ParamKind::Texts,
        false,
        "Environment variables for the process.",
    );
    put_param(
        &mut params,
        "delay",
        ParamKind::Text,
        false,
        "Timer delay (for kind: 'timer'). Examples: '30s', '5m', '2h', '1h30m'",
    );
    put_param(
        &mut params,
        "message",
        ParamKind::Text,
        false,
        "Reminder message (for kind: 'timer'). Injected when the timer fires.",
    );
    let r = ToolSpec {
        name: "start_task",
        description: "Create a new background task. Supports kinds: 'process' (run a shell command), 'timer' (schedule a timed reminder), 'subagent' (delegate work to a subagent — use the delegate tool instead). Returns a task_id for monitoring.",
        params,
    };
    assert(r@.params =~= start_task().params);
    r
}

/// The tool `send_input`.
pub open spec fn send_input() -> ToolView {
    ToolView {
        name: "send_input"@,
        description: "Send input to a running task. Supports text input (auto-appends newline), raw bytes (no newline), Unix signals, and responding to tasks waiting for input. Use wait_for to block until a pattern appears in output."@,
        params: seq![
            param(
                "task_id"@,
                ParamKind::Text,
                true,
                "Task ID to send input to"@,
            ),
            param(
                "input"@,
                ParamKind::Text,
                false,
                "Text to send. Newline is auto-appended. Set no_enter: true to suppress."@,
            ),
            param(
                "bytes"@,
                ParamKind::Bytes,
                false,
                "Raw bytes to send (0-255). No newline appended. Use for control characters: [3]=Ctrl-C, [1,24]=Ctrl-A Ctrl-X, [9]=Tab."@,
            ),
            param(
                "signal"@,
                ParamKind::Text,
                false,
                "Unix signal to send instead of text. Examples: SIGINT (Ctrl-C), SIGTERM, SIGKILL, SIGSTOP, SIGCONT, SIGHUP, SIGQUIT."@,
            ),
            param(
                "no_enter"@,
                ParamKind::Flag,
                false,
                "Suppress the automatic newline after text input. Default: false."@,
            ),
            param(
                "close_stdin"@,
                ParamKind::Flag,
                false,
                "Close stdin after writing (signal EOF). Needed for interactive programs like python3 that buffer output until stdin closes. Default: false."@,
            ),
            param(
                "elicit"@,
                ParamKind::Flag,
                false,
                "Prompt the user for input (for passwords/secrets). Default: false."@,
            ),
            param(
                "elicit_message"@,
                ParamKind::Text,
                false,
                "Custom prompt message for elicitation (e.g. 'Enter the sudo password')"@,
            ),
            param(
                "wait_for"@,
                ParamKind::Text,
                false,
                "Wait for this pattern in output before returning. Use shell/REPL prompts like '$', '>>>', '(gdb)'. Max 30s wait."@,
            ),
        ],
    }
}

fn send_input_tool() -> (r: ToolSpec)
    ensures
        r@ == send_input(),
{
    let mut params: Vec<ParamSpec> = Vec::new();
    assert(param_views(params@) =~= Seq::empty());
    put_param(
        &mut params,
        "task_id",
        ParamKind::Text,
        true,
        "Task ID to send input to",
    );
    put_param(
        &mut params,
        "input",
        ParamKind::Text,
        false,
        "Text to send. Newline is auto-appended. Set no_enter: true to suppress.",
    );
    put_param(
        &mut params,
        "bytes",
        ParamKind::Bytes,
        false,
        "Raw bytes to send (0-255). No newline appended. Use for control characters: [3]=Ctrl-C, [1,24]=Ctrl-A Ctrl-X, [9]=Tab.",
    );
    put_param(
        &mut params,
        "signal",
        ParamKind::Text,
        false,
        "Unix signal to send instead of text. Examples: SIGINT (Ctrl-C), SIGTERM, SIGKILL, SIGSTOP, SIGCONT, SIGHUP, SIGQUIT.",
    );
    put_param(
        &mut params,
        "no_enter",
        ParamKind::Flag,
        false,
        "Suppress the automatic newline after text input. Default: false.",
    );
    put_param(
        &mut params,
        "close_stdin",
        ParamKind::Flag,
        false,
        "Close stdin after writing (signal EOF). Needed for interactive programs like python3 that buffer output until stdin closes. Default: false.",
    );
    put_param(
        &mut params,
        "elicit",
        ParamKind::Flag,
        false,
        "Prompt the user for input (for passwords/secrets). Default: false.",
    );
    put_param(
        &mut params,
        "elicit_message",
        ParamKind::Text,
        false,
        "Custom prompt message for elicitation (e.g. 'Enter the sudo password')",
    );
    put_param(
        &mut params,
        "wait_for",
        ParamKind::Text,
        false,
        "Wait for this pattern in output before returning. Use shell/REPL prompts like '$', '>>>', '(gdb)'. Max 30s wait.",
    );
    let r = ToolSpec {
        name: "send_input",
        description: "Send input to a running task. Supports text input (auto-appends newline), raw bytes (no newline), Unix signals, and responding to tasks waiting for input. Use wait_for to block until a pattern appears in output.",
        params,
    };
    assert(r@.params =~= send_input().params);
    r
}

/// The tool `read_output`.
pub open spec fn read_output() -> ToolView {
    ToolView {
        name: "read_output"@,
        description: "Read output from a running process task. Supports waiting for patterns and timeouts. Output is automatically stripped of ANSI codes by default."@,
        params: seq![
            param(
                "task_id"@,
                ParamKind::Text,
                true,
                "Task ID to read output from"@,
            ),
            param(
                "wait_for"@,
                ParamKind::Text,
                false,
                "Wait until this pattern appears in output before returning. Useful for waiting for prompts like '$', '>>>', 'Build successful'."@,
            ),
            param(
                "timeout_ms"@,
                ParamKind::Number,
                false,
                "Maximum time to wait for output in milliseconds. Default: 30000 (30s)."@,
            ),
            param(
                "strip_ansi"@,
                ParamKind::Flag,
                false,
                "Strip ANSI escape codes from output. Default: true."@,
            ),
            param(
                "limit_lines"@,
                ParamKind::Integer,
                false,
                "Limit output to the last X lines. If specified, does not update or use the incremental read offset."@,
            ),
        ],
    }
}

fn read_output_tool() -> (r: ToolSpec)
    ensures
        r@ == read_output(),
{
    let mut params: Vec<ParamSpec> = Vec::new();
    assert(param_views(params@) =~= Seq::empty());
    put_param(
        &mut params,
        "task_id",
        ParamKind::Text,
        true,
        "Task ID to read output from",
    );
    put_param(
        &mut params,
        "wait_for",
        ParamKind::Text,
        false,
        "Wait until this pattern appears in output before returning. Useful for waiting for prompts like '$', '>>>', 'Build successful'.",
    );
    put_param(
        &mut params,
        "timeout_ms",
        ParamKind::Number,
        false,
        "Maximum time to wait for output in milliseconds. Default: 30000 (30s).",
    );
    put_param(
        &mut params,
        "strip_ansi",
        ParamKind::Flag,
        false,
        "Strip ANSI escape codes from output. Default: true.",
    );
    put_param(
        &mut params,
        "limit_lines",
        ParamKind::Integer,
        false,
        "Limit output to the last X lines. If specified, does not update or use the incremental read offset.",
    );
    let r = ToolSpec {
        name: "read_output",
        description: "Read output from a running process task. Supports waiting for patterns and timeouts. Output is automatically stripped of ANSI codes by default.",
        params,
    };
    assert(r@.params =~= read_output().params);
    r
}

/// The tool `list_tasks`.
pub open spec fn list_tasks() -> ToolView {
    ToolView {
        name: "list_tasks"@,
        description: "List all tracked background tasks (processes, timers, subagents) with their current status."@,
        params: Seq::empty(),
    }
}

fn list_tasks_tool() -> (r: ToolSpec)
    ensures
        r@ == list_tasks(),
{
    let params: Vec<ParamSpec> = Vec::new();
    assert(param_views(params@) =~= Seq::empty());
    let r = ToolSpec {
        name: "list_tasks",
        description: "List all tracked background tasks (processes, timers, subagents) with their current status.",
        params,
    };
    assert(r@.params =~= list_tasks().params);
    r
}

/// The tool `cancel_task`.
pub open spec fn cancel_task() -> ToolView {
    ToolView {
        name: "cancel_task"@,
        description: "Cancel a running background task by its task ID. Kills the OS process if it's a process task. Works for any task type."@,
        params: seq![
            param(
                "task_id"@,
                ParamKind::Text,
                true,
                "Task ID to cancel"@,
            ),
        ],
    }
}

fn cancel_task_tool() -> (r: ToolSpec)
    ensures
        r@ == cancel_task(),
{
    let mut params: Vec<ParamSpec> = Vec::new();
    assert(param_views(params@) =~= Seq::empty());
    put_param(
        &mut params,
        "task_id",
        ParamKind::Text,
        true,
        "Task ID to cancel",
    );
    let r = ToolSpec {
        name: "cancel_task",
        description: "Cancel a running background task by its task ID. Kills the OS process if it's a process task. Works for any task type.",
        params,
    };
    assert(r@.params =~= cancel_task().params);
    r
}

/// The tool `get_task`.
pub open spec fn get_task() -> ToolView {
    ToolView {
        name: "get_task"@,
        description: "Retrieve and reap a completed background task by its task ID. Returns the task's output summary and status, then removes it from the task registry."@,
        params: seq![
            param(
                "task_id"@,
                ParamKind::Text,
                true,
                "Task ID to read"@,
            ),
        ],
    }
}

fn get_task_tool() -> (r: ToolSpec)
    ensures
        r@ == get_task(),
{
    let mut params: Vec<ParamSpec> = Vec::new();
    assert(param_views(params@) =~= Seq::empty());
    put_param(
        &mut params,
        "task_id",
        ParamKind::Text,
        true,
        "Task ID to read",
    );
    let r = ToolSpec {
        name: "get_task",
        description: "Retrieve and reap a completed background task by its task ID. Returns the task's output summary and status, then removes it from the task registry.",
        params,
    };
    assert(r@.params =~= get_task().params);
    r
}

/// The task tools.
pub open spec fn task_tools_offered() -> Seq<ToolView> {
    seq![
        start_task(),
        send_input(),
        read_output(),
        list_tasks(),
        cancel_task(),
        get_task(),
    ]
}

/// The task tools.
pub fn task_tools() -> (r: Vec<ToolSpec>)
    ensures
        tool_views(r@) == task_tools_offered(),
{
    let mut r: Vec<ToolSpec> = Vec::new();
    r.push(start_task_tool());
    r.push(send_input_tool());
    r.push(read_output_tool());
    r.push(list_tasks_tool());
    r.push(cancel_task_tool());
    r.push(get_task_tool());
    assert(tool_views(r@) =~= task_tools_offered());
    r
}

/// A task tool that is called.
#[derive(Debug, Clone, Copy, PartialEq, Eq, Structural)]
pub enum TaskTool {
    StartTask,
    SendInput,
    ReadOutput,
    ListTasks,
    CancelTask,
    GetTask,
}

/// The task tool with a name.
pub open spec fn task_tool_called(name: Seq<char>) -> Option<TaskTool> {
    if name == "start_task"@ {
        Some(TaskTool::StartTask)
    } else if name == "send_input"@ {
        Some(TaskTool::SendInput)
    } else if name == "read_output"@ {
        Some(TaskTool::ReadOutput)
    } else if name == "list_tasks"@ {
        Some(TaskTool::ListTasks)
    } else if name == "cancel_task"@ {
        Some(TaskTool::CancelTask)
    } else if name == "get_task"@ {
        Some(TaskTool::GetTask)
    } else {
        None
    }
}

/// The task tool with a name, or the complaint that there is none.
pub fn task_tool(name: &str) -> (r: Result<TaskTool, String>)
    ensures
        match r {
            Ok(tool) => task_tool_called(name@) == Some(tool),
            Err(e) => task_tool_called(name@) is None && e@ == "Unknown tool: "@ + name@,
        },
{
    if text::same_text(name, "start_task") {
        Ok(TaskTool::StartTask)
    } else if text::same_text(name, "send_input") {
        Ok(TaskTool::SendInput)
    } else if text::same_text(name, "read_output") {
        Ok(TaskTool::ReadOutput)
    } else if text::same_text(name, "list_tasks") {
        Ok(TaskTool::ListTasks)
    } else if text::same_text(name, "cancel_task") {
        Ok(TaskTool::CancelTask)
    } else if text::same_text(name, "get_task") {
        Ok(TaskTool::GetTask)
    } else {
        Err("Unknown tool: ".to_owned().concat(name))
    }
}

/// Exactly the task tools that are offered can be called.
pub proof fn task_tools_offered_can_be_called(name: Seq<char>)
    ensures
        task_tool_called(name) is Some <==> exists|i: int|
            0 <= i < task_tools_offered().len() && (#[trigger] task_tools_offered()[i]).name == name,
{
    let offered = task_tools_offered();
    assert(offered[0].name == "start_task"@);
    assert(offered[1].name == "send_input"@);
    assert(offered[2].name == "read_output"@);
    assert(offered[3].name == "list_tasks"@);
    assert(offered[4].name == "cancel_task"@);
    assert(offered[5].name == "get_task"@);
}

/// No two task tools have the same name.
pub proof fn task_tools_have_distinct_names(i: int, j: int)
    requires
        0 <= i < j < task_tools_offered().len(),
    ensures
        task_tools_offered()[i].name != task_tools_offered()[j].name,
{
    reveal_strlit("start_task");
    reveal_strlit("send_input");
    reveal_strlit("read_output");
    reveal_strlit("list_tasks");
    reveal_strlit("cancel_task");
    reveal_strlit("get_task");
    assert("start_task"@[1] != "send_input"@[1]);
    assert("start_task"@[0] != "list_tasks"@[0]);
    assert("send_input"@[0] != "list_tasks"@[0]);
    assert("read_output"@[0] != "cancel_task"@[0]);
    assert(task_tools_offered()[0].name.len() == 10);
    assert(task_tools_offered()[1].name.len() == 10);
    assert(task_tools_offered()[2].name.len() == 11);
    assert(task_tools_offered()[3].name.len() == 10);
    assert(task_tools_offered()[4].name.len() == 11);
    assert(task_tools_offered()[5].name.len() == 8);
}

// ── The process tools ──────────────────────────────────────────────────

/// The tool `start_process`.
pub open spec fn job_start_process() -> ToolView {
    ToolView {
        name: "start_process"@,
        description: "Start a long-running process in the background. Returns a process handle for monitoring and interaction."@,
        params: seq![
            param(
                "command"@,
                ParamKind::Text,
                true,
                "Shell command to run"@,
            ),
            param(
                "wait_for"@,
                ParamKind::Text,
                false,
                "Optional pattern to watch for in stdout. When matched, triggers a PatternMatched event (forced turn). The process keeps running."@,
            ),
        ],
    }
}

fn job_start_process_tool() -> (r: ToolSpec)
    ensures
        r@ == job_start_process(),
{
    let mut params: Vec<ParamSpec> = Vec::new();
    assert(param_views(params@) =~= Seq::empty());
    put_param(
        &mut params,
        "command",
        ParamKind::Text,
        true,
        "Shell command to run",
    );
    put_param(
        &mut params,
        "wait_for",
        ParamKind::Text,
        false,
        "Optional pattern to watch for in stdout. When matched, triggers a PatternMatched event (forced turn). The process keeps running.",
    );
    let r = ToolSpec {
        name: "start_process",
        description: "Start a long-running process in the background. Returns a process handle for monitoring and interaction.",
        params,
    };
    assert(r@.params =~= job_start_process().params);
    r
}

/// The tool `read_output`.
pub open spec fn job_read_output() -> ToolView {
    ToolView {
        name: "read_output"@,
        description: "Read recent output (stdout/stderr) from a running process."@,
        params: seq![
            param(
                "process_id"@,
                ParamKind::Text,
                true,
                "Process handle from start_process"@,
            ),
        ],
    }
}

fn job_read_output_tool() -> (r: ToolSpec)
    ensures
        r@ == job_read_output(),
{
    let mut params: Vec<ParamSpec> = Vec::new();
    assert(param_views(params@) =~= Seq::empty());
    put_param(
        &mut params,
        "process_id",
        ParamKind::Text,
        true,
        "Process handle from start_process",
    );
    let r = ToolSpec {
        name: "read_output",
        description: "Read recent output (stdout/stderr) from a running process.",
        params,
    };
    assert(r@.params =~= job_read_output().params);
    r
}

/// The tool `write_stdin`.
pub open spec fn job_write_stdin() -> ToolView {
    ToolView {
        name: "write_stdin"@,
        description: "Write input to a running process's stdin."@,
        params: seq![
            param(
                "process_id"@,
                ParamKind::Text,
                true,
                "Process handle from start_process"@,
            ),
            param(
                "input"@,
                ParamKind::Text,
                true,
                "Text to send to the process stdin"@,
            ),
        ],
    }
}

fn job_write_stdin_tool() -> (r: ToolSpec)
    ensures
        r@ == job_write_stdin(),
{
    let mut params: Vec<ParamSpec> = Vec::new();
    assert(param_views(params@) =~= Seq::empty());
    put_param(
        &mut params,
        "process_id",
        ParamKind::Text,
        true,
        "Process handle from start_process",
    );
    put_param(
        &mut params,
        "input",
        ParamKind::Text,
        true,
        "Text to send to the process stdin",
    );
    let r = ToolSpec {
        name: "write_stdin",
        description: "Write input to a running process's stdin.",
        params,
    };
    assert(r@.params =~= job_write_stdin().params);
    r
}

/// The tool `stop_process`.
pub open spec fn job_stop_process() -> ToolView {
    ToolView {
        name: "stop_process"@,
        description: "Stop/kill a running process and get its exit status."@,
        params: seq![
            param(
                "process_id"@,
                ParamKind::Text,
                true,
                "Process handle from start_process"@,
            ),
        ],
    }
}

fn job_stop_process_tool() -> (r: ToolSpec)
    ensures
        r@ == job_stop_process(),
{
    let mut params: Vec<ParamSpec> = Vec::new();
    assert(param_views(params@) =~= Seq::empty());
    put_param(
        &mut params,
        "process_id",
        ParamKind::Text,
        true,
        "Process handle from start_process",
    );
    let r = ToolSpec {
        name: "stop_process",
        description: "Stop/kill a running process and get its exit status.",
        params,
    };
    assert(r@.params =~= job_stop_process().params);
    r
}

/// The tool `schedule_reminder`.
pub open spec fn job_schedule_reminder() -> ToolView {
    ToolView {
        name: "schedule_reminder"@,
        description: "Schedule a timed reminder. Creates a job that fires after a delay, interrupting you with the given message. Use for checking back on async work, polling status, or any deferred action."@,
        params: seq![
            param(
                "delay"@,
                ParamKind::Text,
                true,
                "How long to wait before firing. Examples: 30s, 5m, 2h, 1h30m"@,
            ),
            param(
                "message"@,
                ParamKind::Text,
                true,
                "Reminder context injected when the timer fires"@,
            ),
        ],
    }
}

fn job_schedule_reminder_tool() -> (r: ToolSpec)
    ensures
        r@ == job_schedule_reminder(),
{
    let mut params: Vec<ParamSpec> = Vec::new();
    assert(param_views(params@) =~= Seq::empty());
    put_param(
        &mut params,
        "delay",
        ParamKind::Text,
        true,
        "How long to wait before firing. Examples: 30s, 5m, 2h, 1h30m",
    );
    put_param(
        &mut params,
        "message",
        ParamKind::Text,
        true,
        "Reminder context injected when the timer fires",
    );
    let r = ToolSpec {
        name: "schedule_reminder",
        description: "Schedule a timed reminder. Creates a job that fires after a delay, interrupting you with the given message. Use for checking back on async work, polling status, or any deferred action.",
        params,
    };
    assert(r@.params =~= job_schedule_reminder().params);
    r
}

/// The tool `list_jobs`.
pub open spec fn job_list_jobs() -> ToolView {
    ToolView {
        name: "list_jobs"@,
        description: "List all active background jobs (processes, timers, subagents) with their current status and time remaining."@,
        params: Seq::empty(),
    }
}

fn job_list_jobs_tool() -> (r: ToolSpec)
    ensures
        r@ == job_list_jobs(),
{
    let params: Vec<ParamSpec> = Vec::new();
    assert(param_views(params@) =~= Seq::empty());
    let r = ToolSpec {
        name: "list_jobs",
        description: "List all active background jobs (processes, timers, subagents) with their current status and time remaining.",
        params,
    };
    assert(r@.params =~= job_list_jobs().params);
    r
}

/// The process tools.
pub open spec fn process_tools_offered() -> Seq<ToolView> {
    seq![
        job_start_process(),
        job_read_output(),
        job_write_stdin(),
        job_stop_process(),
        job_schedule_reminder(),
        job_list_jobs(),
    ]
}

/// The process tools.
pub fn process_tools() -> (r: Vec<ToolSpec>)
    ensures
        tool_views(r@) == process_tools_offered(),
{
    let mut r: Vec<ToolSpec> = Vec::new();
    r.push(job_start_process_tool());
    r.push(job_read_output_tool());
    r.push(job_write_stdin_tool());
    r.push(job_stop_process_tool());
    r.push(job_schedule_reminder_tool());
    r.push(job_list_jobs_tool());
    assert(tool_views(r@) =~= process_tools_offered());
    r
}

/// A process tool that is called.
#[derive(Debug, Clone, Copy, PartialEq, Eq, Structural)]
pub enum ProcessTool {
    StartProcess,
    ReadOutput,
    WriteStdin,
    StopProcess,
    ScheduleReminder,
    ListJobs,
}

/// The process tool with a name.
pub open spec fn process_tool_called(name: Seq<char>) -> Option<ProcessTool> {
    if name == "start_process"@ {
        Some(ProcessTool::StartProcess)
    } else if name == "read_output"@ {
        Some(ProcessTool::ReadOutput)
    } else if name == "write_stdin"@ {
        Some(ProcessTool::WriteStdin)
    } else if name == "stop_process"@ {
        Some(ProcessTool::StopProcess)
    } else if name == "schedule_reminder"@ {
        Some(ProcessTool::ScheduleReminder)
    } else if name == "list_jobs"@ {
        Some(ProcessTool::ListJobs)
    } else {
        None
    }
}

/// The process tool with a name, or the complaint that there is none.
pub fn process_tool(name: &str) -> (r: Result<ProcessTool, String>)
    ensures
        match r {
            Ok(tool) => process_tool_called(name@) == Some(tool),
            Err(e) => process_tool_called(name@) is None && e@ == "Unknown tool: "@ + name@,
        },
{
    if text::same_text(name, "start_process") {
        Ok(ProcessTool::StartProcess)
    } else if text::same_text(name, "read_output") {
        Ok(ProcessTool::ReadOutput)
    } else if text::same_text(name, "write_stdin") {
        Ok(ProcessTool::WriteStdin)
    } else if text::same_text(name, "stop_process") {
        Ok(ProcessTool::StopProcess)
    } else if text::same_text(name, "schedule_reminder") {
        Ok(ProcessTool::ScheduleReminder)
    } else if text::same_text(name, "list_jobs") {
        Ok(ProcessTool::ListJobs)
    } else {
        Err("Unknown tool: ".to_owned().concat(name))
    }
}

/// Exactly the process tools that are offered can be called.
pub proof fn process_tools_offered_can_be_called(name: Seq<char>)
    ensures
        process_tool_called(name) is Some <==> exists|i: int|
            0 <= i < process_tools_offered().len() && (#[trigger] process_tools_offered()[i]).name == name,
{
    let offered = process_tools_offered();
    assert(offered[0].name == "start_process"@);
    assert(offered[1].name == "read_output"@);
    assert(offered[2].name == "write_stdin"@);
    assert(offered[3].name == "stop_process"@);
    assert(offered[4].name == "schedule_reminder"@);
    assert(offered[5].name == "list_jobs"@);
}

/// No two process tools have the same name.
pub proof fn process_tools_have_distinct_names(i: int, j: int)
    requires
        0 <= i < j < process_tools_offered().len(),
    ensures
        process_tools_offered()[i].name != process_tools_offered()[j].name,
{
    reveal_strlit("start_process");
    reveal_strlit("read_output");
    reveal_strlit("write_stdin");
    reveal_strlit("stop_process");
    reveal_strlit("schedule_reminder");
    reveal_strlit("list_jobs");
    assert("read_output"@[0] != "write_stdin"@[0]);
    assert(process_tools_offered()[0].name.len() == 13);
    assert(process_tools_offered()[1].name.len() == 11);
    assert(process_tools_offered()[2].name.len() == 11);
    assert(process_tools_offered()[3].name.len() == 12);
    assert(process_tools_offered()[4].name.len() == 17);
    assert(process_tools_offered()[5].name.len() == 9);
}

// ── Replies ───────────────────────────────────────────────────────────

/// What a call of a tool is answered.
#[derive(Debug)]
pub struct ToolReply {
    pub text: String,
    pub is_error: bool,
}

/// A reply, or a complaint that is marked as such.
pub fn tool_reply(result: Result<String, String>) -> (r: ToolReply)
    ensures
        r.is_error == (result is Err),
        r.text@ == (match result {
            Ok(reply) => reply@,
            Err(e) => "Error: "@ + e@,
        }),
{
    match result {
        Ok(text) => ToolReply { text, is_error: false },
        Err(e) => ToolReply { text: "Error: ".to_owned().concat(e.as_str()), is_error: true },
    }
}

} // verus!
