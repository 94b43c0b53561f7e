use goose_tasks::arguments::JsonObject;
use goose_tasks::calls::TaskCall;
use goose_tasks::output::ReadWait;
use goose_tasks::process::{
    read_from_position, ChildState, ManagedProcess, WriteAction, WriteStep,
};
use goose_tasks::read_output::{ReadMode, ReadPlan, WaitVerdict};
use goose_tasks::send_input::{
    parse_signal, signal_named, ElicitationOutcome, SendAction, SendArguments, Signal,
};
use goose_tasks::start_task::{
    abbreviate, settle_at, settle_step_at, ProcessPlan, StartArguments, StartPlan,
};
use goose_tasks::task_client::{ClientId, TasksClient};
use goose_tasks::tasks::{Outgoing, TaskEvent, TaskRegistry, TaskSource, TaskState};
use goose_tasks::time::{Moment, Span};
use goose_tasks::tools::{process_tools, task_tool, task_tools, tool_reply, ParamKind, TaskTool};
use serde_json::Value;

fn at(millis: u64) -> Moment {
    Moment { since_start: Span::from_millis(millis) }
}

fn object(members: Vec<(&str, Value)>) -> Option<JsonObject> {
    let mut o = JsonObject::new();
    for (k, v) in members {
        o.insert(k.to_string(), v);
    }
    Some(o)
}

fn start(client: &mut TasksClient, registry: &mut TaskRegistry, members: Vec<(&str, Value)>) -> ProcessPlan {
    match client.handle_start_task(registry, &object(members)) {
        Ok(StartPlan::Process(plan)) => plan,
        other => panic!("a process: {:?}", other),
    }
}

fn new_client() -> TasksClient {
    TasksClient::new(ClientId { process: 12, number: 3 })
}

/// A client with one running process.
fn running(use_pty: bool) -> (TasksClient, TaskRegistry, String) {
    running_command("cat", use_pty)
}

fn running_command(command: &str, use_pty: bool) -> (TasksClient, TaskRegistry, String) {
    let mut client = new_client();
    let mut registry = TaskRegistry::new();
    let plan = start(
        &mut client,
        &mut registry,
        vec![
            ("kind", Value::from("process")),
            ("command", Value::from(command)),
            ("use_pty", Value::from(use_pty)),
        ],
    );
    let id = plan.id.clone();
    client.process_started(&mut registry, plan, Some(77));
    (client, registry, id)
}

fn written(steps: &Vec<WriteStep>) -> Vec<u8> {
    let mut r = Vec::new();
    for s in steps {
        if let WriteAction::Write(bytes) = &s.action {
            r.extend(bytes.iter().copied());
        }
    }
    r
}

fn read(client: &mut TasksClient, registry: &mut TaskRegistry, members: Vec<(&str, Value)>) -> ReadPlan {
    client.handle_read_output(registry, &object(members)).unwrap()
}

#[test]
fn test_tasks_lifecycle() {
    let mut client = new_client();
    let mut registry = TaskRegistry::new();
    let plan = start(
        &mut client,
        &mut registry,
        vec![("kind", Value::from("process")), ("command", Value::from("echo 'Hello World'"))],
    );
    assert_eq!(plan.command, "echo 'Hello World'");
    let stdout_file = plan.stdout_path.clone();
    let text = client.process_started(&mut registry, plan, Some(4321));
    assert!(text.contains("started"));
    let parts: Vec<&str> = text.split_whitespace().collect();
    let task_id = parts[1].to_string();

    // The command writes its line and exits.
    let log = b"Hello World\n";
    client.processes.set_child_id(&task_id, None);
    let now = registry.now();
    settle_at(&mut registry, &task_id, Some(0), now);

    let plan = read(&mut client, &mut registry, vec![("task_id", Value::from(task_id.as_str()))]);
    let (stdout_pos, stderr_pos) = match plan.mode {
        ReadMode::Increment { stdout_pos, stderr_pos } => (stdout_pos, stderr_pos),
        _ => panic!("a plain read"),
    };
    let chunk = goose_tasks::process::read_from_position(stdout_pos, 12, &log[stdout_pos as usize..]);
    let errors = goose_tasks::process::read_from_position(stderr_pos.unwrap(), 0, b"");
    let read_text = client.take_increment(&plan, chunk, Some(errors));
    assert!(read_text.contains("Hello World"));
    assert!(read_text.contains("── stdout ──"));
    assert!(read_text.contains("── files ──"));
    assert!(read_text.contains("stdout: /tmp/goose_task_"));
    assert_eq!(client.processes.get(&task_id).unwrap().stdout_pos(), 12);

    let (reaped, reply) = client.handle_get_task(
        &mut registry,
        &object(vec![("task_id", Value::from(task_id.as_str()))]),
    );
    assert!(reply.unwrap().contains(&task_id));
    // The log file to be removed is the one that the reader was shown.
    let shown = read_text
        .lines()
        .find(|l| l.starts_with("stdout: "))
        .map(|l| l.trim_start_matches("stdout: ").trim())
        .unwrap();
    assert_eq!(shown, stdout_file);
    assert_eq!(reaped.unwrap().stdout_path(), stdout_file);
    assert!(client.processes.get(&task_id).is_none());
    assert!(registry.get(&task_id).is_none());
}

#[test]
fn test_read_output_limit_lines() {
    let (mut client, mut registry, task_id) =
        running_command("printf 'line1\\nline2\\nline3\\n'", false);
    let before = client.processes.get(&task_id).unwrap().stdout_pos();
    let plan = read(
        &mut client,
        &mut registry,
        vec![("task_id", Value::from(task_id.as_str())), ("limit_lines", Value::from(2u64))],
    );
    let count = match plan.mode {
        ReadMode::Tail(count) => count,
        _ => panic!("the last lines"),
    };
    let read_text = plan.tail_reply(count, "line1\nline2\nline3\n", &Some(String::new()));
    assert!(read_text.contains("line2"), "should contain line2");
    assert!(read_text.contains("line3"), "should contain line3");
    let stdout_section = read_text
        .split("── stderr ──")
        .next()
        .unwrap_or("")
        .split("── stdout ──")
        .nth(1)
        .unwrap_or("");
    assert!(!stdout_section.contains("line1"));
    assert_eq!(client.processes.get(&task_id).unwrap().stdout_pos(), before);
}

#[test]
fn test_stdin_interaction() {
    let (mut client, mut registry, task_id) =
        running_command("read line; echo \"echoed: $line\"", false);
    let (_, action) = client
        .handle_send_input(
            &mut registry,
            &object(vec![
                ("task_id", Value::from(task_id.as_str())),
                ("input", Value::from("hello stdin")),
            ]),
            &Some("req-3".to_string()),
        )
        .unwrap();
    let sent = match action {
        SendAction::Write { steps, .. } => written(&steps),
        _ => panic!("text"),
    };
    assert_eq!(sent, b"hello stdin\n");
    // The process reads a line and echoes it.
    let line = String::from_utf8(sent).unwrap();
    let echoed = format!("echoed: {}", line);
    let plan = read(&mut client, &mut registry, vec![("task_id", Value::from(task_id.as_str()))]);
    let size = echoed.len() as u64;
    let read_text = client.take_increment(&plan, (echoed, size), Some((String::new(), 0)));
    assert!(read_text.contains("echoed: hello stdin"), "stdout was: {}", read_text);
}

#[test]
fn start_arguments_are_required() {
    let mut client = new_client();
    let mut registry = TaskRegistry::new();
    let mut fail = |members: Option<JsonObject>| match client.handle_start_task(&mut registry, &members) {
        Err(e) => e,
        Ok(plan) => panic!("a complaint: {:?}", plan),
    };
    assert_eq!(fail(None), "Missing arguments");
    assert_eq!(
        fail(object(vec![("kind", Value::from(3u64))])),
        "Missing 'kind' argument (must be 'process', 'timer', or 'subagent')"
    );
    assert_eq!(
        fail(object(vec![("kind", Value::from("process"))])),
        "Missing 'command' argument"
    );
    assert_eq!(
        fail(object(vec![("kind", Value::from("timer"))])),
        "Missing 'delay' argument (e.g. '30s', '5m', '2h')"
    );
    assert_eq!(
        fail(object(vec![("kind", Value::from("timer")), ("delay", Value::from("5s"))])),
        "Missing 'message' argument"
    );
    assert_eq!(
        fail(object(vec![
            ("kind", Value::from("timer")),
            ("delay", Value::from("5x")),
            ("message", Value::from("m")),
        ])),
        "Unknown duration unit 'x' in: 5x"
    );
    assert_eq!(
        fail(object(vec![("kind", Value::from("subagent"))])),
        "Subagent tasks should be created via the delegate tool in the summon extension. \
         Use delegate(source: \"...\", instructions: \"...\", async: true) to run a subagent \
         in the background."
    );
    assert_eq!(
        fail(object(vec![("kind", Value::from("robot"))])),
        "Unknown task kind 'robot'. Must be 'process', 'timer', or 'subagent'."
    );
    assert_eq!(client.next_id, 1);
}

#[test]
fn started_process_is_planned_and_registered() {
    let mut client = new_client();
    let mut registry = TaskRegistry::new();
    let mut env = serde_json::Map::new();
    env.insert("A".to_string(), Value::from("1"));
    env.insert("B".to_string(), Value::from(2u64));
    let plan = start(
        &mut client,
        &mut registry,
        vec![
            ("kind", Value::from("process")),
            ("command", Value::from("make")),
            ("wait_for", Value::from("ready")),
            ("timeout_seconds", Value::from(9u64)),
            ("working_dir", Value::from("/src")),
            ("env", Value::Object(env)),
        ],
    );
    assert_eq!(plan.id, "task_1");
    assert_eq!(plan.wait_for.as_deref(), Some("ready"));
    assert_eq!(plan.timeout_seconds, Some(9));
    assert_eq!(plan.working_dir.as_deref(), Some("/src"));
    assert_eq!(plan.env, vec![("A".to_string(), "1".to_string())]);
    assert_eq!(plan.stdout_path, "/tmp/goose_task_12_3/task_1_stdout.log");
    assert_eq!(plan.stderr_path.as_deref(), Some("/tmp/goose_task_12_3/task_1_stderr.log"));
    assert!(registry.list().is_empty());
    let reply = client.process_started_at(&mut registry, plan, Some(5), at(7));
    assert_eq!(
        reply,
        "Task task_1 started (process). TTL: 5 minutes of inactivity before automatic cleanup.\n\
         Command: make\n\nUse send_input(task_id: \"task_1\", input: \"...\") to send input, \
         read_output(task_id: \"task_1\") to check output, cancel_task(task_id: \"task_1\") to stop."
    );
    let t = registry.get("task_1").unwrap();
    assert_eq!(t.source, TaskSource::Process);
    assert_eq!(t.state, TaskState::Working);
    assert_eq!(t.ttl_ms, Some(300_000));
    assert_eq!(t.created_at, at(7));
    assert_eq!(client.processes.get("task_1").unwrap().child_id(), Some(5));
}

#[test]
fn terminal_process_has_one_output() {
    let (client, _, id) = running(true);
    let p = client.processes.get(&id).unwrap();
    assert!(p.stderr_path().is_none());
    assert!(p.stderr_pos().is_none());
    assert_eq!(p.stdout_path(), "/tmp/goose_task_12_3/task_1_stdout.log");
}

#[test]
fn identifiers_count_up_and_around() {
    let mut client = new_client();
    assert_eq!(client.next_task_id(), "task_1");
    assert_eq!(client.next_task_id(), "task_2");
    client.next_id = u64::MAX;
    assert_eq!(client.next_task_id(), "task_18446744073709551615");
    assert_eq!(client.next_task_id(), "task_0");
}

#[test]
fn long_commands_are_abbreviated() {
    let long = "x".repeat(61);
    assert_eq!(abbreviate(&long), format!("{}...", "x".repeat(60)));
    assert_eq!(abbreviate(&"x".repeat(60)), "x".repeat(60));
    // Forty characters of two bytes each are long, and all of them are kept.
    assert_eq!(abbreviate(&"ä".repeat(40)), format!("{}...", "ä".repeat(40)));
}

#[test]
fn timer_runs_and_fires() {
    let mut client = new_client();
    let mut registry = TaskRegistry::new();
    let args = object(vec![
        ("kind", Value::from("timer")),
        ("delay", Value::from("1m")),
        ("message", Value::from("tea")),
    ]);
    let plan = match client.handle_start_task(&mut registry, &args) {
        Ok(StartPlan::Timer(plan)) => plan,
        other => panic!("a timer: {:?}", other),
    };
    assert_eq!(plan.delay, Span::from_secs(60));
    assert_eq!(
        plan.reply,
        "Task task_1 started (timer)\nReminder set for 1m: tea\n\n\
         The system will notify you when the timer fires."
    );
    assert_eq!(registry.get("task_1").unwrap().description, "Timer: tea (1m)");
    registry.complete(&plan.id, Some(plan.message));
    match &registry.take_outgoing()[0] {
        Outgoing::Event(TaskEvent::TaskCompleted { task }) => {
            assert_eq!(task.result_summary.as_deref(), Some("tea"));
        }
        other => panic!("a completion: {:?}", other),
    }
    let args = object(vec![
        ("kind", Value::from("timer")),
        ("delay", Value::from("18446744073709551615h")),
        ("message", Value::from("never")),
    ]);
    assert!(matches!(client.handle_start_task(&mut registry, &args), Ok(StartPlan::DelayTooLong)));
    assert_eq!(client.next_id, 2);
}

#[test]
fn exit_codes_settle_a_task() {
    let (_, mut registry, id) = running(false);
    settle_at(&mut registry, &id, Some(3), at(5));
    let t = registry.get(&id).unwrap();
    assert_eq!(t.state, TaskState::Failed);
    assert_eq!(t.result_summary.as_deref(), Some("exit code: 3"));
    let (_, mut registry, id) = running(false);
    settle_at(&mut registry, &id, Some(0), at(5));
    assert_eq!(registry.get(&id).unwrap().state, TaskState::Completed);
    // A process that was ended by a signal has no code.
    let (_, mut registry, id) = running(false);
    settle_at(&mut registry, &id, None, at(5));
    let t = registry.get(&id).unwrap();
    assert_eq!(t.state, TaskState::Failed);
    assert_eq!(t.result_summary.as_deref(), Some("exit code: -1"));
}

#[test]
fn time_out_fails_the_task_and_gives_up_the_process() {
    let (mut client, mut registry, id) = running(false);
    let killed = client.time_out_at(&mut registry, &id, at(5));
    assert!(matches!(killed, Some(ManagedProcess::Pipe { .. })));
    assert_eq!(registry.get(&id).unwrap().result_summary.as_deref(), Some("Timed out"));
    assert!(client.processes.get(&id).is_none());
    assert!(client.time_out_at(&mut registry, &id, at(6)).is_none());
}

fn send(
    client: &TasksClient,
    registry: &mut TaskRegistry,
    members: Vec<(&str, Value)>,
) -> Result<SendAction, String> {
    client
        .handle_send_input(registry, &object(members), &Some("req".to_string()))
        .map(|(_, action)| action)
}

#[test]
fn text_goes_to_the_process() {
    let (client, mut registry, id) = running(false);
    let me = || ("task_id", Value::from(id.as_str()));
    let (a, action) = client
        .handle_send_input(
            &mut registry,
            &object(vec![
                me(),
                ("input", Value::from("x")),
                ("no_enter", Value::from(true)),
                ("close_stdin", Value::from(true)),
                ("wait_for", Value::from("$")),
            ]),
            &None,
        )
        .unwrap();
    assert_eq!(a.wait_for.as_deref(), Some("$"));
    match action {
        SendAction::Write { steps, reply } => {
            assert_eq!(written(&steps), b"x");
            assert!(matches!(steps[0].action, WriteAction::Write(_)));
            assert!(matches!(steps[1].action, WriteAction::Flush));
            assert!(matches!(steps[2].action, WriteAction::CloseStdin));
            assert_eq!(steps.len(), 3);
            assert_eq!(steps[0].failure_text("gone"), "Failed to write to stdin: gone");
            assert_eq!(reply, "Sent to task_1: x");
        }
        other => panic!("text: {:?}", other),
    }
    let wait = client.wait_after_sending(&id, "$", 40, Some(7), at(100)).unwrap();
    assert_eq!(wait.deadline, at(30_100));
    assert_eq!((wait.stdout_pos, wait.stderr_pos), (40, Some(7)));
    assert!(client.wait_after_sending("none", "$", 0, None, at(100)).is_none());
}

#[test]
fn terminal_gets_its_own_line_end() {
    let (client, mut registry, id) = running(true);
    match send(&client, &mut registry, vec![
        ("task_id", Value::from(id.as_str())),
        ("input", Value::from("ls")),
        ("close_stdin", Value::from(true)),
    ]) {
        Ok(SendAction::Write { steps, .. }) => {
            assert_eq!(written(&steps), b"ls\r\n");
            assert_eq!(steps.len(), 5);
            assert!(matches!(steps[2].action, WriteAction::Pause(50)));
            assert_eq!(steps[3].failure_text("x"), "Failed to write PTY newline: x");
        }
        other => panic!("text: {:?}", other),
    }
}

#[test]
fn bytes_go_bare() {
    let (client, mut registry, id) = running(false);
    let bytes = Value::from(vec![
        Value::from(3u64),
        Value::from("no"),
        Value::from(256u64 + 24),
        Value::from(-1i64),
    ]);
    match send(&client, &mut registry, vec![("task_id", Value::from(id.as_str())), ("bytes", bytes)]) {
        Ok(SendAction::Write { steps, reply }) => {
            assert_eq!(written(&steps), vec![3u8, 24u8]);
            assert_eq!(steps.len(), 2);
            assert_eq!(reply, "Sent 2 bytes to task_1");
        }
        other => panic!("bytes: {:?}", other),
    }
}

#[test]
fn signals_are_named_in_any_case() {
    assert_eq!(signal_named("SIGHUP"), Some(Signal::Hup));
    assert_eq!(signal_named("sighup"), None);
    assert_eq!(parse_signal("sigInt"), Some(Signal::Int));
    assert_eq!(parse_signal("SIGTERM"), Some(Signal::Term));
    assert_eq!(parse_signal("sigkill"), Some(Signal::Kill));
    assert_eq!(parse_signal("sigstop"), Some(Signal::Stop));
    assert_eq!(parse_signal("sigcont"), Some(Signal::Cont));
    assert_eq!(parse_signal("sigquit"), Some(Signal::Quit));
    assert_eq!(parse_signal("SIGUSR1"), None);
    let (mut client, mut registry, id) = running(false);
    let me = || ("task_id", Value::from(id.as_str()));
    match send(&client, &mut registry, vec![me(), ("signal", Value::from("sigint"))]) {
        Ok(SendAction::Signal { signal, pid, reply }) => {
            assert_eq!(signal, Signal::Int);
            assert_eq!(pid, 77);
            assert_eq!(reply, "Signal sigint sent to task_1");
        }
        other => panic!("a signal: {:?}", other),
    }
    match send(&client, &mut registry, vec![me(), ("signal", Value::from("SIGUSR1"))]) {
        Err(e) => assert_eq!(
            e,
            "Unsupported signal: SIGUSR1. Use SIGINT, SIGTERM, SIGKILL, SIGSTOP, SIGCONT, SIGHUP, or SIGQUIT."
        ),
        other => panic!("a complaint: {:?}", other),
    }
    client.processes.set_child_id(&id, None);
    match send(&client, &mut registry, vec![me(), ("signal", Value::from("SIGINT"))]) {
        Err(e) => assert_eq!(e, "Process already exited"),
        other => panic!("a complaint: {:?}", other),
    }
}

#[test]
fn wrong_input_is_refused() {
    let (mut client, mut registry, id) = running(false);
    let fail = |client: &TasksClient, registry: &mut TaskRegistry, members| match send(client, registry, members) {
        Err(e) => e,
        Ok(a) => panic!("a complaint: {:?}", a),
    };
    match client.handle_send_input(&mut registry, &None, &None) {
        Err(e) => assert_eq!(e, "Missing arguments"),
        Ok(_) => panic!("a complaint"),
    }
    assert_eq!(fail(&client, &mut registry, vec![]), "Missing 'task_id' argument");
    assert_eq!(
        fail(&client, &mut registry, vec![("task_id", Value::from(id.as_str()))]),
        "Provide one of: 'input' (text), 'bytes' (raw), 'signal' (e.g. SIGINT), or set 'elicit: true'"
    );
    let lost = || ("task_id", Value::from("lost"));
    assert_eq!(
        fail(&client, &mut registry, vec![lost(), ("input", Value::from("x"))]),
        "Process task 'lost' not found"
    );
    assert_eq!(
        fail(&client, &mut registry, vec![lost(), ("signal", Value::from("SIGINT"))]),
        "Process task 'lost' not found"
    );
    client.processes.stdin_closed(&id);
    assert_eq!(
        fail(&client, &mut registry, vec![
            ("task_id", Value::from(id.as_str())),
            ("input", Value::from("x")),
        ]),
        "Process stdin not available (already closed)"
    );
}

#[test]
fn waiting_task_is_resumed() {
    let (client, mut registry, id) = running(false);
    registry.needs_input(&id, "name?".to_string());
    match send(&client, &mut registry, vec![
        ("task_id", Value::from(id.as_str())),
        ("input", Value::from("x")),
    ]) {
        Ok(SendAction::Resumed { reply }) => {
            assert_eq!(reply, "Input sent to task task_1 (resumed from InputRequired state).");
        }
        other => panic!("resumed: {:?}", other),
    }
    assert_eq!(registry.get(&id).unwrap().state, TaskState::Working);
}

#[test]
fn input_counts_as_activity() {
    let (client, mut registry, id) = running(false);
    let a = SendArguments {
        task_id: Some(id.clone()),
        input: Some("x".to_string()),
        bytes: None,
        signal: None,
        no_enter: None,
        close_stdin: None,
        elicit: None,
        elicit_message: None,
        wait_for: None,
    };
    assert!(client.plan_send_at(&mut registry, &a, None, &None, at(999_999)).is_ok());
    assert_eq!(registry.get(&id).unwrap().last_activity, at(999_999));
}

#[test]
fn user_is_asked() {
    let (client, mut registry, id) = running(false);
    let args = |m: Vec<(&'static str, Value)>| {
        let mut all = vec![("task_id", Value::from(id.as_str())), ("elicit", Value::from(true))];
        all.extend(m);
        object(all)
    };
    match client.handle_send_input(&mut registry, &args(vec![]), &None) {
        Err(e) => assert_eq!(
            e,
            "Elicitation requires an active tool call context with a request ID"
        ),
        Ok(_) => panic!("a complaint"),
    }
    let req = Some("req".to_string());
    match client.handle_send_input(&mut registry, &args(vec![]), &req) {
        Ok((_, SendAction::Elicit { request_id, prompt })) => {
            assert_eq!(request_id, "req");
            assert_eq!(prompt, "Enter input for process");
        }
        other => panic!("a question: {:?}", other),
    }
    match client.handle_send_input(&mut registry, &args(vec![("elicit_message", Value::from("pw"))]), &req) {
        Ok((_, SendAction::Elicit { prompt, .. })) => assert_eq!(prompt, "pw"),
        other => panic!("a question: {:?}", other),
    }
    let yes = ElicitationOutcome::Accept(object(vec![("input", Value::from("s3"))]).unwrap());
    match client.handle_elicitation(&id, false, &yes) {
        Ok(SendAction::Write { steps, reply }) => {
            assert_eq!(written(&steps), b"s3\n");
            assert_eq!(
                reply,
                "Successfully elicited input and sent it to process stdin for task task_1"
            );
        }
        other => panic!("written: {:?}", other),
    }
    let fail = |outcome| match client.handle_elicitation(&id, false, &outcome) {
        Err(e) => e,
        Ok(a) => panic!("a complaint: {:?}", a),
    };
    assert_eq!(
        fail(ElicitationOutcome::Accept(JsonObject::new())),
        "Missing 'input' field in elicitation response"
    );
    assert_eq!(fail(ElicitationOutcome::Decline), "User declined elicitation request");
    assert_eq!(fail(ElicitationOutcome::Cancel), "User cancelled elicitation request");
    match client.send_answer("lost", true, Ok("x".to_string())) {
        Err(e) => assert_eq!(e, "Process task 'lost' not found"),
        Ok(a) => panic!("a complaint: {:?}", a),
    }
}

#[test]
fn reader_waits_for_a_pattern() {
    let (mut client, mut registry, id) = running(false);
    let mut plan = read(&mut client, &mut registry, vec![
        ("task_id", Value::from(id.as_str())),
        ("wait_for", Value::from(">>>")),
    ]);
    let (mut wait, limit) = match std::mem::replace(&mut plan.mode, ReadMode::Tail(0)) {
        ReadMode::Wait { wait, limit } => (wait, limit),
        other => panic!("waiting: {:?}", other),
    };
    assert!(limit.is_none());
    let begun = wait.idle_since;
    let later = |ms| begun.plus(Span::from_millis(ms));
    let nothing = || Some((String::new(), 0));
    let first = client.wait_step_at(&plan, &mut wait, limit, ("a >".to_string(), 3), nothing(), later(50));
    assert!(matches!(first, WaitVerdict::Waiting));
    assert_eq!(client.processes.get(&id).unwrap().stdout_pos(), 3);
    let next = client.wait_step_at(&plan, &mut wait, limit, (String::new(), 3), nothing(), later(900));
    assert!(matches!(next, WaitVerdict::Waiting));
    match client.wait_step_at(&plan, &mut wait, limit, (">> ".to_string(), 6), nothing(), later(950)) {
        WaitVerdict::Shown(reply) => assert!(reply.contains("a >>> ")),
        other => panic!("shown: {:?}", other),
    }
    assert_eq!(client.processes.get(&id).unwrap().stdout_pos(), 6);
}

#[test]
fn limited_reader_waits_and_leaves_the_offsets() {
    let (mut client, mut registry, id) = running(false);
    client.processes.record_offsets(&id, 4, Some(2));
    let mut plan = read(&mut client, &mut registry, vec![
        ("task_id", Value::from(id.as_str())),
        ("wait_for", Value::from("three")),
        ("limit_lines", Value::from(2u64)),
    ]);
    let (mut wait, limit) = match std::mem::replace(&mut plan.mode, ReadMode::Tail(0)) {
        ReadMode::Wait { wait, limit } => (wait, limit),
        other => panic!("waiting: {:?}", other),
    };
    assert_eq!(limit, Some(2));
    assert_eq!((wait.stdout_pos, wait.stderr_pos), (0, Some(0)));
    let now = wait.idle_since;
    let whole = "one\ntwo\nthree\n";
    let read = (whole.to_string(), 14);
    let count = match client.wait_step_at(&plan, &mut wait, limit, read, Some(("e\n".to_string(), 2)), now) {
        WaitVerdict::ShowTail(count) => count,
        other => panic!("the last lines: {:?}", other),
    };
    let shown = plan.tail_reply(count, whole, &Some("e\n".to_string()));
    assert!(shown.contains("two\nthree\n") && !shown.contains("one"));
    let p = client.processes.get(&id).unwrap();
    assert_eq!((p.stdout_pos(), p.stderr_pos()), (4, Some(2)));
}

#[test]
fn clients_keep_their_logs_apart() {
    let path = |process: u32, number: u64| {
        let mut client = TasksClient::new(ClientId { process, number });
        let mut registry = TaskRegistry::new();
        start(
            &mut client,
            &mut registry,
            vec![("kind", Value::from("process")), ("command", Value::from("x"))],
        )
        .stdout_path
    };
    assert_eq!(path(1, 23), "/tmp/goose_task_1_23/task_1_stdout.log");
    assert_eq!(path(12, 3), "/tmp/goose_task_12_3/task_1_stdout.log");
    assert_ne!(path(1, 23), path(12, 3));
    assert_eq!(new_client().log_dir(), "/tmp/goose_task_12_3");
}

#[test]
fn reader_without_a_pattern_stops_when_output_pauses() {
    let mut wait = ReadWait::begin(None, Some(5_000), true, 0, Some(0), at(0));
    assert!(!wait.is_over(at(1_000)));
    wait.hear_stderr("oops", 4, at(1_000));
    assert_eq!(wait.stderr_pos, Some(4));
    assert!(!wait.is_over(at(1_299)));
    assert!(wait.is_over(at(1_300)));
    let quiet = ReadWait::begin(None, Some(5_000), true, 0, None, at(0));
    assert!(!quiet.is_over(at(4_999)));
    assert!(quiet.is_over(at(5_000)));
    let gone = ReadWait::begin(Some("x".to_string()), None, false, 0, None, at(0));
    assert!(gone.is_over(at(0)));
    let patient = ReadWait::begin(Some("x".to_string()), None, true, 0, None, at(0));
    assert!(!patient.is_over(at(29_999)));
    assert!(patient.is_over(at(30_000)));
}

#[test]
fn wrong_reads_are_refused() {
    let (client, mut registry, _) = running(false);
    let mut fail = |members: Option<JsonObject>| match client.handle_read_output(&mut registry, &members) {
        Err(e) => e,
        Ok(p) => panic!("a complaint: {:?}", p),
    };
    assert_eq!(fail(None), "Missing arguments");
    assert_eq!(fail(object(vec![])), "Missing 'task_id' argument");
    assert_eq!(
        fail(object(vec![("task_id", Value::from("lost"))])),
        "Process task 'lost' not found"
    );
}

#[test]
fn escapes_are_kept_on_demand() {
    let (mut client, mut registry, id) = running(true);
    let plan = read(&mut client, &mut registry, vec![
        ("task_id", Value::from(id.as_str())),
        ("strip_ansi", Value::from(false)),
    ]);
    let shown = client.take_increment(&plan, ("\u{1b}[1mx".to_string(), 5), None);
    assert!(shown.contains("\u{1b}[1mx\n"));
    assert!(!shown.contains("stderr: "));
}

#[test]
fn cancelled_task_loses_its_process() {
    let (mut client, mut registry, id) = running(false);
    let args = object(vec![("task_id", Value::from(id.as_str()))]);
    let (killed, reply) = client.handle_cancel_task(&mut registry, &args);
    assert!(killed.is_some());
    assert_eq!(reply, Ok("Task task_1 cancelled.".to_string()));
    assert_eq!(registry.get(&id).unwrap().state, TaskState::Cancelled);
    registry.remove(&id);
    let (killed, reply) = client.handle_cancel_task(&mut registry, &args);
    assert!(killed.is_none());
    assert_eq!(reply, Err("Task 'task_1' not found".to_string()));
    let (_, reply) = client.handle_cancel_task(&mut registry, &None);
    assert_eq!(reply, Err("Missing required parameter: task_id".to_string()));
}

#[test]
fn tasks_are_listed() {
    let (client, mut registry, id) = running(false);
    assert_eq!(
        client.handle_list_tasks(&registry),
        "Active tasks:\n  task_1 [process] running — cat"
    );
    registry.needs_input(&id, "?".to_string());
    let mut other = goose_tasks::start_task::new_task(
        "t".to_string(),
        TaskSource::SwarmAgent,
        "d".to_string(),
        at(0),
    );
    other.state = TaskState::Failed;
    registry.register(other);
    assert_eq!(
        client.handle_list_tasks(&registry),
        "Active tasks:\n  task_1 [process] waiting for input — cat\n  t [swarm] failed — d"
    );
    assert_eq!(client.handle_list_tasks(&TaskRegistry::new()), "No active tasks.");
}

#[test]
fn get_task_reports_and_reaps() {
    let mut client = new_client();
    let mut registry = TaskRegistry::new();
    registry.register(goose_tasks::start_task::new_task(
        "t".to_string(),
        TaskSource::McpTool,
        "d".to_string(),
        at(0),
    ));
    let (_, reply) = client.get_task_at(&mut registry, "t", at(61_000));
    assert_eq!(reply, Ok("Task t [tool] running\nSource: d\nElapsed: 1m 1s".to_string()));
    registry.needs_input_at("t", "which one?".to_string(), at(62_000));
    let (_, reply) = client.get_task_at(&mut registry, "t", at(62_000));
    assert_eq!(
        reply,
        Ok("Task t [tool] waiting for input\nSource: d\nElapsed: 1m 2s\nQuestion: which one?".to_string())
    );
    assert!(registry.get("t").is_some());
    registry.complete_at("t", None, at(63_000));
    let (_, reply) = client.get_task_at(&mut registry, "t", at(63_000));
    assert_eq!(
        reply,
        Ok("Task t [tool] completed\nSource: d\nElapsed: 1m 3s\n(no output)".to_string())
    );
    let (_, reply) = client.get_task_at(&mut registry, "t", at(63_000));
    assert_eq!(reply, Err("Task 't' not found".to_string()));
    let (_, reply) = client.handle_get_task(&mut registry, &None);
    assert_eq!(reply, Err("Missing required parameter: task_id".to_string()));
}

#[test]
fn process_table_is_drained() {
    let (mut client, _, id) = running(false);
    let all = client.processes.drain();
    assert_eq!(all.len(), 1);
    assert!(client.processes.get(&id).is_none());
}

#[test]
fn offered_tools_can_be_called() {
    let tools = task_tools();
    assert_eq!(tools.len(), 6);
    for t in &tools {
        assert!(task_tool(t.name).is_ok());
    }
    assert_eq!(task_tool("get_task"), Ok(TaskTool::GetTask));
    assert_eq!(task_tool("get"), Err("Unknown tool: get".to_string()));
    assert_eq!(tools[0].name, "start_task");
    assert_eq!(tools[0].params[0].name, "kind");
    assert!(tools[0].params[0].required);
    assert_eq!(tools[1].params[2].kind, ParamKind::Bytes);
    for t in process_tools() {
        assert!(goose_tasks::tools::process_tool(t.name).is_ok());
    }
    let good = tool_reply(Ok("fine".to_string()));
    assert_eq!((good.text.as_str(), good.is_error), ("fine", false));
    let bad = tool_reply(Err("no".to_string()));
    assert_eq!((bad.text.as_str(), bad.is_error), ("Error: no", true));
}

#[test]
fn task_is_settled_when_its_process_has_ended() {
    let (_, mut registry, id) = running(false);
    assert!(settle_step_at(&mut registry, &id, ChildState::Running, at(1)));
    assert!(!settle_step_at(&mut registry, &id, ChildState::Gone, at(2)));
    assert_eq!(registry.get(&id).unwrap().state, TaskState::Working);
    assert!(!settle_step_at(&mut registry, &id, ChildState::Ended(Some(0)), at(3)));
    assert_eq!(registry.get(&id).unwrap().state, TaskState::Completed);
    let (_, mut registry, id) = running(false);
    assert!(!settle_step_at(&mut registry, &id, ChildState::Ended(None), at(3)));
    assert_eq!(registry.get(&id).unwrap().state, TaskState::Failed);
    let (_, mut registry, id) = running(false);
    assert!(!settle_step_at(&mut registry, &id, ChildState::Unknown, at(3)));
    assert_eq!(registry.get(&id).unwrap().result_summary.as_deref(), Some("exit code: -1"));
}

fn log_from(log: &[u8], pos: u64) -> (String, u64) {
    let from = log.len().min(pos as usize);
    read_from_position(pos, log.len() as u64, &log[from..])
}

#[test]
fn reads_follow_on_whether_they_wait_or_not() {
    let (mut client, mut registry, id) = running(false);
    let me = || ("task_id", Value::from(id.as_str()));

    // Once, without waiting.
    let plan = read(&mut client, &mut registry, vec![me()]);
    let reply = client.take_increment(&plan, log_from(b"one ", 0), Some(log_from(b"E", 0)));
    assert!(reply.contains("one ") && reply.contains('E'));

    // Waiting, in three rounds of which the second brings nothing.
    let plan = read(&mut client, &mut registry, vec![me(), ("wait_for", Value::from("four"))]);
    let ReadPlan { mode: ReadMode::Wait { mut wait, limit }, .. } = plan else {
        panic!("a wait");
    };
    let plan = read(&mut client, &mut registry, vec![me()]);
    assert_eq!((wait.stdout_pos, wait.stderr_pos), (4, Some(1)));
    let logs: [&[u8]; 3] = ["one zwölf ".as_bytes(), "one zwölf ".as_bytes(), "one zwölf four ".as_bytes()];
    for (i, log) in logs.iter().enumerate() {
        let stdout = log_from(log, wait.stdout_pos);
        let stderr = wait.stderr_pos.map(|pos| log_from(b"E", pos));
        let verdict = client.wait_step_at(&plan, &mut wait, limit, stdout, stderr, at(i as u64));
        assert_eq!(matches!(verdict, WaitVerdict::Shown(_)), i == 2);
    }
    assert_eq!(wait.stdout, "zwölf four ");
    assert_eq!(wait.stderr, "");
    assert_eq!((wait.stdout_pos, wait.stderr_pos), (16, Some(1)));

    // The next read starts where that one ended.
    let plan = read(&mut client, &mut registry, vec![me()]);
    assert!(matches!(plan.mode, ReadMode::Increment { stdout_pos: 16, stderr_pos: Some(1) }));
}

#[test]
fn started_processes_get_logs_of_their_own() {
    let paths = |number: u64| {
        let mut client = TasksClient::new(ClientId { process: 1, number });
        let mut r = Vec::new();
        for use_pty in [false, true] {
            let mut a = StartArguments::read(&JsonObject::new());
            a.command = Some("true".to_string());
            a.use_pty = Some(use_pty);
            match client.start_process(a) {
                Ok(StartPlan::Process(plan)) => {
                    r.push(plan.stdout_path);
                    r.extend(plan.stderr_path);
                }
                other => panic!("a process: {:?}", other),
            }
        }
        r
    };
    let mut all = paths(1);
    all.extend(paths(2));
    assert_eq!(all.len(), 6);
    for i in 0..all.len() {
        for j in 0..i {
            assert_ne!(all[i], all[j]);
        }
    }
    let mut client = new_client();
    assert_eq!(
        client.start_process(StartArguments::read(&JsonObject::new())).unwrap_err(),
        "Missing 'command' argument"
    );
    assert_eq!(client.next_id, 1);
}

#[test]
fn task_calls_go_to_their_handlers() {
    let mut client = new_client();
    let mut registry = TaskRegistry::new();
    let start = object(vec![("kind", Value::from("process")), ("command", Value::from("cat"))]);
    let plan = match client.call_tool(&mut registry, "start_task", &start, &None) {
        TaskCall::StartTask(Ok(StartPlan::Process(plan))) => plan,
        other => panic!("a start: {:?}", other),
    };
    client.process_started(&mut registry, plan, Some(77));
    let me = || ("task_id", Value::from("task_1"));
    let input = object(vec![me(), ("input", Value::from("hi"))]);
    assert!(matches!(
        client.call_tool(&mut registry, "send_input", &input, &None),
        TaskCall::SendInput(Ok((_, SendAction::Write { .. })))
    ));
    assert!(matches!(
        client.call_tool(&mut registry, "read_output", &object(vec![me()]), &None),
        TaskCall::ReadOutput(Ok(ReadPlan { mode: ReadMode::Increment { .. }, .. }))
    ));
    match client.call_tool(&mut registry, "list_tasks", &None, &None) {
        TaskCall::Answered(None, Ok(reply)) => assert!(reply.starts_with("Active tasks:\n")),
        other => panic!("a list: {:?}", other),
    }
    assert!(matches!(
        client.call_tool(&mut registry, "get_task", &object(vec![me()]), &None),
        TaskCall::Answered(None, Ok(_))
    ));
    match client.call_tool(&mut registry, "cancel_task", &object(vec![me()]), &None) {
        TaskCall::Answered(Some(process), Ok(_)) => assert_eq!(process.child_id(), Some(77)),
        other => panic!("a reply: {:?}", other),
    }
    match client.call_tool(&mut registry, "fly", &None, &None) {
        TaskCall::Answered(None, Err(e)) => assert_eq!(e, "Unknown tool: fly"),
        other => panic!("a refusal: {:?}", other),
    }
}
