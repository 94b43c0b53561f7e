use goose_tasks::arguments::JsonObject;
use goose_tasks::calls::ProcessCall;
use goose_tasks::jobs::{JobEvent, JobRegistry, JobSource, JobState};
use goose_tasks::output::PatternWatch;
use goose_tasks::process::{ChildState, WriteAction};
use goose_tasks::process_client::{
    is_in_range, job_line_text, process_stopped_at, settle_job_at, settle_job_step_at,
    watch_job_line_at, JobPlan, JobStart, OutputStream, ProcessClient, ReminderOutcome, StopPlan,
};
use goose_tasks::time::{Moment, Span};
use goose_tasks::tools::{process_tool, ProcessTool};
use serde_json::Value;

fn at(millis: u64) -> Moment {
    Moment { since_start: Span::from_millis(millis) }
}

fn object(members: Vec<(&str, Value)>) -> Option<JsonObject> {
    let mut o = JsonObject::new();
    for (k, v) in members {
        o.insert(k.to_string(), v);
    }
    Some(o)
}

fn planned(start: Result<JobStart, String>) -> JobPlan {
    match start {
        Ok(JobStart::Planned(plan)) => plan,
        other => panic!("a plan: {:?}", other),
    }
}

fn running() -> (ProcessClient, JobRegistry) {
    let mut client = ProcessClient::new();
    let mut registry = JobRegistry::new();
    let args = object(vec![("command", Value::from("serve")), ("wait_for", Value::from("up"))]);
    let plan = planned(client.handle_start(&args));
    assert_eq!(plan.wait_for.as_deref(), Some("up"));
    let reply = client.process_started_at(&mut registry, plan, at(0));
    assert_eq!(
        reply,
        "Process started with handle: proc_1\nCommand: serve\n\n\
         Use read_output(\"proc_1\") to check output, write_stdin(\"proc_1\", ...) to send input, \
         stop_process(\"proc_1\") to terminate."
    );
    (client, registry)
}

fn me() -> (&'static str, Value) {
    ("process_id", Value::from("proc_1"))
}

#[test]
fn process_is_started_as_a_job() {
    let (client, registry) = running();
    let j = registry.get("proc_1").unwrap();
    assert_eq!(j.source, JobSource::Process);
    assert_eq!(j.description, "serve");
    assert_eq!(client.next_id, 2);
    let mut client = ProcessClient::new();
    assert_eq!(client.handle_start(&None).unwrap_err(), "Missing arguments");
    assert_eq!(client.handle_start(&object(vec![])).unwrap_err(), "Missing 'command' argument");
    assert_eq!(client.next_id, 1);
}

#[test]
fn output_is_read_by_the_last_lines() {
    let (mut client, mut registry) = running();
    assert_eq!(
        client.handle_read_output(&object(vec![me()])),
        Ok("# Process proc_1 (running)\n\n\n\n---\n0 lines total".to_string())
    );
    client.add_line("proc_1", OutputStream::Stdout, "one");
    client.add_line("proc_1", OutputStream::Stderr, "two");
    client.add_line("lost", OutputStream::Stderr, "two");
    assert_eq!(
        client.handle_read_output(&object(vec![me()])),
        Ok("# Process proc_1 (running)\n\n[stdout] one\n[stderr] two\n\n---\n2 lines total".to_string())
    );
    for i in 0..49 {
        client.add_line("proc_1", OutputStream::Stdout, &format!("{}", i));
    }
    client.processes.set_running("proc_1", false);
    let shown = client.handle_read_output(&object(vec![me()])).unwrap();
    assert!(shown.starts_with(
        "# Process proc_1 (exited)\n\n(51 lines total, showing last 50)\n[stderr] two\n[stdout] 0\n"
    ));
    assert!(shown.ends_with("[stdout] 48\n\n---\n51 lines total"));
    assert_eq!(client.handle_read_output(&None), Err("Missing arguments".to_string()));
    assert_eq!(
        client.handle_read_output(&object(vec![])),
        Err("Missing 'process_id' argument".to_string())
    );
    assert_eq!(
        client.handle_read_output(&object(vec![("process_id", Value::from("x"))])),
        Err("Process 'x' not found".to_string())
    );
    settle_job_at(&mut registry, "proc_1", Some(-2), at(9));
    assert_eq!(registry.get("proc_1").unwrap().result_summary.as_deref(), Some("exit code: -2"));
}

#[test]
fn line_is_written_to_a_process() {
    let (client, _) = running();
    let (steps, reply) = client
        .handle_write_stdin(&object(vec![me(), ("input", Value::from("hi"))]))
        .unwrap();
    assert_eq!(reply, "Wrote to proc_1: hi");
    assert_eq!(steps.len(), 3);
    assert!(matches!(&steps[0].action, WriteAction::Write(b) if b == b"hi"));
    assert!(matches!(&steps[1].action, WriteAction::Write(b) if b == b"\n"));
    assert!(matches!(&steps[2].action, WriteAction::Flush));
    assert_eq!(steps[2].failure_text("e"), "Failed to flush stdin: e");
    assert_eq!(client.handle_write_stdin(&None).unwrap_err(), "Missing arguments");
    assert_eq!(
        client.handle_write_stdin(&object(vec![])).unwrap_err(),
        "Missing 'process_id' argument"
    );
    assert_eq!(
        client.handle_write_stdin(&object(vec![me()])).unwrap_err(),
        "Missing 'input' argument"
    );
    assert_eq!(
        client.write_line(Some("x".to_string()), Some("y".to_string())).unwrap_err(),
        "Process 'x' not found"
    );
}

#[test]
fn job_is_stopped() {
    let (mut client, mut registry) = running();
    match client.handle_stop(&mut registry, &object(vec![me()])) {
        Ok(StopPlan::Kill { id }) => assert_eq!(id, "proc_1"),
        other => panic!("a process: {:?}", other),
    }
    assert!(client.processes.get("proc_1").is_none());
    assert_eq!(registry.get("proc_1").unwrap().state, JobState::Working);
    assert_eq!(
        process_stopped_at(&mut registry, "proc_1", Some(9), at(3)),
        "Process proc_1 stopped. Exit code: Some(9)"
    );
    assert_eq!(registry.get("proc_1").unwrap().state, JobState::Canceled);
    assert_eq!(
        process_stopped_at(&mut registry, "proc_1", None, at(3)),
        "Process proc_1 stopped. Exit code: None"
    );
    match client.handle_stop(&mut registry, &object(vec![me()])) {
        Ok(StopPlan::Canceled { reply }) => assert_eq!(reply, "Job proc_1 canceled."),
        other => panic!("a job: {:?}", other),
    }
    registry.remove("proc_1");
    assert_eq!(
        client.handle_stop(&mut registry, &object(vec![me()])).unwrap_err(),
        "Job 'proc_1' not found"
    );
    assert_eq!(client.handle_stop(&mut registry, &None).unwrap_err(), "Missing arguments");
    assert_eq!(
        client.handle_stop(&mut registry, &object(vec![])).unwrap_err(),
        "Missing 'process_id' argument"
    );
}

#[test]
fn reminder_is_scheduled_and_listed() {
    let mut client = ProcessClient::new();
    let mut registry = JobRegistry::new();
    assert_eq!(client.handle_list_jobs(&mut registry), "No active jobs.");
    let args = object(vec![("delay", Value::from("1h 30m")), ("message", Value::from("tea"))]);
    let plan = match client.handle_schedule_reminder(&mut registry, &args) {
        Ok(ReminderOutcome::Scheduled(plan)) => plan,
        other => panic!("a reminder: {:?}", other),
    };
    assert_eq!(plan.id, "timer_1");
    assert_eq!(plan.delay, Span::from_secs(5400));
    assert_eq!(plan.reply, "Reminder scheduled: tea (fires in 1h 30m). Job ID: timer_1");
    let deadline = registry.get("timer_1").unwrap().meta.deadline.unwrap();
    let before = Moment { since_start: Span { nanos: deadline.since_start.nanos - 90_000_000_000 } };
    assert_eq!(
        client.list_jobs_at(&registry, before),
        "• timer_1 [timer] Working (1m 30s remaining): \"tea\""
    );
    assert_eq!(
        client.list_jobs_at(&registry, deadline),
        "• timer_1 [timer] Working (firing...): \"tea\""
    );
    registry.complete(&plan.id, Some(plan.message));
    match &registry.take_events()[0] {
        JobEvent::JobCompleted { job } => assert_eq!(job.description, "tea"),
        other => panic!("a completion: {:?}", other),
    }
    assert_eq!(client.handle_list_jobs(&mut registry), "No active jobs.");
}

#[test]
fn wrong_reminders_are_refused() {
    let mut client = ProcessClient::new();
    let mut registry = JobRegistry::new();
    let mut call = |members: Option<JsonObject>| client.handle_schedule_reminder(&mut registry, &members);
    assert_eq!(call(None).unwrap_err(), "Missing arguments");
    assert_eq!(call(object(vec![])).unwrap_err(), "Missing 'delay' argument");
    assert_eq!(
        call(object(vec![("delay", Value::from("5s"))])).unwrap_err(),
        "Missing 'message' argument"
    );
    let e = call(object(vec![("delay", Value::from("soon")), ("message", Value::from("m"))])).unwrap_err();
    assert_eq!(e, "Invalid delay 'soon': expected number at 0");
    match call(object(vec![("delay", Value::from("600000000000y")), ("message", Value::from("m"))])) {
        Ok(ReminderOutcome::Unread { delay, message }) => {
            assert_eq!((delay.as_str(), message.as_str()), ("600000000000y", "m"));
        }
        other => panic!("unread: {:?}", other),
    }
    assert_eq!(client.next_id, 1);
    let plan = client
        .remind_at(&mut registry, "123456789012ns", "m".to_string(), Ok((123, 456_789_012)), at(0))
        .unwrap();
    assert_eq!(plan.reply, "Reminder scheduled: m (fires in 2m 3s 456ms 789us 12ns). Job ID: timer_1");
    assert_eq!(registry.get("timer_1").unwrap().meta.deadline, Some(Moment { since_start: plan.delay }));
}

#[test]
fn long_delays_are_scheduled() {
    let mut client = ProcessClient::new();
    let mut registry = JobRegistry::new();
    let args = object(vec![("delay", Value::from("123456789012ns 1h")), ("message", Value::from("m"))]);
    match client.handle_schedule_reminder(&mut registry, &args) {
        Ok(ReminderOutcome::Scheduled(plan)) => {
            assert_eq!(plan.delay, Span::from_parts(3723, 456_789_012));
        }
        other => panic!("a reminder: {:?}", other),
    }
    assert!(is_in_range("18446744073709551615s"));
    assert!(!is_in_range("18446744073709551615s 1s"));
    assert!(!is_in_range("18446744073709551615s 1000ms"));
    assert!(is_in_range("307445734561825860 min"));
    assert!(!is_in_range("307445734561825861 min"));
    assert!(is_in_range("18446744073709551615ms"));
    assert!(is_in_range("99999999999999999999999999"));
}

#[test]
fn signalled_process_fails_its_job() {
    let (_, mut registry) = running();
    settle_job_at(&mut registry, "proc_1", None, at(9));
    let j = registry.get("proc_1").unwrap();
    assert_eq!(j.state, JobState::Failed);
    assert_eq!(j.result_summary.as_deref(), Some("exit code: -1"));
}

#[test]
fn working_jobs_are_listed() {
    let (client, mut registry) = running();
    assert_eq!(client.handle_list_jobs(&mut registry), "• proc_1 [process] Working: \"serve\"");
    registry.get_mut("proc_1").unwrap().source = JobSource::McpTool;
    assert_eq!(
        job_line_text(registry.get("proc_1").unwrap(), "", at(0)),
        "• proc_1 [job] Working: \"serve\""
    );
}

#[test]
fn job_pattern_is_told_once() {
    let (_, mut registry) = running();
    let mut watch = PatternWatch::new(Some("up".to_string()));
    for line in ["starting", "server up", "still up"] {
        watch_job_line_at(&mut watch, &mut registry, "proc_1", line, at(1));
    }
    let told = registry.take_events();
    assert_eq!(told.len(), 1);
    match &told[0] {
        JobEvent::PatternMatched { context, .. } => assert_eq!(context, "server up"),
        other => panic!("a pattern: {:?}", other),
    }
}

#[test]
fn process_tools_are_dispatched() {
    assert_eq!(process_tool("write_stdin"), Ok(ProcessTool::WriteStdin));
    assert_eq!(process_tool("start_task"), Err("Unknown tool: start_task".to_string()));
}

#[test]
fn last_identifier_is_not_given_out() {
    let mut client = ProcessClient::new();
    let mut registry = JobRegistry::new();
    client.next_id = u32::MAX - 1;
    let start = object(vec![("command", Value::from("true"))]);
    assert_eq!(planned(client.handle_start(&start)).id, "proc_4294967294");
    assert!(matches!(client.handle_start(&start), Ok(JobStart::NoMoreIds)));
    // What is wrong with the arguments is told first.
    assert_eq!(client.handle_start(&None).unwrap_err(), "Missing arguments");
    let remind = |delay: &str| {
        object(vec![("delay", Value::from(delay)), ("message", Value::from("m"))])
    };
    assert!(matches!(
        client.handle_schedule_reminder(&mut registry, &remind("5s")),
        Ok(ReminderOutcome::NoMoreIds)
    ));
    assert_eq!(
        client.handle_schedule_reminder(&mut registry, &remind("soon")).unwrap_err(),
        "Invalid delay 'soon': expected number at 0"
    );
    assert!(client
        .remind_at(&mut registry, "soon", "m".to_string(), Err("no".to_string()), at(0))
        .is_err());
    assert_eq!(client.next_id, u32::MAX);
    assert!(registry.list().is_empty());
}

#[test]
fn delay_of_a_reminder_is_read_ahead() {
    let delay = |members| ProcessClient::reminder_delay(&object(members));
    let m = || ("message", Value::from("m"));
    assert_eq!(delay(vec![("delay", Value::from("1m 5ms")), m()]), Some((60, 5_000_000)));
    assert_eq!(delay(vec![("delay", Value::from("1m"))]), None);
    assert_eq!(delay(vec![m()]), None);
    assert_eq!(delay(vec![("delay", Value::from("soon")), m()]), None);
    assert_eq!(delay(vec![("delay", Value::from("600000000000y")), m()]), None);
    assert_eq!(ProcessClient::reminder_delay(&None), None);
}

#[test]
fn job_is_settled_when_its_process_has_ended() {
    let (_, mut registry) = running();
    assert!(settle_job_step_at(&mut registry, "proc_1", ChildState::Running, at(1)));
    assert!(!settle_job_step_at(&mut registry, "proc_1", ChildState::Gone, at(2)));
    assert_eq!(registry.get("proc_1").unwrap().state, JobState::Working);
    assert!(!settle_job_step_at(&mut registry, "proc_1", ChildState::Ended(Some(0)), at(3)));
    assert_eq!(registry.get("proc_1").unwrap().state, JobState::Completed);
    let (_, mut registry) = running();
    assert!(!settle_job_step_at(&mut registry, "proc_1", ChildState::Unknown, at(3)));
    assert_eq!(registry.get("proc_1").unwrap().state, JobState::Failed);
}

#[test]
fn process_calls_go_to_their_handlers() {
    let mut client = ProcessClient::new();
    let mut registry = JobRegistry::new();
    let start = object(vec![("command", Value::from("serve"))]);
    let plan = match client.call_tool(&mut registry, "start_process", &start) {
        ProcessCall::StartProcess(start) => planned(start),
        other => panic!("a start: {:?}", other),
    };
    assert_eq!(plan.id, "proc_1");
    client.process_started_at(&mut registry, plan, at(0));
    match client.call_tool(&mut registry, "read_output", &object(vec![me()])) {
        ProcessCall::Answered(Ok(reply)) => assert!(reply.starts_with("# Process proc_1 (running)")),
        other => panic!("a reply: {:?}", other),
    }
    let line = object(vec![me(), ("input", Value::from("hi"))]);
    match client.call_tool(&mut registry, "write_stdin", &line) {
        ProcessCall::WriteStdin(Ok((_, reply))) => assert_eq!(reply, "Wrote to proc_1: hi"),
        other => panic!("steps: {:?}", other),
    }
    let remind = object(vec![("delay", Value::from("5s")), ("message", Value::from("m"))]);
    assert!(matches!(
        client.call_tool(&mut registry, "schedule_reminder", &remind),
        ProcessCall::ScheduleReminder(Ok(ReminderOutcome::Scheduled(_)))
    ));
    match client.call_tool(&mut registry, "list_jobs", &None) {
        ProcessCall::Answered(Ok(reply)) => {
            assert!(reply.contains("proc_1") && reply.contains("timer_2"));
        }
        other => panic!("a list: {:?}", other),
    }
    assert!(matches!(
        client.call_tool(&mut registry, "stop_process", &object(vec![me()])),
        ProcessCall::StopProcess(Ok(StopPlan::Kill { .. }))
    ));
    match client.call_tool(&mut registry, "fly", &None) {
        ProcessCall::Answered(Err(e)) => assert_eq!(e, "Unknown tool: fly"),
        other => panic!("a refusal: {:?}", other),
    }
}
