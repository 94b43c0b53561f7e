use goose_tasks::tasks::{
    make_task_summary, task_completion_message, task_completion_text, task_state_label,
    InterruptPolicy, NotifyPolicy, Outgoing, Task, TaskEvent, TaskMeta, TaskRegistry, TaskSource,
    TaskState,
};
use goose_tasks::message::{MessageContentBlock, Role, SystemNotificationType};
use goose_tasks::start_task::new_task;
use goose_tasks::time::{Moment, Span};
use serde_json::Value;
use tokio_util::sync::CancellationToken;

fn at(millis: u64) -> Moment {
    Moment { since_start: Span::from_millis(millis) }
}

fn task(id: &str, now: Moment) -> Task {
    new_task(id.to_string(), TaskSource::Process, format!("work of {}", id), now)
}

fn batch_task(id: &str, batch: &str, now: Moment) -> Task {
    let mut t = task(id, now);
    t.batch_id = Some(batch.to_string());
    t.notify_policy = NotifyPolicy::OnBatchCompletion;
    t
}

fn events(registry: &mut TaskRegistry) -> Vec<TaskEvent> {
    let mut r = Vec::new();
    for o in registry.take_outgoing() {
        match o {
            Outgoing::Event(e) => r.push(e),
            Outgoing::Fire(_) => panic!("nothing to cancel here"),
        }
    }
    r
}

#[test]
fn defaults() {
    let meta = TaskMeta::default();
    assert_eq!(meta.min_poll_interval_ms, 1000);
    assert_eq!(meta.ttl_after_completion_s, 300);
    assert!(meta.deadline.is_none());
    let policy = InterruptPolicy::default();
    assert!(policy.on_complete && policy.on_failed && policy.on_input_required);
    assert!(policy.on_pattern_matched);
    assert_eq!(NotifyPolicy::default(), NotifyPolicy::OnBatchCompletion);
}

#[test]
fn terminal_states() {
    assert!(!TaskState::Working.is_terminal());
    assert!(!TaskState::InputRequired.is_terminal());
    assert!(TaskState::Completed.is_terminal());
    assert!(TaskState::Failed.is_terminal());
    assert!(TaskState::Cancelled.is_terminal());
}

#[test]
fn registered_task_is_found() {
    let mut r = TaskRegistry::new();
    assert!(r.get("a").is_none());
    r.register(task("a", at(0)));
    r.register(task("b", at(1)));
    assert_eq!(r.get("a").unwrap().description, "work of a");
    assert_eq!(r.list().len(), 2);
    let mut again = task("a", at(2));
    again.description = "other".to_string();
    r.register(again);
    assert_eq!(r.list().len(), 2);
    assert_eq!(r.get("a").unwrap().description, "other");
    assert_eq!(r.list()[0].id, "a");
}

#[test]
fn completion_tells_and_counts_the_work() {
    let mut r = TaskRegistry::new();
    r.register(task("a", at(1000)));
    r.complete_at("a", Some("done".to_string()), at(4000));
    let t = r.get("a").unwrap();
    assert_eq!(t.state, TaskState::Completed);
    assert_eq!(t.worked_duration, Span::from_secs(3));
    assert_eq!(t.last_activity, at(4000));
    assert_eq!(t.result_summary.as_deref(), Some("done"));
    assert_eq!(t.status_message.as_deref(), Some("done"));
    let told = events(&mut r);
    assert_eq!(told.len(), 1);
    match &told[0] {
        TaskEvent::TaskCompleted { task } => {
            assert_eq!(task.id, "a");
            assert_eq!(task.state, TaskState::Completed);
            assert_eq!(task.duration, Span::from_secs(3));
            assert_eq!(task.result_summary.as_deref(), Some("done"));
        }
        _ => panic!("a completion"),
    }
    assert!(events(&mut r).is_empty());
}

#[test]
fn an_ended_task_stays_as_it_ended() {
    let mut r = TaskRegistry::new();
    r.register(task("a", at(0)));
    r.fail_at("a", Some("broken".to_string()), at(10));
    assert_eq!(events(&mut r).len(), 1);
    r.complete_at("a", Some("late".to_string()), at(20));
    r.cancel_at("a", at(30));
    let t = r.get("a").unwrap();
    assert_eq!(t.state, TaskState::Failed);
    assert_eq!(t.result_summary.as_deref(), Some("broken"));
    assert_eq!(t.last_activity, at(10));
    assert!(events(&mut r).is_empty());
}

#[test]
fn no_transition_follows_an_end() {
    let mut r = TaskRegistry::new();
    r.register(task("a", at(0)));
    r.transition("lost", TaskState::Failed, None, at(1));
    r.cancel_at("a", at(1));
    events(&mut r);
    let told = make_task_summary(r.get("a").unwrap(), at(9)).duration;
    for state in [TaskState::Working, TaskState::Completed, TaskState::Failed] {
        r.transition("a", state, Some("late".to_string()), at(7));
        let t = r.get("a").unwrap();
        assert_eq!(t.state, TaskState::Cancelled);
        assert_eq!(t.result_summary.as_deref(), Some("cancelled"));
        assert_eq!(t.last_activity, at(1));
    }
    assert_eq!(make_task_summary(r.get("a").unwrap(), at(9)).duration, told);
    assert!(events(&mut r).is_empty());
}

#[test]
fn quiet_policies_tell_nothing() {
    let mut r = TaskRegistry::new();
    let mut quiet = task("a", at(0));
    quiet.notify_policy = NotifyPolicy::Informational;
    r.register(quiet);
    let mut muted = task("b", at(0));
    muted.meta.interrupt_on.on_complete = false;
    r.register(muted);
    r.complete_at("a", None, at(1));
    r.complete_at("b", None, at(1));
    assert!(events(&mut r).is_empty());
    r.register(task("c", at(0)));
    r.cancel_at("c", at(1));
    assert!(events(&mut r).is_empty());
    assert_eq!(r.get("c").unwrap().state, TaskState::Cancelled);
    assert_eq!(r.get("c").unwrap().result_summary.as_deref(), Some("cancelled"));
}

#[test]
fn structured_results_and_errors_are_kept() {
    let mut r = TaskRegistry::new();
    r.register(task("a", at(0)));
    r.register(task("b", at(0)));
    r.complete_with_result_at("a", Value::from(7u64), Some("seven".to_string()), at(5));
    r.fail_with_error_at("b", Value::from("why"), Some("bad".to_string()), at(6));
    let a = r.get("a").unwrap();
    assert_eq!(a.state, TaskState::Completed);
    assert_eq!(a.result, Some(Value::from(7u64)));
    assert_eq!(a.status_message.as_deref(), Some("seven"));
    assert!(a.result_summary.is_none());
    let b = r.get("b").unwrap();
    assert_eq!(b.state, TaskState::Failed);
    assert_eq!(b.error, Some(Value::from("why")));
    let told = events(&mut r);
    match &told[0] {
        TaskEvent::TaskCompleted { task } => assert_eq!(task.result, Some(Value::from(7u64))),
        _ => panic!("a completion"),
    }
    match &told[1] {
        TaskEvent::TaskCompleted { task } => assert_eq!(task.error, Some(Value::from("why"))),
        _ => panic!("a completion"),
    }
}

#[test]
fn cancelling_fires_the_handle_first() {
    let mut r = TaskRegistry::new();
    let token = CancellationToken::new();
    let mut t = task("a", at(0));
    t.cancellation_token = Some(token.clone());
    r.register(t);
    r.cancel_at("a", at(1));
    let out = r.take_outgoing();
    assert_eq!(out.len(), 1);
    assert!(!token.is_cancelled());
    match &out[0] {
        Outgoing::Fire(handle) => handle.cancel(),
        Outgoing::Event(_) => panic!("no event"),
    }
    assert!(token.is_cancelled());
}

#[test]
fn batch_is_told_with_its_last_task() {
    let mut r = TaskRegistry::new();
    r.register(batch_task("a", "x", at(0)));
    r.register(batch_task("b", "x", at(0)));
    r.register(batch_task("c", "y", at(0)));
    r.complete_at("a", None, at(1000));
    assert!(events(&mut r).is_empty());
    r.fail_at("b", Some("no".to_string()), at(2000));
    let told = events(&mut r);
    assert_eq!(told.len(), 1);
    match &told[0] {
        TaskEvent::BatchCompleted { batch_id, task_summaries } => {
            assert_eq!(batch_id, "x");
            assert_eq!(task_summaries.len(), 2);
            assert_eq!(task_summaries[0].id, "a");
            assert_eq!(task_summaries[0].duration, Span::from_secs(1));
            assert_eq!(task_summaries[1].id, "b");
            assert_eq!(task_summaries[1].state, TaskState::Failed);
        }
        _ => panic!("a batch"),
    }
}

#[test]
fn waiting_for_input_is_not_work() {
    let mut r = TaskRegistry::new();
    r.register(task("a", at(0)));
    r.needs_input_at("a", "which?".to_string(), at(1000));
    let t = r.get("a").unwrap();
    assert_eq!(t.state, TaskState::InputRequired);
    assert_eq!(t.input_request.as_deref(), Some("which?"));
    match &events(&mut r)[0] {
        TaskEvent::TaskNeedsInput { task_id, question } => {
            assert_eq!(task_id, "a");
            assert_eq!(question, "which?");
        }
        _ => panic!("a question"),
    }
    r.resume_at("a", at(60_000));
    assert_eq!(r.get("a").unwrap().state, TaskState::Working);
    r.complete_at("a", None, at(62_000));
    assert_eq!(r.get("a").unwrap().worked_duration, Span::from_secs(3));
    r.resume_at("a", at(63_000));
    assert_eq!(r.get("a").unwrap().state, TaskState::Completed);
}

#[test]
fn matched_pattern_leaves_the_task_working() {
    let mut r = TaskRegistry::new();
    r.register(task("a", at(0)));
    r.pattern_matched_at("a", "ready".to_string(), "server ready".to_string(), at(5));
    let t = r.get("a").unwrap();
    assert_eq!(t.state, TaskState::Working);
    assert_eq!(t.status_message.as_deref(), Some("Pattern 'ready' matched"));
    assert_eq!(t.notifications.len(), 1);
    assert_eq!(t.notifications[0].message, "pattern matched: ready");
    assert_eq!(t.notifications[0].timestamp, at(5));
    match &events(&mut r)[0] {
        TaskEvent::PatternMatched { task_id, pattern, context } => {
            assert_eq!(task_id, "a");
            assert_eq!(pattern, "ready");
            assert_eq!(context, "server ready");
        }
        _ => panic!("a pattern"),
    }
    r.notify_at("a", "half way".to_string(), at(6));
    assert_eq!(r.get("a").unwrap().notifications[1].message, "half way");
    assert!(events(&mut r).is_empty());
}

#[test]
fn running_and_finished() {
    let mut r = TaskRegistry::new();
    r.register(task("a", at(0)));
    r.register(task("b", at(0)));
    r.register(task("c", at(0)));
    r.needs_input_at("a", "?".to_string(), at(1));
    r.complete_at("c", None, at(1));
    assert_eq!(r.running().len(), 1);
    assert_eq!(r.running()[0].id, "b");
    assert_eq!(r.finished().len(), 1);
    assert_eq!(r.finished()[0].id, "c");
}

#[test]
fn removal_undoes_registration() {
    let mut r = TaskRegistry::new();
    r.register(task("a", at(0)));
    r.register(task("b", at(0)));
    assert_eq!(r.remove("b").unwrap().id, "b");
    assert!(r.remove("b").is_none());
    assert_eq!(r.list().len(), 1);
}

#[test]
fn collection_drops_what_is_over_for_long_enough() {
    let mut r = TaskRegistry::new();
    r.register(task("done", at(0)));
    r.register(task("busy", at(0)));
    r.complete_at("done", None, at(1_000));
    r.gc_at(at(300_999));
    assert!(r.get("done").is_some());
    r.gc_at(at(301_000));
    assert!(r.get("done").is_none());
    assert!(r.get("busy").is_some());
}

#[test]
fn get_mut_changes_one_task() {
    let mut r = TaskRegistry::new();
    r.register(task("a", at(0)));
    r.get_mut("a").unwrap().description = "changed".to_string();
    assert_eq!(r.get("a").unwrap().description, "changed");
    assert!(r.get_mut("b").is_none());
    r.touch_at("a", at(9));
    assert_eq!(r.get("a").unwrap().last_activity, at(9));
}

#[test]
fn operations_by_the_clock() {
    let mut r = TaskRegistry::new();
    let now = r.now();
    r.register(task("a", now));
    r.register(task("b", now));
    r.register(task("c", now));
    r.notify("a", "n".to_string());
    r.pattern_matched("a", "p".to_string(), "line p".to_string());
    r.needs_input("a", "q".to_string());
    r.resume("a");
    r.complete("a", None);
    r.fail("b", None);
    r.cancel("c");
    assert_eq!(r.get("a").unwrap().state, TaskState::Completed);
    assert_eq!(r.get("b").unwrap().state, TaskState::Failed);
    assert_eq!(r.get("c").unwrap().state, TaskState::Cancelled);
    assert!(r.get("a").unwrap().worked_duration.nanos < Span::from_secs(60).nanos);
    r.gc();
    assert_eq!(r.list().len(), 3);
    r.register(task("d", now));
    r.complete_with_result("d", Value::from(true), None);
    assert_eq!(r.get("d").unwrap().result, Some(Value::from(true)));
    r.register(task("e", now));
    r.fail_with_error("e", Value::from(1u64), None);
    assert_eq!(r.get("e").unwrap().error, Some(Value::from(1u64)));
}

#[test]
fn summary_of_a_working_task_counts_up_to_now() {
    let t = task("a", at(1000));
    let s = make_task_summary(&t, at(3500));
    assert_eq!(s.duration, Span::from_millis(2500));
    assert_eq!(s.state, TaskState::Working);
    assert_eq!(s.description, "work of a");
}

#[test]
fn completion_texts() {
    assert_eq!(task_state_label(&TaskState::Completed), "completed");
    assert_eq!(task_state_label(&TaskState::Failed), "failed");
    assert_eq!(task_state_label(&TaskState::Cancelled), "cancelled");
    assert_eq!(task_state_label(&TaskState::Working), "finished");
    let text = task_completion_text("task_1", "build", &TaskState::Failed, "exit code: 2");
    assert_eq!(text, "System: Background task 'task_1' (build) failed.\nResult: exit code: 2");
    let m = task_completion_message("task_1", "build", &TaskState::Failed, "exit code: 2");
    assert_eq!(m.role, Role::User);
    assert!(m.user_visible && m.agent_visible && !m.steer);
    assert_eq!(m.content.len(), 2);
    match &m.content[0] {
        MessageContentBlock::Text(t) => assert_eq!(t, &text),
        _ => panic!("text first"),
    }
    match &m.content[1] {
        MessageContentBlock::SystemNotification { notification_type, msg } => {
            assert_eq!(*notification_type, SystemNotificationType::InlineMessage);
            assert_eq!(msg, &text);
        }
        _ => panic!("then the notification"),
    }
}

#[test]
fn nothing_revives_an_ended_task() {
    let mut r = TaskRegistry::new();
    r.register(task("a", at(0)));
    r.cancel_at("a", at(5));
    r.needs_input_at("a", "why?".to_string(), at(6));
    r.complete_with_result_at("a", Value::from(1u64), Some("late".to_string()), at(7));
    r.fail_with_error_at("a", Value::from(2u64), Some("later".to_string()), at(8));
    r.resume_at("a", at(9));
    let t = r.get("a").unwrap();
    assert_eq!(t.state, TaskState::Cancelled);
    assert!(t.result.is_none() && t.error.is_none() && t.input_request.is_none());
    assert_eq!(t.status_message.as_deref(), Some("cancelled"));
    assert_eq!(t.last_activity, at(5));
    assert!(events(&mut r).is_empty());
    r.complete_at("missing", None, at(10));
    assert_eq!(r.list().len(), 1);
}

#[test]
fn all_work_counts() {
    let mut r = TaskRegistry::new();
    r.register(task("a", at(1_000)));
    r.notify_at("a", "n".to_string(), at(2_000));
    r.pattern_matched_at("a", "p".to_string(), "a p".to_string(), at(4_000));
    r.touch_at("a", at(7_000));
    r.complete_at("a", None, at(11_000));
    assert_eq!(r.get("a").unwrap().worked_duration, Span::from_secs(10));
}

#[test]
fn moments_never_go_back() {
    let mut r = TaskRegistry::new();
    let first = r.tick();
    let second = r.tick();
    assert!(second.has_reached(first));
    assert!(r.now().has_reached(second));
}
