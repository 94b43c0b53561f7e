use goose_tasks::input_thread::{
    start, step, Happening, InputAction, InputCommand, InputEvent, InputResult, InputState,
    InterruptState, Poll,
};
use goose_tasks::message::{Message, MessageContentBlock};
use goose_tasks::start_task::new_task;
use goose_tasks::steer::SteerOperation;
use goose_tasks::task_notification::TaskNotificationOperation;
use goose_tasks::task_watcher::{
    batch_line_text, batch_prompt_text, completed_prompt_text, queue_event, synthesize_prompt,
};
use goose_tasks::tasks::{
    make_task_summary, TaskEvent, TaskRegistry, TaskSource, TaskState, TaskSummary,
};
use goose_tasks::time::{Moment, Span};
use goose_tasks::turn_queue::{combine_inputs, TurnInput, TurnQueue};

fn at(millis: u64) -> Moment {
    Moment { since_start: Span::from_millis(millis) }
}

fn text_of(m: &Message) -> String {
    match &m.content[0] {
        MessageContentBlock::Text(t) => t.clone(),
        _ => panic!("text"),
    }
}

fn finished(id: &str, state: TaskState) -> TaskRegistry {
    let mut r = TaskRegistry::new();
    r.register(new_task(id.to_string(), TaskSource::Process, "build".to_string(), at(0)));
    r.register(new_task("other".to_string(), TaskSource::Timer, "wait".to_string(), at(0)));
    match state {
        TaskState::Completed => r.complete_at(id, Some("fine".to_string()), at(1)),
        _ => r.fail_at(id, None, at(1)),
    }
    r
}

#[test]
fn turn_queue_keeps_the_order() {
    let mut q = TurnQueue::new();
    assert!(q.is_empty());
    assert!(q.try_flush().is_none());
    q.push_user("hello".to_string());
    q.push_system("System: done".to_string());
    assert!(!q.is_empty());
    let m = q.try_flush().unwrap();
    assert_eq!(text_of(&m), "hello\n\nSystem: done");
    assert!(q.is_empty());
    q.push_user("alone".to_string());
    assert_eq!(text_of(&q.flush()), "alone");
    assert!(TurnQueue::default().is_empty());
    assert_eq!(combine_inputs(&[TurnInput::User("a".into()), TurnInput::System("b".into())]), "a\n\nb");
}

#[test]
fn each_input_is_handed_over_to_one() {
    let mut q = TurnQueue::new();
    let mut taken = Vec::new();
    q.push_user("a".to_string());
    q.push_system("b".to_string());
    taken.extend(q.try_flush());
    taken.extend(q.try_flush());
    q.push_user("c".to_string());
    taken.extend(q.try_flush());
    q.push_user("d".to_string());
    let texts: Vec<String> = taken.iter().map(text_of).collect();
    assert_eq!(texts, vec!["a\n\nb".to_string(), "c".to_string()]);
    assert_eq!(text_of(&q.flush()), "d");
}

#[test]
fn steering_takes_guidance_and_finished_tasks() {
    let mut r = finished("task_1", TaskState::Completed);
    let mut op = SteerOperation::new();
    assert_eq!(op.name(), "steer");
    op.push(Message::user().with_text("stop".to_string()));
    op.push(Message::user().with_text("and look".to_string()));
    let busy = op.run(&mut r, false, false);
    assert!(busy.notice.is_none() && busy.steers.is_empty());
    assert_eq!(op.queue.len(), 2);
    let out = op.run(&mut r, false, true);
    let notice = out.notice.unwrap();
    assert_eq!(
        text_of(&notice),
        "System: Background task 'task_1' (build) completed.\nResult: fine"
    );
    assert!(!notice.user_visible && notice.agent_visible);
    assert_eq!(out.steers.len(), 2);
    assert_eq!(text_of(&out.steers[0]), "stop");
    assert!(out.steers[0].steer && out.steers[1].steer);
    assert!(r.get("task_1").is_none() && r.get("other").is_some());
    let again = op.run(&mut r, true, false);
    assert!(again.notice.is_none() && again.steers.is_empty());
}

#[test]
fn finished_tasks_are_told_of_once() {
    let mut r = finished("task_1", TaskState::Failed);
    let op = TaskNotificationOperation::new();
    assert_eq!(op.name(), "task_notification");
    assert!(op.run(&mut r, false, false).is_none());
    let told = op.run(&mut r, true, false).unwrap();
    assert_eq!(told.len(), 1);
    assert_eq!(text_of(&told[0]), "System: Background task 'task_1' (build) failed.\nResult: ");
    assert!(op.run(&mut r, true, false).is_none());
    assert_eq!(r.list().len(), 1);
}

fn summary(source: TaskSource, state: TaskState) -> TaskSummary {
    let mut t = new_task("task_7".to_string(), source, "tea".to_string(), at(0));
    t.worked_duration = Span::from_millis(2600);
    t.state = state;
    make_task_summary(&t, at(0))
}

#[test]
fn prompts_on_events() {
    let done = TaskEvent::TaskCompleted { task: summary(TaskSource::Process, TaskState::Completed) };
    assert_eq!(
        synthesize_prompt(&done),
        "System: Background task task_7 \"tea\" has ✓ completed (3s).\n\
         Use tasks__read_output(process_id: \"task_7\") to see the output."
    );
    let timer = summary(TaskSource::Timer, TaskState::Failed);
    assert_eq!(
        completed_prompt_text(&timer, "3s"),
        "System: Background task task_7 \"tea\" has ✗ failed (3s).\n\
         The reminder message was: \"tea\""
    );
    let agent = summary(TaskSource::Subagent, TaskState::Cancelled);
    assert_eq!(
        completed_prompt_text(&agent, "3s"),
        "System: Background task task_7 \"tea\" has finished (3s).\n\
         Use get_task(task_id: \"task_7\") or load(source: \"task_7\") to examine the result."
    );
    let batch = TaskEvent::BatchCompleted {
        batch_id: "b".to_string(),
        task_summaries: vec![
            summary(TaskSource::Process, TaskState::Completed),
            summary(TaskSource::Process, TaskState::Cancelled),
        ],
    };
    assert_eq!(
        synthesize_prompt(&batch),
        "System: All background tasks in batch 'b' have completed:\n  \
         • task_7 \"tea\": ✓ completed (3s)\n  • task_7 \"tea\": unknown (3s)\n\n\
         Use load(source: \"<id>\") to examine results and determine next steps."
    );
    assert_eq!(batch_line_text(&timer, "1s"), "  • task_7 \"tea\": ✗ failed (1s)");
    assert_eq!(
        batch_prompt_text("b", &Vec::new()),
        "System: All background tasks in batch 'b' have completed:\n\n\n\
         Use load(source: \"<id>\") to examine results and determine next steps."
    );
    let asks = TaskEvent::TaskNeedsInput { task_id: "t".to_string(), question: "why?".to_string() };
    assert_eq!(synthesize_prompt(&asks), "System: Background task 't' needs your input: why?");
    let seen = TaskEvent::PatternMatched {
        task_id: "t".to_string(),
        pattern: "up".to_string(),
        context: "is up".to_string(),
    };
    assert_eq!(
        synthesize_prompt(&seen),
        "System: Background task 't' matched pattern \"up\": is up"
    );
    let mut q = TurnQueue::new();
    queue_event(&mut q, &seen);
    assert_eq!(
        text_of(&q.flush()),
        "System: Background task 't' matched pattern \"up\": is up"
    );
}

#[test]
fn input_thread_waits_to_be_resumed() {
    let (state, action) = start();
    assert_eq!(state, InputState::Polling);
    assert!(matches!(action, InputAction::Poll));
    let (state, action) = step(state, Happening::Polled(Poll::Command(InputCommand::Resume)));
    assert!(matches!(action, InputAction::Prompt));
    let line = InputResult::Message("hi".to_string());
    let (state, action) = step(state, Happening::Line(Some(line)));
    assert!(matches!(
        action,
        InputAction::SaveAndSend(InputEvent::Input(InputResult::Message(_)))
    ));
    let (state, action) = step(state, Happening::Sent(true));
    assert_eq!(state, InputState::Awaiting);
    assert!(matches!(action, InputAction::Wait));
    let (state, action) = step(state, Happening::Commanded(Some(InputCommand::Resume)));
    assert_eq!(state, InputState::Polling);
    assert!(matches!(action, InputAction::Poll));
    let (state, action) = step(state, Happening::Polled(Poll::Disconnected));
    assert!(matches!(action, InputAction::Send(InputEvent::Closed)));
    let (state, action) = step(state, Happening::Sent(false));
    assert_eq!(state, InputState::Closed);
    assert!(matches!(action, InputAction::Stop));
}

#[test]
fn input_thread_prompts_again_after_a_retry() {
    let (state, _) = step(InputState::Prompting, Happening::Line(Some(InputResult::Retry)));
    let (state, action) = step(state, Happening::Sent(true));
    assert_eq!(state, InputState::Polling);
    assert!(matches!(action, InputAction::Poll));
}

#[test]
fn input_thread_leaves() {
    let (state, _) = step(InputState::Prompting, Happening::Line(Some(InputResult::Exit)));
    let (state, action) = step(state, Happening::Sent(true));
    assert_eq!(state, InputState::Closing);
    assert!(matches!(action, InputAction::Send(InputEvent::Closed)));
    let (state, action) = step(InputState::Prompting, Happening::Line(None));
    assert_eq!(state, InputState::Failing);
    assert!(matches!(action, InputAction::Send(InputEvent::Closed)));
    let (state, action) = step(state, Happening::Sent(true));
    assert_eq!(state, InputState::Closing);
    assert!(matches!(action, InputAction::Send(InputEvent::Closed)));
    let (state, _) = step(InputState::Polling, Happening::Polled(Poll::Command(InputCommand::Shutdown)));
    assert_eq!(state, InputState::Closing);
    let (state, _) = step(InputState::Awaiting, Happening::Commanded(None));
    assert_eq!(state, InputState::Closing);
    let (state, _) = step(InputState::Awaiting, Happening::Commanded(Some(InputCommand::Shutdown)));
    assert_eq!(state, InputState::Closing);
    let gone = InputState::Delivering { exit: false, retry: true };
    assert_eq!(step(gone, Happening::Sent(false)).0, InputState::Closing);
    let (state, action) = step(InputState::Polling, Happening::Polled(Poll::Empty));
    assert_eq!(state, InputState::Prompting);
    assert!(matches!(action, InputAction::Prompt));
}

#[test]
fn interrupts_start_unset() {
    let s = InterruptState::new();
    assert!(!s.interrupt_requested);
    assert_eq!(s.saved_line, "");
}
