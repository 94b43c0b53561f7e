use goose_tasks::jobs::{
    make_job_summary, Job, JobEvent, JobMeta, JobRegistry, JobSource, JobState, NotifyPolicy,
};
use goose_tasks::time::{Moment, Span};

fn at(millis: u64) -> Moment {
    Moment { since_start: Span::from_millis(millis) }
}

fn job(id: &str, now: Moment) -> Job {
    Job {
        id: id.to_string(),
        source: JobSource::Process,
        description: format!("work of {}", id),
        state: JobState::Working,
        batch_id: None,
        notify_policy: NotifyPolicy::OnCompletion,
        meta: JobMeta::default(),
        created_at: now,
        last_activity: now,
        worked_duration: Span::zero(),
        notifications: Vec::new(),
        result_summary: None,
    }
}

#[test]
fn job_lifecycle() {
    let mut r = JobRegistry::new();
    r.register(job("a", at(0)));
    r.needs_input_at("a", "which?".to_string(), at(1000));
    assert_eq!(r.get("a").unwrap().state, JobState::InputRequired);
    r.resume_at("a", at(9000));
    r.complete_at("a", Some("ok".to_string()), at(10_000));
    let a = r.get("a").unwrap();
    assert_eq!(a.state, JobState::Completed);
    assert_eq!(a.worked_duration, Span::from_secs(2));
    assert_eq!(a.result_summary.as_deref(), Some("ok"));
    let told = r.take_events();
    assert_eq!(told.len(), 2);
    match &told[0] {
        JobEvent::JobNeedsInput { job_id, question } => {
            assert_eq!(job_id, "a");
            assert_eq!(question, "which?");
        }
        _ => panic!("a question"),
    }
    match &told[1] {
        JobEvent::JobCompleted { job } => {
            assert_eq!(job.id, "a");
            assert_eq!(job.duration, Span::from_secs(2));
        }
        _ => panic!("a completion"),
    }
    assert!(r.take_events().is_empty());
}

#[test]
fn an_ended_job_stays_ended() {
    let mut r = JobRegistry::new();
    r.register(job("a", at(0)));
    r.cancel_at("a", at(1));
    r.complete_at("a", None, at(2));
    let a = r.get("a").unwrap();
    assert_eq!(a.state, JobState::Canceled);
    assert_eq!(a.result_summary.as_deref(), Some("canceled"));
    assert!(r.take_events().is_empty());
    assert!(JobState::Canceled.is_terminal() && !JobState::Working.is_terminal());
}

#[test]
fn no_transition_follows_the_end_of_a_job() {
    let mut r = JobRegistry::new();
    r.register(job("a", at(0)));
    r.fail_at("a", Some("broke".to_string()), at(1));
    r.take_events();
    for state in [JobState::Working, JobState::Completed, JobState::Canceled] {
        r.transition("a", state, None, at(7));
        let j = r.get("a").unwrap();
        assert_eq!(j.state, JobState::Failed);
        assert_eq!(j.result_summary.as_deref(), Some("broke"));
    }
    r.transition("lost", JobState::Completed, None, at(7));
    assert!(r.take_events().is_empty());
}

#[test]
fn job_batch_is_told_once_all_are_over() {
    let mut r = JobRegistry::new();
    for id in ["a", "b"] {
        let mut j = job(id, at(0));
        j.batch_id = Some("x".to_string());
        j.notify_policy = NotifyPolicy::OnBatchCompletion;
        r.register(j);
    }
    r.fail_at("b", None, at(1));
    assert!(r.take_events().is_empty());
    r.complete_at("a", None, at(2));
    match &r.take_events()[0] {
        JobEvent::BatchCompleted { batch_id, job_summaries } => {
            assert_eq!(batch_id, "x");
            assert_eq!(job_summaries.len(), 2);
            assert_eq!(job_summaries[1].state, JobState::Failed);
        }
        _ => panic!("a batch"),
    }
}

#[test]
fn job_patterns_and_notifications() {
    let mut r = JobRegistry::new();
    r.register(job("a", at(0)));
    r.pattern_matched_at("a", "up".to_string(), "server up".to_string(), at(1));
    r.notify_at("a", "note".to_string(), at(2));
    let a = r.get("a").unwrap();
    assert_eq!(a.state, JobState::Working);
    assert_eq!(a.notifications.len(), 2);
    assert_eq!(a.notifications[0].message, "pattern matched: up");
    match &r.take_events()[0] {
        JobEvent::PatternMatched { job_id, pattern, context } => {
            assert_eq!(job_id, "a");
            assert_eq!(pattern, "up");
            assert_eq!(context, "server up");
        }
        _ => panic!("a pattern"),
    }
}

#[test]
fn job_queries_removal_and_collection() {
    let mut r = JobRegistry::new();
    r.register(job("a", at(0)));
    r.register(job("b", at(0)));
    r.register(job("c", at(0)));
    r.complete_at("a", None, at(1000));
    assert_eq!(r.running().len(), 2);
    assert_eq!(r.finished().len(), 1);
    assert_eq!(r.list().len(), 3);
    assert_eq!(r.remove("b").unwrap().id, "b");
    r.gc_at(at(1000 + 299_999));
    assert!(r.get("a").is_some());
    r.gc_at(at(1000 + 300_000));
    assert!(r.get("a").is_none());
    assert!(r.get("c").is_some());
    r.get_mut("c").unwrap().description = "x".to_string();
    assert_eq!(r.get("c").unwrap().description, "x");
    assert_eq!(make_job_summary(r.get("c").unwrap(), at(500)).duration, Span::from_millis(500));
}

#[test]
fn job_operations_by_the_clock() {
    let mut r = JobRegistry::new();
    let now = r.now();
    r.register(job("a", now));
    r.register(job("b", now));
    r.register(job("c", now));
    r.notify("a", "n".to_string());
    r.pattern_matched("a", "p".to_string(), "p".to_string());
    r.needs_input("a", "q".to_string());
    r.resume("a");
    r.complete("a", None);
    r.fail("b", Some("no".to_string()));
    r.cancel("c");
    r.gc();
    assert_eq!(r.finished().len(), 3);
}

#[test]
fn nothing_revives_an_ended_job() {
    let mut r = JobRegistry::new();
    r.register(job("a", at(0)));
    r.fail_at("a", Some("no".to_string()), at(5));
    assert_eq!(r.take_events().len(), 1);
    r.needs_input_at("a", "why?".to_string(), at(6));
    r.resume_at("a", at(7));
    assert_eq!(r.get("a").unwrap().state, JobState::Failed);
    assert!(r.take_events().is_empty());
}

#[test]
fn all_work_of_a_job_counts() {
    let mut r = JobRegistry::new();
    r.register(job("a", at(1_000)));
    r.notify_at("a", "n".to_string(), at(2_000));
    r.pattern_matched_at("a", "p".to_string(), "a p".to_string(), at(4_000));
    r.complete_at("a", None, at(11_000));
    assert_eq!(r.get("a").unwrap().worked_duration, Span::from_secs(10));
}
