//! The registry of background jobs.
//!
//! Every background operation (subagent, process, resource subscription,
//! long-running tool call, timer) is a [`Job`] with one lifecycle:
//!
//! ```text
//! Working → Completed
//! Working → Failed
//! Working → Canceled
//! Working → InputRequired → Working (after input provided)
//! Working → (event: PatternMatched) → still Working
//! ```
//!
//! The registry delivers nothing itself. The events for the agent collect in
//! order and are handed over by [`JobRegistry::take_events`].
use crate::text;
use crate::time::{Clock, Moment, Span};
use vstd::prelude::*;
use vstd::string::*;

verus! {

/// Unique identifier for a job.
pub type JobId = String;

/// Unique identifier for a batch of related jobs.
pub type BatchId = String;

/// The source of a job.
#[derive(Debug, Clone, Copy, PartialEq, Eq, Structural)]
pub enum JobSource {
    /// A subagent working in the background.
    Subagent,
    /// A long-running process (shell command, build, etc.).
    Process,
    /// A resource subscription being watched.
    McpResource,
    /// A long-running tool call.
    McpTool,
    /// An orchestrator-managed swarm agent.
    SwarmAgent,
    /// A scheduled timer or reminder.
    Timer,
}

/// Current state of a job.
#[derive(Debug, Clone, Copy, PartialEq, Eq, Structural)]
pub enum JobState {
    /// Actively running.
    Working,
    /// Waiting for input from the user or the parent agent.
    InputRequired,
    /// Successfully completed.
    Completed,
    /// Errored or crashed.
    Failed,
    /// Canceled by the user or the agent.
    Canceled,
}

impl JobState {
    /// The job is over.
    pub open spec fn terminal(self) -> bool {
        self == JobState::Completed || self == JobState::Failed || self == JobState::Canceled
    }

    pub fn is_terminal(&self) -> (r: bool)
        ensures
            r == self.terminal(),
    {
        match self {
            JobState::Completed => true,
            JobState::Failed => true,
            JobState::Canceled => true,
            _ => false,
        }
    }
}

/// Which transitions force a turn of the agent.
#[derive(Debug, Clone, Copy, PartialEq, Eq, Structural)]
pub struct InterruptPolicy {
    pub on_complete: bool,
    pub on_failed: bool,
    pub on_input_required: bool,
    pub on_pattern_matched: bool,
}

impl InterruptPolicy {
    /// Whether reaching `state` forces a turn.
    pub open spec fn interrupts(self, state: JobState) -> bool {
        match state {
            JobState::Completed => self.on_complete,
            JobState::Failed => self.on_failed,
            _ => false,
        }
    }

    /// The policy that interrupts whenever it can.
    pub open spec fn always() -> InterruptPolicy {
        InterruptPolicy {
            on_complete: true,
            on_failed: true,
            on_input_required: true,
            on_pattern_matched: true,
        }
    }
}

impl Default for InterruptPolicy {
    fn default() -> (r: Self)
        ensures
            r == InterruptPolicy::always(),
    {
        InterruptPolicy {
            on_complete: true,
            on_failed: true,
            on_input_required: true,
            on_pattern_matched: true,
        }
    }
}

/// Hints for polling and retention.
#[derive(Debug, Clone, Copy, PartialEq, Eq, Structural)]
pub struct JobMeta {
    /// Don't poll more often than this.
    pub min_poll_interval_ms: u64,
    /// How long a job is kept after it reached a terminal state.
    pub ttl_after_completion_s: u64,
    /// Which transitions force a turn.
    pub interrupt_on: InterruptPolicy,
    /// For timers: when the timer fires.
    pub deadline: Option<Moment>,
}

impl JobMeta {
    /// Poll at most once a second, keep for five minutes, always interrupt.
    pub open spec fn usual() -> JobMeta {
        JobMeta {
            min_poll_interval_ms: 1000,
            ttl_after_completion_s: 300,
            interrupt_on: InterruptPolicy::always(),
            deadline: None,
        }
    }
}

impl Default for JobMeta {
    fn default() -> (r: Self)
        ensures
            r == JobMeta::usual(),
    {
        JobMeta {
            min_poll_interval_ms: 1000,
            ttl_after_completion_s: 300,
            interrupt_on: InterruptPolicy::default(),
            deadline: None,
        }
    }
}

/// When the end of a job forces a turn of the agent.
#[derive(Debug, Clone, Copy, PartialEq, Eq, Structural)]
pub enum NotifyPolicy {
    /// Never force a turn.
    Informational,
    /// Force a turn when this very job completes or fails.
    OnCompletion,
    /// Force a turn only when all jobs of the batch are over.
    OnBatchCompletion,
}

impl Default for NotifyPolicy {
    fn default() -> (r: Self)
        ensures
            r == NotifyPolicy::OnBatchCompletion,
    {
        NotifyPolicy::OnBatchCompletion
    }
}

/// A timestamped notification from a job.
#[derive(Debug, Clone)]
pub struct JobNotification {
    pub timestamp: Moment,
    pub message: String,
}

#[verifier::ext_equal]
pub struct NotificationView {
    pub timestamp: Moment,
    pub message: Seq<char>,
}

impl View for JobNotification {
    type V = NotificationView;

    open spec fn view(&self) -> NotificationView {
        NotificationView { timestamp: self.timestamp, message: self.message@ }
    }
}

/// A single tracked job.
#[derive(Debug)]
pub struct Job {
    pub id: JobId,
    pub source: JobSource,
    pub description: String,
    pub state: JobState,
    pub batch_id: Option<BatchId>,
    pub notify_policy: NotifyPolicy,
    pub meta: JobMeta,
    pub created_at: Moment,
    pub last_activity: Moment,
    /// Time spent in the Working state, up to the last activity.
    pub worked_duration: Span,
    pub notifications: Vec<JobNotification>,
    /// Flat summary of the result.
    pub result_summary: Option<String>,
}

#[verifier::ext_equal]
pub struct JobView {
    pub id: Seq<char>,
    pub source: JobSource,
    pub description: Seq<char>,
    pub state: JobState,
    pub batch_id: Option<Seq<char>>,
    pub notify_policy: NotifyPolicy,
    pub meta: JobMeta,
    pub created_at: Moment,
    pub last_activity: Moment,
    pub worked_duration: Span,
    pub notifications: Seq<NotificationView>,
    pub result_summary: Option<Seq<char>>,
}

impl View for Job {
    type V = JobView;

    open spec fn view(&self) -> JobView {
        JobView {
            id: self.id@,
            source: self.source,
            description: self.description@,
            state: self.state,
            batch_id: text::opt_text(self.batch_id),
            notify_policy: self.notify_policy,
            meta: self.meta,
            created_at: self.created_at,
            last_activity: self.last_activity,
            worked_duration: self.worked_duration,
            notifications: self.notifications@.map_values(|n: JobNotification| n@),
            result_summary: text::opt_text(self.result_summary),
        }
    }
}

/// What is told of a job when it is over.
#[derive(Debug, Clone)]
pub struct JobSummary {
    pub id: JobId,
    pub source: JobSource,
    pub description: String,
    pub state: JobState,
    pub duration: Span,
}

#[verifier::ext_equal]
pub struct JobSummaryView {
    pub id: Seq<char>,
    pub source: JobSource,
    pub description: Seq<char>,
    pub state: JobState,
    pub duration: Span,
}

impl View for JobSummary {
    type V = JobSummaryView;

    open spec fn view(&self) -> JobSummaryView {
        JobSummaryView {
            id: self.id@,
            source: self.source,
            description: self.description@,
            state: self.state,
            duration: self.duration,
        }
    }
}

/// Something that the agent is told of.
#[derive(Debug, Clone)]
pub enum JobEvent {
    /// All jobs of a batch are over.
    BatchCompleted { batch_id: BatchId, job_summaries: Vec<JobSummary> },
    /// A single job with the OnCompletion policy is over.
    JobCompleted { job: JobSummary },
    /// A job needs input to continue.
    JobNeedsInput { job_id: JobId, question: String },
    /// A pattern was matched in the job's output; the job goes on.
    PatternMatched { job_id: JobId, pattern: String, context: String },
}

#[verifier::ext_equal]
pub enum JobEventView {
    BatchCompleted { batch_id: Seq<char>, job_summaries: Seq<JobSummaryView> },
    JobCompleted { job: JobSummaryView },
    JobNeedsInput { job_id: Seq<char>, question: Seq<char> },
    PatternMatched { job_id: Seq<char>, pattern: Seq<char>, context: Seq<char> },
}

impl View for JobEvent {
    type V = JobEventView;

    open spec fn view(&self) -> JobEventView {
        match *self {
            JobEvent::BatchCompleted { batch_id, job_summaries } => JobEventView::BatchCompleted {
                batch_id: batch_id@,
                job_summaries: job_summaries@.map_values(|s: JobSummary| s@),
            },
            JobEvent::JobCompleted { job } => JobEventView::JobCompleted { job: job@ },
            JobEvent::JobNeedsInput { job_id, question } => JobEventView::JobNeedsInput {
                job_id: job_id@,
                question: question@,
            },
            JobEvent::PatternMatched { job_id, pattern, context } => {
                JobEventView::PatternMatched {
                    job_id: job_id@,
                    pattern: pattern@,
                    context: context@,
                }
            },
        }
    }
}

// ── Model ─────────────────────────────────────────────────────────────

/// The registry as a list of jobs under their keys, in the order of their
/// first registration, and what is to be delivered, oldest first.
#[verifier::ext_equal]
pub struct RegistryView {
    pub jobs: Seq<(Seq<char>, JobView)>,
    pub events: Seq<JobEventView>,
}

/// The entry `i` of the list is kept under `id`.
pub open spec fn keyed(jobs: Seq<(Seq<char>, JobView)>, id: Seq<char>, i: int) -> bool {
    0 <= i < jobs.len() && jobs[i].0 == id
}

/// The job as it stands once its state moved to `state` at `now`.
pub open spec fn moved(
    t: JobView,
    state: JobState,
    summary: Option<Seq<char>>,
    now: Moment,
) -> JobView {
    JobView {
        state,
        worked_duration: worked_until(t, now),
        last_activity: now,
        result_summary: summary,
        ..t
    }
}

/// The time that the job has worked up to `now`.
pub open spec fn worked_until(t: JobView, now: Moment) -> Span {
    if t.state == JobState::Working {
        t.worked_duration.with(now.since(t.last_activity))
    } else {
        t.worked_duration
    }
}

/// The job once it asked for input at `now`.
pub open spec fn asking(t: JobView, now: Moment) -> JobView {
    JobView {
        worked_duration: worked_until(t, now),
        state: JobState::InputRequired,
        last_activity: now,
        ..t
    }
}

/// The job once it was active at `now`: the work up to then is counted.
pub open spec fn active(t: JobView, now: Moment) -> JobView {
    JobView { worked_duration: worked_until(t, now), last_activity: now, ..t }
}

/// The job with one more notification, received at `now`.
pub open spec fn notified(t: JobView, message: Seq<char>, now: Moment) -> JobView {
    JobView {
        notifications: t.notifications.push(NotificationView { timestamp: now, message }),
        ..active(t, now)
    }
}

/// What is told of the job at `now`.
pub open spec fn summary_of(t: JobView, now: Moment) -> JobSummaryView {
    JobSummaryView {
        id: t.id,
        source: t.source,
        description: t.description,
        state: t.state,
        duration: worked_until(t, now),
    }
}

/// The entries of a batch.
pub open spec fn in_batch(batch_id: Seq<char>) -> spec_fn((Seq<char>, JobView)) -> bool {
    |e: (Seq<char>, JobView)| e.1.batch_id == Some(batch_id)
}

/// What is told of the jobs of a batch, in their order.
pub open spec fn batch_summaries(
    jobs: Seq<(Seq<char>, JobView)>,
    batch_id: Seq<char>,
    now: Moment,
) -> Seq<JobSummaryView> {
    jobs.filter(in_batch(batch_id)).map_values(|e: (Seq<char>, JobView)| summary_of(e.1, now))
}

/// The batch has jobs, and all of them are over.
pub open spec fn batch_done(jobs: Seq<(Seq<char>, JobView)>, batch_id: Seq<char>) -> bool {
    &&& exists|i: int| 0 <= i < jobs.len() && (#[trigger] jobs[i]).1.batch_id == Some(batch_id)
    &&& forall|i: int|
        0 <= i < jobs.len() && (#[trigger] jobs[i]).1.batch_id == Some(batch_id)
            ==> jobs[i].1.state.terminal()
}

/// The event that a batch is over, if it is.
pub open spec fn batch_events(
    jobs: Seq<(Seq<char>, JobView)>,
    batch_id: Seq<char>,
    now: Moment,
) -> Seq<JobEventView> {
    if batch_done(jobs, batch_id) {
        seq![
            JobEventView::BatchCompleted {
                batch_id,
                job_summaries: batch_summaries(jobs, batch_id, now),
            },
        ]
    } else {
        Seq::empty()
    }
}

/// The events that follow when `t`, one of `jobs`, has reached its state.
pub open spec fn arrival_events(
    jobs: Seq<(Seq<char>, JobView)>,
    t: JobView,
    now: Moment,
) -> Seq<JobEventView> {
    match t.notify_policy {
        NotifyPolicy::OnCompletion => if t.meta.interrupt_on.interrupts(t.state) {
            seq![JobEventView::JobCompleted { job: summary_of(t, now) }]
        } else {
            Seq::empty()
        },
        NotifyPolicy::OnBatchCompletion => match t.batch_id {
            Some(batch_id) => batch_events(jobs, batch_id, now),
            None => Seq::empty(),
        },
        NotifyPolicy::Informational => Seq::empty(),
    }
}

/// The job outlives a collection at `now`.
pub open spec fn retained(t: JobView, now: Moment) -> bool {
    t.state.terminal() ==> now.since(t.last_activity).whole_secs()
        < t.meta.ttl_after_completion_s
}

impl RegistryView {
    /// No two entries have the same key.
    pub open spec fn keys_distinct(self) -> bool {
        forall|i: int, j: int|
            0 <= i < j < self.jobs.len() ==> (#[trigger] self.jobs[i]).0 != (
            #[trigger] self.jobs[j]).0
    }

    pub open spec fn has(self, id: Seq<char>) -> bool {
        exists|i: int| keyed(self.jobs, id, i)
    }

    /// The entry of a key that is there.
    pub open spec fn slot(self, id: Seq<char>) -> int {
        choose|i: int| keyed(self.jobs, id, i)
    }

    /// The job kept under a key.
    pub open spec fn get(self, id: Seq<char>) -> Option<JobView> {
        if self.has(id) {
            Some(self.jobs[self.slot(id)].1)
        } else {
            None
        }
    }

    /// The registry with another job under a key that is there.
    pub open spec fn with_job(self, id: Seq<char>, job: JobView) -> RegistryView {
        RegistryView { jobs: self.jobs.update(self.slot(id), (id, job)), ..self }
    }

    /// The registry with more to deliver.
    pub open spec fn sending(self, more: Seq<JobEventView>) -> RegistryView {
        RegistryView { events: self.events + more, ..self }
    }

    pub open spec fn registered(self, job: JobView) -> RegistryView {
        if self.has(job.id) {
            self.with_job(job.id, job)
        } else {
            RegistryView { jobs: self.jobs.push((job.id, job)), ..self }
        }
    }

    pub open spec fn removed(self, id: Seq<char>) -> RegistryView {
        if self.has(id) {
            RegistryView { jobs: self.jobs.remove(self.slot(id)), ..self }
        } else {
            self
        }
    }

    /// There is a job under `id` that is not over.
    pub open spec fn unfinished(self, id: Seq<char>) -> bool {
        self.get(id) matches Some(t) && !t.state.terminal()
    }

    /// The job under `id` moves to `state`, unless it is over already.
    pub open spec fn transitioned(
        self,
        id: Seq<char>,
        state: JobState,
        summary: Option<Seq<char>>,
        now: Moment,
    ) -> RegistryView {
        match self.get(id) {
            Some(t) if !t.state.terminal() => {
                let arrived = moved(t, state, summary, now);
                let next = self.with_job(id, arrived);
                next.sending(arrival_events(next.jobs, arrived, now))
            },
            _ => self,
        }
    }

    pub open spec fn canceled(self, id: Seq<char>, now: Moment) -> RegistryView {
        self.transitioned(id, JobState::Canceled, Some("canceled"@), now)
    }

    /// The job under `id` asks for input, unless it is over already.
    pub open spec fn asked(self, id: Seq<char>, question: Seq<char>, now: Moment) -> RegistryView {
        match self.get(id) {
            Some(t) if !t.state.terminal() => {
                let next = self.with_job(id, asking(t, now));
                if t.meta.interrupt_on.on_input_required {
                    next.sending(
                        seq![JobEventView::JobNeedsInput { job_id: id, question }],
                    )
                } else {
                    next
                }
            },
            _ => self,
        }
    }

    pub open spec fn resumed(self, id: Seq<char>, now: Moment) -> RegistryView {
        match self.get(id) {
            Some(t) if t.state == JobState::InputRequired => self.with_job(
                id,
                JobView { state: JobState::Working, last_activity: now, ..t },
            ),
            _ => self,
        }
    }

    pub open spec fn matched(
        self,
        id: Seq<char>,
        pattern: Seq<char>,
        context: Seq<char>,
        now: Moment,
    ) -> RegistryView {
        match self.get(id) {
            Some(t) => {
                let next = self.with_job(
                    id,
                    notified(t, "pattern matched: "@ + pattern, now),
                );
                if t.meta.interrupt_on.on_pattern_matched {
                    next.sending(
                        seq![JobEventView::PatternMatched { job_id: id, pattern, context }],
                    )
                } else {
                    next
                }
            },
            None => self,
        }
    }

    pub open spec fn noted(self, id: Seq<char>, message: Seq<char>, now: Moment) -> RegistryView {
        match self.get(id) {
            Some(t) => self.with_job(id, notified(t, message, now)),
            None => self,
        }
    }

    pub open spec fn collected(self, now: Moment) -> RegistryView {
        RegistryView {
            jobs: self.jobs.filter(|e: (Seq<char>, JobView)| retained(e.1, now)),
            ..self
        }
    }

    /// The jobs whose state is as `wanted`, in their order.
    pub open spec fn in_state(self, wanted: spec_fn(JobState) -> bool) -> Seq<JobView> {
        self.jobs.filter(|e: (Seq<char>, JobView)| wanted(e.1.state)).map_values(
            |e: (Seq<char>, JobView)| e.1,
        )
    }

    /// The jobs that work, in their order.
    pub open spec fn working(self) -> Seq<JobView> {
        self.in_state(|s: JobState| s == JobState::Working)
    }
}

/// With distinct keys, the entry that has a key is its slot.
pub proof fn slot_is_unique(r: RegistryView, id: Seq<char>, i: int)
    requires
        r.keys_distinct(),
        keyed(r.jobs, id, i),
    ensures
        r.has(id),
        r.slot(id) == i,
        r.get(id) == Some(r.jobs[i].1),
{
    let s = r.slot(id);
    assert(keyed(r.jobs, id, s));
    if s < i {
        assert(r.jobs[s].0 != r.jobs[i].0);
    } else if i < s {
        assert(r.jobs[i].0 != r.jobs[s].0);
    }
}

/// Replacing a job changes what is kept under its key, and nothing else.
pub proof fn replacing_is_local(r: RegistryView, id: Seq<char>, t: JobView)
    requires
        r.keys_distinct(),
        r.has(id),
    ensures
        r.with_job(id, t).keys_distinct(),
        r.with_job(id, t).get(id) == Some(t),
        r.with_job(id, t).slot(id) == r.slot(id),
        forall|other: Seq<char>|
            other != id ==> #[trigger] r.with_job(id, t).get(other) == r.get(other),
{
    let next = r.with_job(id, t);
    let s = r.slot(id);
    assert(keyed(r.jobs, id, s));
    assert forall|i: int| 0 <= i < next.jobs.len() implies (#[trigger] next.jobs[i]).0
        == r.jobs[i].0 by {}
    assert(next.keys_distinct());
    assert(keyed(next.jobs, id, s));
    slot_is_unique(next, id, s);
    assert forall|other: Seq<char>| other != id implies #[trigger] next.get(other) == r.get(
        other,
    ) by {
        if r.has(other) {
            let o = r.slot(other);
            assert(keyed(r.jobs, other, o));
            assert(keyed(next.jobs, other, o));
            slot_is_unique(next, other, o);
        }
        if next.has(other) {
            let o = next.slot(other);
            assert(keyed(next.jobs, other, o));
            assert(keyed(r.jobs, other, o));
        }
    }
}

/// What is registered is found under its identifier, whatever was there, and
/// every other key keeps its job.
pub proof fn registered_is_found(r: RegistryView, t: JobView)
    requires
        r.keys_distinct(),
    ensures
        r.registered(t).keys_distinct(),
        r.registered(t).get(t.id) == Some(t),
        forall|other: Seq<char>|
            other != t.id ==> #[trigger] r.registered(t).get(other) == r.get(other),
{
    let next = r.registered(t);
    if r.has(t.id) {
        replacing_is_local(r, t.id, t);
    } else {
        assert forall|i: int| 0 <= i < r.jobs.len() implies (#[trigger] next.jobs[i])
            == r.jobs[i] && next.jobs[i].0 != t.id by {
            if r.jobs[i].0 == t.id {
                assert(keyed(r.jobs, t.id, i));
            }
        }
        assert(next.keys_distinct());
        assert(keyed(next.jobs, t.id, r.jobs.len() as int));
        slot_is_unique(next, t.id, r.jobs.len() as int);
        assert forall|other: Seq<char>| other != t.id implies #[trigger] next.get(other)
            == r.get(other) by {
            if r.has(other) {
                let o = r.slot(other);
                assert(keyed(r.jobs, other, o));
                assert(keyed(next.jobs, other, o));
                slot_is_unique(next, other, o);
            }
            if next.has(other) {
                let o = next.slot(other);
                assert(keyed(next.jobs, other, o));
                assert(keyed(r.jobs, other, o));
            }
        }
    }
}

/// What is removed is gone, and every other key keeps its job.
pub proof fn removed_is_gone(r: RegistryView, id: Seq<char>)
    requires
        r.keys_distinct(),
    ensures
        r.removed(id).keys_distinct(),
        r.removed(id).get(id) is None,
        forall|other: Seq<char>|
            other != id ==> #[trigger] r.removed(id).get(other) == r.get(other),
{
    let next = r.removed(id);
    if r.has(id) {
        let s = r.slot(id);
        assert(keyed(r.jobs, id, s));
        assert forall|i: int| 0 <= i < next.jobs.len() implies (#[trigger] next.jobs[i])
            == r.jobs[if i < s { i } else { i + 1 }] by {}
        assert(next.keys_distinct());
        if next.has(id) {
            let i = next.slot(id);
            assert(keyed(next.jobs, id, i));
            let o = if i < s { i } else { i + 1 };
            assert(keyed(r.jobs, id, o));
            slot_is_unique(r, id, o);
        }
        assert forall|other: Seq<char>| other != id implies #[trigger] next.get(other) == r.get(
            other,
        ) by {
            if r.has(other) {
                let o = r.slot(other);
                assert(keyed(r.jobs, other, o));
                let i = if o < s { o } else { o - 1 };
                assert(keyed(next.jobs, other, i));
                slot_is_unique(next, other, i);
            }
            if next.has(other) {
                let i = next.slot(other);
                assert(keyed(next.jobs, other, i));
                let o = if i < s { i } else { i + 1 };
                assert(keyed(r.jobs, other, o));
            }
        }
    }
}

/// A filtered sequence holds elements of the sequence in their order.
proof fn filter_keeps_distinct(
    s: Seq<(Seq<char>, JobView)>,
    keep: spec_fn((Seq<char>, JobView)) -> bool,
)
    requires
        forall|i: int, j: int|
            0 <= i < j < s.len() ==> (#[trigger] s[i]).0 != (#[trigger] s[j]).0,
    ensures
        forall|i: int, j: int|
            0 <= i < j < s.filter(keep).len() ==> (#[trigger] s.filter(keep)[i]).0 != (
            #[trigger] s.filter(keep)[j]).0,
        forall|i: int|
            0 <= i < s.filter(keep).len() ==> s.contains(#[trigger] s.filter(keep)[i]) && keep(
                s.filter(keep)[i],
            ),
    decreases s.len(),
{
    reveal(Seq::filter);
    if s.len() > 0 {
        let front = s.drop_last();
        filter_keeps_distinct(front, keep);
        let f = front.filter(keep);
        assert forall|i: int| 0 <= i < f.len() implies s.contains(#[trigger] f[i]) && f[i].0
            != s.last().0 by {
            let k = choose|k: int| 0 <= k < front.len() && front[k] == f[i];
            assert(front.contains(f[i]));
            assert(s[k] == f[i]);
        }
        assert(s[s.len() - 1] == s.last());
    }
}

/// A collection keeps the keys distinct.
pub proof fn collected_keeps_keys(r: RegistryView, now: Moment)
    requires
        r.keys_distinct(),
    ensures
        r.collected(now).keys_distinct(),
{
    filter_keeps_distinct(r.jobs, |e: (Seq<char>, JobView)| retained(e.1, now));
}

// ── Registry ──────────────────────────────────────────────────────────

/// The jobs of a session.
#[derive(Debug)]
pub struct JobRegistry {
    jobs: Vec<(JobId, Job)>,
    events: Vec<JobEvent>,
    clock: Clock,
    /// The last moment that the registry acted at by its clock.
    latest: Moment,
}

impl View for JobRegistry {
    type V = RegistryView;

    closed spec fn view(&self) -> RegistryView {
        RegistryView {
            jobs: self.jobs@.map_values(|e: (JobId, Job)| (e.0@, e.1@)),
            events: self.events@.map_values(|o: JobEvent| o@),
        }
    }
}

impl JobRegistry {
    /// The invariant of every registry.
    pub open spec fn wf(&self) -> bool {
        self@.keys_distinct() && self.latest().standard()
    }

    /// The last moment that the registry acted at by its clock.
    pub closed spec fn latest(&self) -> Moment {
        self.latest
    }

    /// The clock was read, and this is the moment that it showed or, if that
    /// lies before the last one, the last one.
    pub closed spec fn read_off_the_clock(&self, now: Moment) -> bool {
        exists|c: Moment|
            #![trigger call_ensures(Clock::now, (&self.clock,), c)]
            call_ensures(Clock::now, (&self.clock,), c) && now == (if c.reached(self.latest) {
                c
            } else {
                self.latest
            })
    }

    /// The registry's clock shows this moment: it was read off the clock, and
    /// does not go back.
    pub open spec fn shows(&self, now: Moment) -> bool {
        now.standard() && now.reached(self.latest()) && self.read_off_the_clock(now)
    }

    pub fn new() -> (r: JobRegistry)
        ensures
            r.wf(),
            r@ == (RegistryView { jobs: Seq::empty(), events: Seq::empty() }),
            r.latest() == (Moment { since_start: Span::none() }),
    {
        let r = JobRegistry {
            jobs: Vec::new(),
            events: Vec::new(),
            clock: Clock::start(),
            latest: Moment { since_start: Span::zero() },
        };
        assert(r@.jobs =~= Seq::empty());
        assert(r@.events =~= Seq::empty());
        r
    }

    /// The moment that the registry's clock shows.
    pub fn now(&self) -> (r: Moment)
        requires
            self.wf(),
        ensures
            self.shows(r),
    {
        let now = self.clock.now();
        if now.has_reached(self.latest) {
            now
        } else {
            self.latest
        }
    }

    /// Reads the clock, for what is done at that moment.
    pub fn tick(&mut self) -> (r: Moment)
        requires
            old(self).wf(),
        ensures
            final(self).wf(),
            final(self)@ == old(self)@,
            old(self).shows(r),
            final(self).latest() == r,
    {
        let now = self.now();
        self.latest = now;
        now
    }

    fn position(&self, id: &str) -> (r: Option<usize>)
        requires
            self.wf(),
        ensures
            match r {
                Some(i) => self@.has(id@) && i == self@.slot(id@) && i < self.jobs@.len(),
                None => !self@.has(id@),
            },
    {
        let mut i: usize = 0;
        while i < self.jobs.len()
            invariant
                i <= self.jobs@.len(),
                self.wf(),
                forall|j: int| 0 <= j < i ==> self@.jobs[j].0 != id@,
            decreases self.jobs.len() - i,
        {
            if text::same_text(self.jobs[i].0.as_str(), id) {
                assert(keyed(self@.jobs, id@, i as int));
                return Some(i);
            }
            i += 1;
        }
        None
    }

    pub fn register(&mut self, job: Job)
        requires
            old(self).wf(),
        ensures
            final(self).latest() == old(self).latest(),
            final(self).wf(),
            final(self)@ == old(self)@.registered(job@),
    {
        let key = job.id.clone();
        match self.position(key.as_str()) {
            Some(i) => {
                self.jobs.set(i, (key, job));
            },
            None => {
                self.jobs.push((key, job));
            },
        }
        assert(self@ =~= old(self)@.registered(job@));
        proof {
            registered_is_found(old(self)@, job@);
        }
    }

    pub fn get(&self, id: &str) -> (r: Option<&Job>)
        requires
            self.wf(),
        ensures
            match r {
                Some(t) => self@.get(id@) == Some(t@),
                None => self@.get(id@) is None,
            },
    {
        match self.position(id) {
            Some(i) => Some(&self.jobs[i].1),
            None => None,
        }
    }

    pub fn get_mut(&mut self, id: &str) -> (r: Option<&mut Job>)
        requires
            old(self).wf(),
        ensures
            final(self).latest() == old(self).latest(),
            match r {
                Some(t) => old(self)@.get(id@) == Some((*t)@) && final(self)@ == old(
                    self,
                )@.with_job(id@, (*final(t))@),
                None => old(self)@.get(id@) is None && final(self)@ == old(self)@,
            },
            final(self).wf(),
    {
        match self.position(id) {
            Some(i) => {
                proof {
                    assert forall|r: JobRegistry|
                        r.latest == self.latest && r.jobs@.len() == self.jobs@.len() && (forall|k: int|
                            0 <= k < r.jobs@.len() ==> (#[trigger] r.jobs@[k]).0
                                == self.jobs@[k].0) implies #[trigger] r.wf() by {
                        assert forall|k: int| 0 <= k < r@.jobs.len() implies (
                        #[trigger] r@.jobs[k]).0 == self@.jobs[k].0 by {
                            assert(r.jobs@[k].0 == self.jobs@[k].0);
                        }
                    }
                }
                Some(&mut self.jobs[i].1)
            },
            None => None,
        }
    }

    // ── Transitions ───────────────────────────────────────────────────

    /// Tells of the batch if all its jobs are over.
    fn check_batch_completion(&mut self, batch_id: &str, now: Moment)
        ensures
            final(self).latest() == old(self).latest(),
            final(self)@ == old(self)@.sending(batch_events(old(self)@.jobs, batch_id@, now)),
            final(self).jobs == old(self).jobs,
    {
        let mut summaries: Vec<JobSummary> = Vec::new();
        let ghost chosen = in_batch(batch_id@);
        let ghost telling = |e: (Seq<char>, JobView)| summary_of(e.1, now);
        let ghost jobs = self@.jobs;
        let mut found = false;
        let mut i: usize = 0;
        assert(jobs.take(0).filter(chosen).map_values(telling) =~= Seq::empty()) by {
            reveal(Seq::filter);
        }
        while i < self.jobs.len()
            invariant
                i <= self.jobs@.len(),
                *self == *old(self),
                jobs == self@.jobs,
                chosen == in_batch(batch_id@),
                telling == (|e: (Seq<char>, JobView)| summary_of(e.1, now)),
                found == (exists|k: int|
                    0 <= k < i && (#[trigger] jobs[k]).1.batch_id == Some(batch_id@)),
                forall|k: int|
                    0 <= k < i && (#[trigger] jobs[k]).1.batch_id == Some(batch_id@)
                        ==> jobs[k].1.state.terminal(),
                summaries@.map_values(|s: JobSummary| s@) == jobs.take(i as int).filter(
                    chosen,
                ).map_values(telling),
            decreases self.jobs.len() - i,
        {
            let ghost before = summaries@.map_values(|s: JobSummary| s@);
            let job = &self.jobs[i].1;
            assert(jobs[i as int].1 == job@);
            let member = match &job.batch_id {
                Some(b) => text::same_text(b.as_str(), batch_id),
                None => false,
            };
            proof {
                let head = jobs.take(i as int);
                assert(jobs.take(i + 1).drop_last() =~= head);
                assert(jobs.take(i + 1).last() == jobs[i as int]);
                reveal(Seq::filter);
                assert(member == chosen(jobs[i as int]));
            }
            if member {
                found = true;
                if !job.state.is_terminal() {
                    proof {
                        assert(!batch_done(jobs, batch_id@));
                        assert(self@ =~= old(self)@.sending(Seq::empty()));
                    }
                    return;
                }
                summaries.push(make_job_summary(job, now));
                proof {
                    assert(summaries@.map_values(|s: JobSummary| s@) =~= before.push(
                        summary_of(job@, now),
                    ));
                    assert(jobs.take(i + 1).filter(chosen).map_values(telling) =~= before.push(
                        summary_of(job@, now),
                    ));
                }
            }
            i += 1;
        }
        assert(jobs.take(jobs.len() as int) =~= jobs);
        if found {
            let event = JobEvent::BatchCompleted {
                batch_id: batch_id.to_owned(),
                job_summaries: summaries,
            };
            self.events.push(event);
            proof {
                assert(batch_done(jobs, batch_id@));
                assert(self@.events =~= old(self)@.events + batch_events(
                    jobs,
                    batch_id@,
                    now,
                ));
                assert(self@ =~= old(self)@.sending(batch_events(jobs, batch_id@, now)));
            }
        } else {
            assert(!batch_done(jobs, batch_id@));
            assert(self@ =~= old(self)@.sending(Seq::empty()));
        }
    }

    /// Moves a job to a state at `now`, unless it is over already or not there:
    /// the first end wins.
    pub fn transition(
        &mut self,
        id: &str,
        new_state: JobState,
        summary: Option<String>,
        now: Moment,
    )
        requires
            old(self).wf(),
        ensures
            final(self).latest() == old(self).latest(),
            final(self).wf(),
            final(self)@ == old(self)@.transitioned(id@, new_state, text::opt_text(summary), now),
            !old(self)@.unfinished(id@) ==> final(self)@ == old(self)@,
    {
        let i: usize = match self.position(id) {
            Some(i) => i,
            None => {
                return;
            },
        };
        if self.jobs[i].1.state.is_terminal() {
            return;
        }
        let ghost t = self@.jobs[i as int].1;
        let ghost arrived = moved(t, new_state, text::opt_text(summary), now);
        proof {
            replacing_is_local(self@, id@, arrived);
        }
        let job = &mut self.jobs[i].1;
        if job.state == JobState::Working {
            job.worked_duration = job.worked_duration.plus(
                now.duration_since(job.last_activity),
            );
        }
        job.state = new_state;
        job.last_activity = now;
        job.result_summary = summary;
        assert(self@ =~= old(self)@.with_job(id@, arrived));
        let interrupt_on = self.jobs[i].1.meta.interrupt_on;
        let should_interrupt = match new_state {
            JobState::Completed => interrupt_on.on_complete,
            JobState::Failed => interrupt_on.on_failed,
            _ => false,
        };
        match self.jobs[i].1.notify_policy {
            NotifyPolicy::OnCompletion => {
                if should_interrupt {
                    let told = make_job_summary(&self.jobs[i].1, now);
                    self.events.push(JobEvent::JobCompleted { job: told });
                }
            },
            NotifyPolicy::OnBatchCompletion => {
                if let Some(batch_id) = text::copy_text(&self.jobs[i].1.batch_id) {
                    self.check_batch_completion(batch_id.as_str(), now);
                }
            },
            NotifyPolicy::Informational => {},
        }
        assert(self@ =~= old(self)@.transitioned(id@, new_state, text::opt_text(summary), now));
    }

    /// Marks a job as completed at `now`.
    pub fn complete_at(&mut self, id: &str, summary: Option<String>, now: Moment)
        requires
            old(self).wf(),
        ensures
            final(self).latest() == old(self).latest(),
            final(self).wf(),
            final(self)@ == old(self)@.transitioned(
                id@,
                JobState::Completed,
                text::opt_text(summary),
                now,
            ),
            !old(self)@.unfinished(id@) ==> final(self)@ == old(self)@,
    {
        self.transition(id, JobState::Completed, summary, now);
    }

    /// Marks a job as completed.
    pub fn complete(&mut self, id: &str, summary: Option<String>)
        requires
            old(self).wf(),
        ensures
            final(self).wf(),
            old(self).shows(final(self).latest()),
            final(self)@ == old(self)@.transitioned(
                id@,
                JobState::Completed,
                text::opt_text(summary),
                final(self).latest(),
            ),
            !old(self)@.unfinished(id@) ==> final(self)@ == old(self)@,
    {
        let now = self.tick();
        self.complete_at(id, summary, now);
    }

    /// Marks a job as failed at `now`.
    pub fn fail_at(&mut self, id: &str, summary: Option<String>, now: Moment)
        requires
            old(self).wf(),
        ensures
            final(self).latest() == old(self).latest(),
            final(self).wf(),
            final(self)@ == old(self)@.transitioned(
                id@,
                JobState::Failed,
                text::opt_text(summary),
                now,
            ),
            !old(self)@.unfinished(id@) ==> final(self)@ == old(self)@,
    {
        self.transition(id, JobState::Failed, summary, now);
    }

    /// Marks a job as failed.
    pub fn fail(&mut self, id: &str, summary: Option<String>)
        requires
            old(self).wf(),
        ensures
            final(self).wf(),
            old(self).shows(final(self).latest()),
            final(self)@ == old(self)@.transitioned(
                id@,
                JobState::Failed,
                text::opt_text(summary),
                final(self).latest(),
            ),
            !old(self)@.unfinished(id@) ==> final(self)@ == old(self)@,
    {
        let now = self.tick();
        self.fail_at(id, summary, now);
    }

    /// Marks a job as canceled at `now`.
    pub fn cancel_at(&mut self, id: &str, now: Moment)
        requires
            old(self).wf(),
        ensures
            final(self).latest() == old(self).latest(),
            final(self).wf(),
            final(self)@ == old(self)@.canceled(id@, now),
            !old(self)@.unfinished(id@) ==> final(self)@ == old(self)@,
    {
        self.transition(id, JobState::Canceled, Some("canceled".to_owned()), now);
    }

    /// Marks a job as canceled.
    pub fn cancel(&mut self, id: &str)
        requires
            old(self).wf(),
        ensures
            final(self).wf(),
            old(self).shows(final(self).latest()),
            final(self)@ == old(self)@.canceled(id@, final(self).latest()),
            !old(self)@.unfinished(id@) ==> final(self)@ == old(self)@,
    {
        let now = self.tick();
        self.cancel_at(id, now);
    }

    /// Moves a job that is not over to InputRequired at `now` and tells of it.
    pub fn needs_input_at(&mut self, id: &str, question: String, now: Moment)
        requires
            old(self).wf(),
        ensures
            final(self).latest() == old(self).latest(),
            final(self).wf(),
            final(self)@ == old(self)@.asked(id@, question@, now),
            !old(self)@.unfinished(id@) ==> final(self)@ == old(self)@,
    {
        if let Some(i) = self.position(id) {
            if self.jobs[i].1.state.is_terminal() {
                return;
            }
            let ghost t = self@.jobs[i as int].1;
            proof {
                replacing_is_local(self@, id@, asking(t, now));
            }
            let job = &mut self.jobs[i].1;
            if job.state == JobState::Working {
                job.worked_duration = job.worked_duration.plus(
                    now.duration_since(job.last_activity),
                );
            }
            job.state = JobState::InputRequired;
            job.last_activity = now;
            assert(self@ =~= old(self)@.with_job(id@, asking(t, now)));
            if self.jobs[i].1.meta.interrupt_on.on_input_required {
                let event = JobEvent::JobNeedsInput { job_id: id.to_owned(), question };
                self.events.push(event);
            }
            assert(self@ =~= old(self)@.asked(id@, question@, now));
        }
    }

    /// Moves a job to InputRequired and tells of it.
    pub fn needs_input(&mut self, id: &str, question: String)
        requires
            old(self).wf(),
        ensures
            final(self).wf(),
            old(self).shows(final(self).latest()),
            final(self)@ == old(self)@.asked(id@, question@, final(self).latest()),
            !old(self)@.unfinished(id@) ==> final(self)@ == old(self)@,
    {
        let now = self.tick();
        self.needs_input_at(id, question, now);
    }

    /// Moves a job from InputRequired back to Working at `now`.
    pub fn resume_at(&mut self, id: &str, now: Moment)
        requires
            old(self).wf(),
        ensures
            final(self).latest() == old(self).latest(),
            final(self).wf(),
            final(self)@ == old(self)@.resumed(id@, now),
    {
        if let Some(i) = self.position(id) {
            if self.jobs[i].1.state == JobState::InputRequired {
                let ghost t = self@.jobs[i as int].1;
                let ghost working = JobView {
                    state: JobState::Working,
                    last_activity: now,
                    ..t
                };
                proof {
                    replacing_is_local(self@, id@, working);
                }
                let job = &mut self.jobs[i].1;
                job.state = JobState::Working;
                job.last_activity = now;
                assert(self@ =~= old(self)@.with_job(id@, working));
            }
        }
    }

    /// Moves a job from InputRequired back to Working.
    pub fn resume(&mut self, id: &str)
        requires
            old(self).wf(),
        ensures
            final(self).wf(),
            old(self).shows(final(self).latest()),
            final(self)@ == old(self)@.resumed(id@, final(self).latest()),
    {
        let now = self.tick();
        self.resume_at(id, now);
    }

    /// Tells that a pattern was matched at `now`; the job's state stays.
    pub fn pattern_matched_at(
        &mut self,
        id: &str,
        pattern: String,
        context: String,
        now: Moment,
    )
        requires
            old(self).wf(),
        ensures
            final(self).latest() == old(self).latest(),
            final(self).wf(),
            final(self)@ == old(self)@.matched(id@, pattern@, context@, now),
    {
        if let Some(i) = self.position(id) {
            let ghost t = self@.jobs[i as int].1;
            let ghost told = notified(t, "pattern matched: "@ + pattern@, now);
            proof {
                replacing_is_local(self@, id@, told);
            }
            let message = "pattern matched: ".to_owned().concat(pattern.as_str());
            let job = &mut self.jobs[i].1;
            if job.state == JobState::Working {
                job.worked_duration = job.worked_duration.plus(
                    now.duration_since(job.last_activity),
                );
            }
            job.last_activity = now;
            job.notifications.push(JobNotification { timestamp: now, message });
            assert(self@.jobs[i as int].1.notifications =~= told.notifications);
            assert(self@ =~= old(self)@.with_job(id@, told));
            if self.jobs[i].1.meta.interrupt_on.on_pattern_matched {
                let event = JobEvent::PatternMatched { job_id: id.to_owned(), pattern, context };
                self.events.push(event);
            }
            assert(self@ =~= old(self)@.matched(id@, pattern@, context@, now));
        }
    }

    /// Tells that a pattern was matched; the job's state stays.
    pub fn pattern_matched(&mut self, id: &str, pattern: String, context: String)
        requires
            old(self).wf(),
        ensures
            final(self).wf(),
            old(self).shows(final(self).latest()),
            final(self)@ == old(self)@.matched(id@, pattern@, context@, final(self).latest()),
    {
        let now = self.tick();
        self.pattern_matched_at(id, pattern, context, now);
    }

    /// Adds a notification to a job's log at `now`.
    pub fn notify_at(&mut self, id: &str, message: String, now: Moment)
        requires
            old(self).wf(),
        ensures
            final(self).latest() == old(self).latest(),
            final(self).wf(),
            final(self)@ == old(self)@.noted(id@, message@, now),
    {
        if let Some(i) = self.position(id) {
            let ghost t = self@.jobs[i as int].1;
            let ghost told = notified(t, message@, now);
            proof {
                replacing_is_local(self@, id@, told);
            }
            let job = &mut self.jobs[i].1;
            if job.state == JobState::Working {
                job.worked_duration = job.worked_duration.plus(
                    now.duration_since(job.last_activity),
                );
            }
            job.last_activity = now;
            job.notifications.push(JobNotification { timestamp: now, message });
            assert(self@.jobs[i as int].1.notifications =~= told.notifications);
            assert(self@ =~= old(self)@.with_job(id@, told));
        }
    }

    /// Adds a notification to a job's log.
    pub fn notify(&mut self, id: &str, message: String)
        requires
            old(self).wf(),
        ensures
            final(self).wf(),
            old(self).shows(final(self).latest()),
            final(self)@ == old(self)@.noted(id@, message@, final(self).latest()),
    {
        let now = self.tick();
        self.notify_at(id, message, now);
    }

    // ── Queries ───────────────────────────────────────────────────────

    /// All jobs, in the order of their registration.
    pub fn list(&self) -> (r: Vec<&Job>)
        ensures
            r@.map_values(|t: &Job| t@) == self@.jobs.map_values(
                |e: (Seq<char>, JobView)| e.1,
            ),
    {
        let mut r: Vec<&Job> = Vec::new();
        let mut i: usize = 0;
        while i < self.jobs.len()
            invariant
                i <= self.jobs@.len(),
                r@.len() == i,
                forall|k: int| 0 <= k < i ==> (#[trigger] r@[k])@ == self@.jobs[k].1,
            decreases self.jobs.len() - i,
        {
            r.push(&self.jobs[i].1);
            i += 1;
        }
        assert(r@.map_values(|t: &Job| t@) =~= self@.jobs.map_values(
            |e: (Seq<char>, JobView)| e.1,
        ));
        r
    }

    /// The jobs that work, in the order of their registration.
    pub fn running(&self) -> (r: Vec<&Job>)
        ensures
            r@.map_values(|t: &Job| t@) == self@.working(),
    {
        let mut r: Vec<&Job> = Vec::new();
        let ghost wanted = |s: JobState| s == JobState::Working;
        let ghost chosen = |e: (Seq<char>, JobView)| wanted(e.1.state);
        let ghost plain = |e: (Seq<char>, JobView)| e.1;
        let mut i: usize = 0;
        assert(self@.jobs.take(0).filter(chosen).map_values(plain) =~= Seq::empty()) by {
            reveal(Seq::filter);
        }
        while i < self.jobs.len()
            invariant
                i <= self.jobs@.len(),
                wanted == (|s: JobState| s == JobState::Working),
                chosen == (|e: (Seq<char>, JobView)| wanted(e.1.state)),
                plain == (|e: (Seq<char>, JobView)| e.1),
                r@.map_values(|t: &Job| t@) == self@.jobs.take(i as int).filter(
                    chosen,
                ).map_values(plain),
            decreases self.jobs.len() - i,
        {
            let ghost before = r@.map_values(|t: &Job| t@);
            let job = &self.jobs[i].1;
            proof {
                let jobs = self@.jobs;
                assert(jobs.take(i + 1).drop_last() =~= jobs.take(i as int));
                assert(jobs.take(i + 1).last() == jobs[i as int]);
                reveal(Seq::filter);
            }
            if job.state == JobState::Working {
                r.push(job);
                assert(r@.map_values(|t: &Job| t@) =~= before.push(job@));
                assert(self@.jobs.take(i + 1).filter(chosen).map_values(plain) =~= before.push(
                    job@,
                ));
            }
            i += 1;
        }
        assert(self@.jobs.take(self@.jobs.len() as int) =~= self@.jobs);
        r
    }

    /// The jobs that are over, in the order of their registration.
    pub fn finished(&self) -> (r: Vec<&Job>)
        ensures
            r@.map_values(|t: &Job| t@) == self@.in_state(|s: JobState| s.terminal()),
    {
        let mut r: Vec<&Job> = Vec::new();
        let ghost wanted = |s: JobState| s.terminal();
        let ghost chosen = |e: (Seq<char>, JobView)| wanted(e.1.state);
        let ghost plain = |e: (Seq<char>, JobView)| e.1;
        let mut i: usize = 0;
        assert(self@.jobs.take(0).filter(chosen).map_values(plain) =~= Seq::empty()) by {
            reveal(Seq::filter);
        }
        while i < self.jobs.len()
            invariant
                i <= self.jobs@.len(),
                wanted == (|s: JobState| s.terminal()),
                chosen == (|e: (Seq<char>, JobView)| wanted(e.1.state)),
                plain == (|e: (Seq<char>, JobView)| e.1),
                r@.map_values(|t: &Job| t@) == self@.jobs.take(i as int).filter(
                    chosen,
                ).map_values(plain),
            decreases self.jobs.len() - i,
        {
            let ghost before = r@.map_values(|t: &Job| t@);
            let job = &self.jobs[i].1;
            proof {
                let jobs = self@.jobs;
                assert(jobs.take(i + 1).drop_last() =~= jobs.take(i as int));
                assert(jobs.take(i + 1).last() == jobs[i as int]);
                reveal(Seq::filter);
            }
            if job.state.is_terminal() {
                r.push(job);
                assert(r@.map_values(|t: &Job| t@) =~= before.push(job@));
                assert(self@.jobs.take(i + 1).filter(chosen).map_values(plain) =~= before.push(
                    job@,
                ));
            }
            i += 1;
        }
        assert(self@.jobs.take(self@.jobs.len() as int) =~= self@.jobs);
        r
    }

    // ── Removal ───────────────────────────────────────────────────────

    pub fn remove(&mut self, id: &str) -> (r: Option<Job>)
        requires
            old(self).wf(),
        ensures
            final(self).latest() == old(self).latest(),
            final(self).wf(),
            final(self)@ == old(self)@.removed(id@),
            match r {
                Some(t) => old(self)@.get(id@) == Some(t@),
                None => old(self)@.get(id@) is None,
            },
    {
        proof {
            removed_is_gone(self@, id@);
        }
        match self.position(id) {
            Some(i) => {
                let (_key, job) = self.jobs.remove(i);
                assert(self@ =~= old(self)@.removed(id@));
                Some(job)
            },
            None => None,
        }
    }

    /// Drops at `now` the jobs that are over for longer than they are kept.
    pub fn gc_at(&mut self, now: Moment)
        requires
            old(self).wf(),
        ensures
            final(self).latest() == old(self).latest(),
            final(self).wf(),
            final(self)@ == old(self)@.collected(now),
    {
        let ghost jobs = self@.jobs;
        let ghost keep = |e: (Seq<char>, JobView)| retained(e.1, now);
        let ghost mut seen: int = 0;
        let mut i: usize = 0;
        proof {
            assert(jobs.take(0).filter(keep) =~= Seq::empty()) by {
                reveal(Seq::filter);
            }
            assert(jobs.skip(0) =~= jobs);
        }
        while i < self.jobs.len()
            invariant
                i <= self.jobs@.len(),
                0 <= seen <= jobs.len(),
                jobs == old(self)@.jobs,
                keep == (|e: (Seq<char>, JobView)| retained(e.1, now)),
                self@.events == old(self)@.events,
                self.latest() == old(self).latest(),
                self@.jobs.take(i as int) == jobs.take(seen).filter(keep),
                self@.jobs.skip(i as int) == jobs.skip(seen),
            decreases self.jobs.len() - i,
        {
            let ghost now_jobs = self@.jobs;
            proof {
                assert(now_jobs.skip(i as int).len() == jobs.skip(seen).len());
                assert(seen < jobs.len());
                assert(now_jobs.skip(i as int)[0] == jobs.skip(seen)[0]);
                assert(now_jobs[i as int] == jobs[seen]);
                assert(jobs.take(seen + 1).drop_last() =~= jobs.take(seen));
                assert(jobs.take(seen + 1).last() == jobs[seen]);
                reveal(Seq::filter);
                assert(now_jobs.skip(i as int).skip(1) =~= now_jobs.skip(i + 1));
                assert(jobs.skip(seen).skip(1) =~= jobs.skip(seen + 1));
            }
            let job = &self.jobs[i].1;
            let kept = if job.state.is_terminal() {
                now.duration_since(job.last_activity).secs() < (
                job.meta.ttl_after_completion_s as u128)
            } else {
                true
            };
            if kept {
                i += 1;
                assert(self@.jobs.take(i as int) =~= now_jobs.take(i - 1).push(jobs[seen]));
            } else {
                self.jobs.remove(i);
                assert(self@.jobs =~= now_jobs.remove(i as int));
                assert(self@.jobs.take(i as int) =~= now_jobs.take(i as int));
                assert(self@.jobs.skip(i as int) =~= now_jobs.skip(i + 1));
            }
            proof {
                seen = seen + 1;
            }
        }
        proof {
            assert(self@.jobs.skip(i as int).len() == 0);
            assert(jobs.take(seen) =~= jobs);
            assert(self@.jobs.take(i as int) =~= self@.jobs);
            assert(self@ =~= old(self)@.collected(now));
            collected_keeps_keys(old(self)@, now);
        }
    }

    /// Drops the jobs that are over for longer than they are kept.
    pub fn gc(&mut self)
        requires
            old(self).wf(),
        ensures
            final(self).wf(),
            old(self).shows(final(self).latest()),
            final(self)@ == old(self)@.collected(final(self).latest()),
    {
        let now = self.tick();
        self.gc_at(now);
    }

    /// Hands over what is to be delivered, oldest first.
    pub fn take_events(&mut self) -> (r: Vec<JobEvent>)
        ensures
            final(self).latest() == old(self).latest(),
            r@.map_values(|o: JobEvent| o@) == old(self)@.events,
            final(self)@ == (RegistryView { events: Seq::empty(), ..old(self)@ }),
    {
        let mut r: Vec<JobEvent> = Vec::new();
        std::mem::swap(&mut r, &mut self.events);
        assert(self@ =~= (RegistryView { events: Seq::empty(), ..old(self)@ }));
        r
    }
}

/// What is told of a job at `now`.
pub fn make_job_summary(job: &Job, now: Moment) -> (r: JobSummary)
    ensures
        r@ == summary_of(job@, now),
{
    let duration = if job.state == JobState::Working {
        job.worked_duration.plus(now.duration_since(job.last_activity))
    } else {
        job.worked_duration
    };
    JobSummary {
        id: job.id.clone(),
        source: job.source,
        description: job.description.clone(),
        state: job.state,
        duration,
    }
}

} // verus!
