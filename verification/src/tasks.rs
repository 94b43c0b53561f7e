//! The registry of background tasks.
//!
//! Every background operation (subagent, process, resource subscription,
//! long-running tool call, timer) is a [`Task`] with one lifecycle:
//!
//! ```text
//! Working → Completed
//! Working → Failed
//! Working → Cancelled
//! Working → InputRequired → Working (after input provided)
//! Working → (event: PatternMatched) → still Working
//! ```
//!
//! The registry delivers nothing itself. What is to be delivered (events for
//! the agent, handles to cancel) collects in order and is handed over by
//! [`TaskRegistry::take_outgoing`].
use crate::message::{
    ContentBlockView, Message, MessageContentBlock, MessageView, SystemNotificationType,
};
use crate::text;
use crate::time::{Clock, Moment, Span};
use serde_json::Value;
use tokio_util::sync::CancellationToken;
use vstd::prelude::*;
use vstd::string::*;

verus! {

/// Unique identifier for a task.
pub type TaskId = String;

/// Unique identifier for a batch of related tasks.
pub type BatchId = String;

/// The source of a task.
#[derive(Debug, Clone, Copy, PartialEq, Eq, Structural)]
pub enum TaskSource {
    /// A subagent working in the background.
    Subagent,
    /// A long-running process (shell command, build, etc.).
    Process,
    /// A resource subscription being watched.
    McpResource,
    /// A long-running tool call.
    McpTool,
    /// An orchestrator-managed swarm agent.
    SwarmAgent,
    /// A scheduled timer or reminder.
    Timer,
}

/// Current state of a task.
#[derive(Debug, Clone, Copy, PartialEq, Eq, Structural)]
pub enum TaskState {
    /// Actively running.
    Working,
    /// Waiting for input from the user or the parent agent.
    InputRequired,
    /// Successfully completed.
    Completed,
    /// Errored or crashed.
    Failed,
    /// Cancelled by the user or the agent.
    Cancelled,
}

impl TaskState {
    /// The task is over.
    pub open spec fn terminal(self) -> bool {
        self == TaskState::Completed || self == TaskState::Failed || self == TaskState::Cancelled
    }

    pub fn is_terminal(&self) -> (r: bool)
        ensures
            r == self.terminal(),
    {
        match self {
            TaskState::Completed => true,
            TaskState::Failed => true,
            TaskState::Cancelled => true,
            _ => false,
        }
    }
}

/// Which transitions force a turn of the agent.
#[derive(Debug, Clone, Copy, PartialEq, Eq, Structural)]
pub struct InterruptPolicy {
    pub on_complete: bool,
    pub on_failed: bool,
    pub on_input_required: bool,
    pub on_pattern_matched: bool,
}

impl InterruptPolicy {
    /// Whether reaching `state` forces a turn.
    pub open spec fn interrupts(self, state: TaskState) -> bool {
        match state {
            TaskState::Completed => self.on_complete,
            TaskState::Failed => self.on_failed,
            _ => false,
        }
    }

    /// The policy that interrupts whenever it can.
    pub open spec fn always() -> InterruptPolicy {
        InterruptPolicy {
            on_complete: true,
            on_failed: true,
            on_input_required: true,
            on_pattern_matched: true,
        }
    }
}

impl Default for InterruptPolicy {
    fn default() -> (r: Self)
        ensures
            r == InterruptPolicy::always(),
    {
        InterruptPolicy {
            on_complete: true,
            on_failed: true,
            on_input_required: true,
            on_pattern_matched: true,
        }
    }
}

/// Hints for polling and retention.
#[derive(Debug, Clone, Copy, PartialEq, Eq, Structural)]
pub struct TaskMeta {
    /// Don't poll more often than this.
    pub min_poll_interval_ms: u64,
    /// How long a task is kept after it reached a terminal state.
    pub ttl_after_completion_s: u64,
    /// Which transitions force a turn.
    pub interrupt_on: InterruptPolicy,
    /// For timers: when the timer fires.
    pub deadline: Option<Moment>,
}

impl TaskMeta {
    /// Poll at most once a second, keep for five minutes, always interrupt.
    pub open spec fn usual() -> TaskMeta {
        TaskMeta {
            min_poll_interval_ms: 1000,
            ttl_after_completion_s: 300,
            interrupt_on: InterruptPolicy::always(),
            deadline: None,
        }
    }
}

impl Default for TaskMeta {
    fn default() -> (r: Self)
        ensures
            r == TaskMeta::usual(),
    {
        TaskMeta {
            min_poll_interval_ms: 1000,
            ttl_after_completion_s: 300,
            interrupt_on: InterruptPolicy::default(),
            deadline: None,
        }
    }
}

/// When the end of a task forces a turn of the agent.
#[derive(Debug, Clone, Copy, PartialEq, Eq, Structural)]
pub enum NotifyPolicy {
    /// Never force a turn.
    Informational,
    /// Force a turn when this very task completes or fails.
    OnCompletion,
    /// Force a turn only when all tasks of the batch are over.
    OnBatchCompletion,
}

impl Default for NotifyPolicy {
    fn default() -> (r: Self)
        ensures
            r == NotifyPolicy::OnBatchCompletion,
    {
        NotifyPolicy::OnBatchCompletion
    }
}

/// A timestamped notification from a task.
#[derive(Debug, Clone)]
pub struct TaskNotification {
    pub timestamp: Moment,
    pub message: String,
}

#[verifier::ext_equal]
pub struct NotificationView {
    pub timestamp: Moment,
    pub message: Seq<char>,
}

impl View for TaskNotification {
    type V = NotificationView;

    open spec fn view(&self) -> NotificationView {
        NotificationView { timestamp: self.timestamp, message: self.message@ }
    }
}

/// A single tracked task.
#[derive(Debug)]
pub struct Task {
    pub id: TaskId,
    pub source: TaskSource,
    pub description: String,
    pub state: TaskState,
    pub batch_id: Option<BatchId>,
    pub notify_policy: NotifyPolicy,
    pub meta: TaskMeta,
    pub created_at: Moment,
    pub last_activity: Moment,
    /// Time spent in the Working state, up to the last activity.
    pub worked_duration: Span,
    pub notifications: Vec<TaskNotification>,
    /// Human-readable message on the current state.
    pub status_message: Option<String>,
    /// Structured result of a completed task.
    pub result: Option<Value>,
    /// Structured error of a failed task.
    pub error: Option<Value>,
    /// Flat summary of the result.
    pub result_summary: Option<String>,
    /// The question that a task in the InputRequired state waits on.
    pub input_request: Option<String>,
    /// Time to live in milliseconds from creation; none is unlimited.
    pub ttl_ms: Option<u64>,
    /// Suggested polling interval in milliseconds.
    pub poll_interval_ms: Option<u64>,
    /// Cancels the underlying operation.
    pub cancellation_token: Option<CancellationToken>,
}

#[verifier::ext_equal]
pub struct TaskView {
    pub id: Seq<char>,
    pub source: TaskSource,
    pub description: Seq<char>,
    pub state: TaskState,
    pub batch_id: Option<Seq<char>>,
    pub notify_policy: NotifyPolicy,
    pub meta: TaskMeta,
    pub created_at: Moment,
    pub last_activity: Moment,
    pub worked_duration: Span,
    pub notifications: Seq<NotificationView>,
    pub status_message: Option<Seq<char>>,
    pub result: Option<Value>,
    pub error: Option<Value>,
    pub result_summary: Option<Seq<char>>,
    pub input_request: Option<Seq<char>>,
    pub ttl_ms: Option<u64>,
    pub poll_interval_ms: Option<u64>,
    pub cancellation_token: Option<CancellationToken>,
}

impl View for Task {
    type V = TaskView;

    open spec fn view(&self) -> TaskView {
        TaskView {
            id: self.id@,
            source: self.source,
            description: self.description@,
            state: self.state,
            batch_id: text::opt_text(self.batch_id),
            notify_policy: self.notify_policy,
            meta: self.meta,
            created_at: self.created_at,
            last_activity: self.last_activity,
            worked_duration: self.worked_duration,
            notifications: self.notifications@.map_values(|n: TaskNotification| n@),
            status_message: text::opt_text(self.status_message),
            result: self.result,
            error: self.error,
            result_summary: text::opt_text(self.result_summary),
            input_request: text::opt_text(self.input_request),
            ttl_ms: self.ttl_ms,
            poll_interval_ms: self.poll_interval_ms,
            cancellation_token: self.cancellation_token,
        }
    }
}

/// What is told of a task when it is over.
#[derive(Debug, Clone)]
pub struct TaskSummary {
    pub id: TaskId,
    pub source: TaskSource,
    pub description: String,
    pub state: TaskState,
    pub duration: Span,
    pub result_summary: Option<String>,
    pub status_message: Option<String>,
    pub result: Option<Value>,
    pub error: Option<Value>,
}

#[verifier::ext_equal]
pub struct TaskSummaryView {
    pub id: Seq<char>,
    pub source: TaskSource,
    pub description: Seq<char>,
    pub state: TaskState,
    pub duration: Span,
    pub result_summary: Option<Seq<char>>,
    pub status_message: Option<Seq<char>>,
    pub result: Option<Value>,
    pub error: Option<Value>,
}

impl View for TaskSummary {
    type V = TaskSummaryView;

    open spec fn view(&self) -> TaskSummaryView {
        TaskSummaryView {
            id: self.id@,
            source: self.source,
            description: self.description@,
            state: self.state,
            duration: self.duration,
            result_summary: text::opt_text(self.result_summary),
            status_message: text::opt_text(self.status_message),
            result: self.result,
            error: self.error,
        }
    }
}

/// Something that the agent is told of.
#[derive(Debug, Clone)]
pub enum TaskEvent {
    /// All tasks of a batch are over.
    BatchCompleted { batch_id: BatchId, task_summaries: Vec<TaskSummary> },
    /// A single task with the OnCompletion policy is over.
    TaskCompleted { task: TaskSummary },
    /// A task needs input to continue.
    TaskNeedsInput { task_id: TaskId, question: String },
    /// A pattern was matched in the task's output; the task goes on.
    PatternMatched { task_id: TaskId, pattern: String, context: String },
}

#[verifier::ext_equal]
pub enum TaskEventView {
    BatchCompleted { batch_id: Seq<char>, task_summaries: Seq<TaskSummaryView> },
    TaskCompleted { task: TaskSummaryView },
    TaskNeedsInput { task_id: Seq<char>, question: Seq<char> },
    PatternMatched { task_id: Seq<char>, pattern: Seq<char>, context: Seq<char> },
}

impl View for TaskEvent {
    type V = TaskEventView;

    open spec fn view(&self) -> TaskEventView {
        match *self {
            TaskEvent::BatchCompleted { batch_id, task_summaries } => TaskEventView::BatchCompleted {
                batch_id: batch_id@,
                task_summaries: task_summaries@.map_values(|s: TaskSummary| s@),
            },
            TaskEvent::TaskCompleted { task } => TaskEventView::TaskCompleted { task: task@ },
            TaskEvent::TaskNeedsInput { task_id, question } => TaskEventView::TaskNeedsInput {
                task_id: task_id@,
                question: question@,
            },
            TaskEvent::PatternMatched { task_id, pattern, context } => {
                TaskEventView::PatternMatched {
                    task_id: task_id@,
                    pattern: pattern@,
                    context: context@,
                }
            },
        }
    }
}

/// Something that the registry asks its owner to do.
#[derive(Debug, Clone)]
pub enum Outgoing {
    /// Cancel the operation behind this handle.
    Fire(CancellationToken),
    /// Tell the agent.
    Event(TaskEvent),
}

#[verifier::ext_equal]
pub enum OutgoingView {
    Fire(CancellationToken),
    Event(TaskEventView),
}

impl View for Outgoing {
    type V = OutgoingView;

    open spec fn view(&self) -> OutgoingView {
        match *self {
            Outgoing::Fire(token) => OutgoingView::Fire(token),
            Outgoing::Event(event) => OutgoingView::Event(event@),
        }
    }
}

// ── Model ─────────────────────────────────────────────────────────────

/// The registry as a list of tasks under their keys, in the order of their
/// first registration, and what is to be delivered, oldest first.
#[verifier::ext_equal]
pub struct RegistryView {
    pub tasks: Seq<(Seq<char>, TaskView)>,
    pub outgoing: Seq<OutgoingView>,
}

/// The entry `i` of the list is kept under `id`.
pub open spec fn keyed(tasks: Seq<(Seq<char>, TaskView)>, id: Seq<char>, i: int) -> bool {
    0 <= i < tasks.len() && tasks[i].0 == id
}

/// The task as it stands once its state moved to `state` at `now`.
pub open spec fn moved(
    t: TaskView,
    state: TaskState,
    summary: Option<Seq<char>>,
    now: Moment,
) -> TaskView {
    TaskView {
        state,
        worked_duration: worked_until(t, now),
        last_activity: now,
        result_summary: summary,
        status_message: if summary is Some {
            summary
        } else {
            t.status_message
        },
        ..t
    }
}

/// The time that the task has worked up to `now`.
pub open spec fn worked_until(t: TaskView, now: Moment) -> Span {
    if t.state == TaskState::Working {
        t.worked_duration.with(now.since(t.last_activity))
    } else {
        t.worked_duration
    }
}

/// The task once it asked `question` at `now`.
pub open spec fn asking(t: TaskView, question: Seq<char>, now: Moment) -> TaskView {
    TaskView {
        worked_duration: worked_until(t, now),
        state: TaskState::InputRequired,
        input_request: Some(question),
        last_activity: now,
        ..t
    }
}

/// The task once it was active at `now`: the work up to then is counted.
pub open spec fn active(t: TaskView, now: Moment) -> TaskView {
    TaskView { worked_duration: worked_until(t, now), last_activity: now, ..t }
}

/// The task with one more notification, received at `now`.
pub open spec fn notified(t: TaskView, message: Seq<char>, now: Moment) -> TaskView {
    TaskView {
        notifications: t.notifications.push(NotificationView { timestamp: now, message }),
        ..active(t, now)
    }
}

/// What is told of the task at `now`.
pub open spec fn summary_of(t: TaskView, now: Moment) -> TaskSummaryView {
    TaskSummaryView {
        id: t.id,
        source: t.source,
        description: t.description,
        state: t.state,
        duration: worked_until(t, now),
        result_summary: t.result_summary,
        status_message: t.status_message,
        result: t.result,
        error: t.error,
    }
}

/// The entries of a batch.
pub open spec fn in_batch(batch_id: Seq<char>) -> spec_fn((Seq<char>, TaskView)) -> bool {
    |e: (Seq<char>, TaskView)| e.1.batch_id == Some(batch_id)
}

/// What is told of the tasks of a batch, in their order.
pub open spec fn batch_summaries(
    tasks: Seq<(Seq<char>, TaskView)>,
    batch_id: Seq<char>,
    now: Moment,
) -> Seq<TaskSummaryView> {
    tasks.filter(in_batch(batch_id)).map_values(|e: (Seq<char>, TaskView)| summary_of(e.1, now))
}

/// The batch has tasks, and all of them are over.
pub open spec fn batch_done(tasks: Seq<(Seq<char>, TaskView)>, batch_id: Seq<char>) -> bool {
    &&& exists|i: int| 0 <= i < tasks.len() && (#[trigger] tasks[i]).1.batch_id == Some(batch_id)
    &&& forall|i: int|
        0 <= i < tasks.len() && (#[trigger] tasks[i]).1.batch_id == Some(batch_id)
            ==> tasks[i].1.state.terminal()
}

/// The event that a batch is over, if it is.
pub open spec fn batch_events(
    tasks: Seq<(Seq<char>, TaskView)>,
    batch_id: Seq<char>,
    now: Moment,
) -> Seq<OutgoingView> {
    if batch_done(tasks, batch_id) {
        seq![
            OutgoingView::Event(
                TaskEventView::BatchCompleted {
                    batch_id,
                    task_summaries: batch_summaries(tasks, batch_id, now),
                },
            ),
        ]
    } else {
        Seq::empty()
    }
}

/// The events that follow when `t`, one of `tasks`, has reached its state.
pub open spec fn arrival_events(
    tasks: Seq<(Seq<char>, TaskView)>,
    t: TaskView,
    now: Moment,
) -> Seq<OutgoingView> {
    match t.notify_policy {
        NotifyPolicy::OnCompletion => if t.meta.interrupt_on.interrupts(t.state) {
            seq![
                OutgoingView::Event(TaskEventView::TaskCompleted { task: summary_of(t, now) }),
            ]
        } else {
            Seq::empty()
        },
        NotifyPolicy::OnBatchCompletion => match t.batch_id {
            Some(batch_id) => batch_events(tasks, batch_id, now),
            None => Seq::empty(),
        },
        NotifyPolicy::Informational => Seq::empty(),
    }
}

/// The task outlives a collection at `now`.
pub open spec fn retained(t: TaskView, now: Moment) -> bool {
    t.state.terminal() ==> now.since(t.last_activity).whole_secs()
        < t.meta.ttl_after_completion_s
}

impl RegistryView {
    /// No two entries have the same key.
    pub open spec fn keys_distinct(self) -> bool {
        forall|i: int, j: int|
            0 <= i < j < self.tasks.len() ==> (#[trigger] self.tasks[i]).0 != (
            #[trigger] self.tasks[j]).0
    }

    pub open spec fn has(self, id: Seq<char>) -> bool {
        exists|i: int| keyed(self.tasks, id, i)
    }

    /// The entry of a key that is there.
    pub open spec fn slot(self, id: Seq<char>) -> int {
        choose|i: int| keyed(self.tasks, id, i)
    }

    /// The task kept under a key.
    pub open spec fn get(self, id: Seq<char>) -> Option<TaskView> {
        if self.has(id) {
            Some(self.tasks[self.slot(id)].1)
        } else {
            None
        }
    }

    /// The registry with another task under a key that is there.
    pub open spec fn with_task(self, id: Seq<char>, task: TaskView) -> RegistryView {
        RegistryView { tasks: self.tasks.update(self.slot(id), (id, task)), ..self }
    }

    /// The registry with more to deliver.
    pub open spec fn sending(self, more: Seq<OutgoingView>) -> RegistryView {
        RegistryView { outgoing: self.outgoing + more, ..self }
    }

    pub open spec fn registered(self, task: TaskView) -> RegistryView {
        if self.has(task.id) {
            self.with_task(task.id, task)
        } else {
            RegistryView { tasks: self.tasks.push((task.id, task)), ..self }
        }
    }

    pub open spec fn removed(self, id: Seq<char>) -> RegistryView {
        if self.has(id) {
            RegistryView { tasks: self.tasks.remove(self.slot(id)), ..self }
        } else {
            self
        }
    }

    /// There is a task under `id` that is not over.
    pub open spec fn unfinished(self, id: Seq<char>) -> bool {
        self.get(id) matches Some(t) && !t.state.terminal()
    }

    /// The task under `id` moves to `state`, unless it is over already.
    pub open spec fn transitioned(
        self,
        id: Seq<char>,
        state: TaskState,
        summary: Option<Seq<char>>,
        now: Moment,
    ) -> RegistryView {
        match self.get(id) {
            Some(t) if !t.state.terminal() => {
                let arrived = moved(t, state, summary, now);
                let next = self.with_task(id, arrived);
                next.sending(arrival_events(next.tasks, arrived, now))
            },
            _ => self,
        }
    }

    /// The task under `id` gets a result and a status message, unless it is
    /// over already.
    pub open spec fn with_result(
        self,
        id: Seq<char>,
        result: Value,
        status_message: Option<Seq<char>>,
    ) -> RegistryView {
        match self.get(id) {
            Some(t) if !t.state.terminal() => self.with_task(
                id,
                TaskView { result: Some(result), status_message, ..t },
            ),
            _ => self,
        }
    }

    /// The task under `id` gets an error and a status message, unless it is
    /// over already.
    pub open spec fn with_error(
        self,
        id: Seq<char>,
        error: Value,
        status_message: Option<Seq<char>>,
    ) -> RegistryView {
        match self.get(id) {
            Some(t) if !t.state.terminal() => self.with_task(
                id,
                TaskView { error: Some(error), status_message, ..t },
            ),
            _ => self,
        }
    }

    /// The handle of the task under `id` is asked to be cancelled.
    pub open spec fn firing(self, id: Seq<char>) -> RegistryView {
        match self.get(id) {
            Some(t) => match t.cancellation_token {
                Some(token) => self.sending(seq![OutgoingView::Fire(token)]),
                None => self,
            },
            None => self,
        }
    }

    pub open spec fn cancelled(self, id: Seq<char>, now: Moment) -> RegistryView {
        self.firing(id).transitioned(id, TaskState::Cancelled, Some("cancelled"@), now)
    }

    /// The task under `id` asks for input, unless it is over already.
    pub open spec fn asked(self, id: Seq<char>, question: Seq<char>, now: Moment) -> RegistryView {
        match self.get(id) {
            Some(t) if !t.state.terminal() => {
                let next = self.with_task(id, asking(t, question, now));
                if t.meta.interrupt_on.on_input_required {
                    next.sending(
                        seq![
                            OutgoingView::Event(
                                TaskEventView::TaskNeedsInput { task_id: id, question },
                            ),
                        ],
                    )
                } else {
                    next
                }
            },
            _ => self,
        }
    }

    pub open spec fn resumed(self, id: Seq<char>, now: Moment) -> RegistryView {
        match self.get(id) {
            Some(t) if t.state == TaskState::InputRequired => self.with_task(
                id,
                TaskView { state: TaskState::Working, last_activity: now, ..t },
            ),
            _ => self,
        }
    }

    pub open spec fn matched(
        self,
        id: Seq<char>,
        pattern: Seq<char>,
        context: Seq<char>,
        now: Moment,
    ) -> RegistryView {
        match self.get(id) {
            Some(t) => {
                let next = self.with_task(
                    id,
                    TaskView {
                        status_message: Some("Pattern '"@ + pattern + "' matched"@),
                        ..notified(t, "pattern matched: "@ + pattern, now)
                    },
                );
                if t.meta.interrupt_on.on_pattern_matched {
                    next.sending(
                        seq![
                            OutgoingView::Event(
                                TaskEventView::PatternMatched { task_id: id, pattern, context },
                            ),
                        ],
                    )
                } else {
                    next
                }
            },
            None => self,
        }
    }

    pub open spec fn noted(self, id: Seq<char>, message: Seq<char>, now: Moment) -> RegistryView {
        match self.get(id) {
            Some(t) => self.with_task(id, notified(t, message, now)),
            None => self,
        }
    }

    /// The task under `id` was active at `now`.
    pub open spec fn touched(self, id: Seq<char>, now: Moment) -> RegistryView {
        match self.get(id) {
            Some(t) => self.with_task(id, active(t, now)),
            None => self,
        }
    }

    pub open spec fn collected(self, now: Moment) -> RegistryView {
        RegistryView {
            tasks: self.tasks.filter(|e: (Seq<char>, TaskView)| retained(e.1, now)),
            ..self
        }
    }

    /// The tasks whose state is as `wanted`, in their order.
    pub open spec fn in_state(self, wanted: spec_fn(TaskState) -> bool) -> Seq<TaskView> {
        self.tasks.filter(|e: (Seq<char>, TaskView)| wanted(e.1.state)).map_values(
            |e: (Seq<char>, TaskView)| e.1,
        )
    }

    /// The tasks that are over, in their order.
    pub open spec fn over(self) -> Seq<TaskView> {
        self.in_state(|s: TaskState| s.terminal())
    }
}

/// With distinct keys, the entry that has a key is its slot.
pub proof fn slot_is_unique(r: RegistryView, id: Seq<char>, i: int)
    requires
        r.keys_distinct(),
        keyed(r.tasks, id, i),
    ensures
        r.has(id),
        r.slot(id) == i,
        r.get(id) == Some(r.tasks[i].1),
{
    let s = r.slot(id);
    assert(keyed(r.tasks, id, s));
    if s < i {
        assert(r.tasks[s].0 != r.tasks[i].0);
    } else if i < s {
        assert(r.tasks[i].0 != r.tasks[s].0);
    }
}

/// Replacing a task changes what is kept under its key, and nothing else.
pub proof fn replacing_is_local(r: RegistryView, id: Seq<char>, t: TaskView)
    requires
        r.keys_distinct(),
        r.has(id),
    ensures
        r.with_task(id, t).keys_distinct(),
        r.with_task(id, t).get(id) == Some(t),
        r.with_task(id, t).slot(id) == r.slot(id),
        forall|other: Seq<char>|
            other != id ==> #[trigger] r.with_task(id, t).get(other) == r.get(other),
{
    let next = r.with_task(id, t);
    let s = r.slot(id);
    assert(keyed(r.tasks, id, s));
    assert forall|i: int| 0 <= i < next.tasks.len() implies (#[trigger] next.tasks[i]).0
        == r.tasks[i].0 by {}
    assert(next.keys_distinct());
    assert(keyed(next.tasks, id, s));
    slot_is_unique(next, id, s);
    assert forall|other: Seq<char>| other != id implies #[trigger] next.get(other) == r.get(
        other,
    ) by {
        if r.has(other) {
            let o = r.slot(other);
            assert(keyed(r.tasks, other, o));
            assert(keyed(next.tasks, other, o));
            slot_is_unique(next, other, o);
        }
        if next.has(other) {
            let o = next.slot(other);
            assert(keyed(next.tasks, other, o));
            assert(keyed(r.tasks, other, o));
        }
    }
}

/// What is registered is found under its identifier, whatever was there, and
/// every other key keeps its task.
pub proof fn registered_is_found(r: RegistryView, t: TaskView)
    requires
        r.keys_distinct(),
    ensures
        r.registered(t).keys_distinct(),
        r.registered(t).get(t.id) == Some(t),
        forall|other: Seq<char>|
            other != t.id ==> #[trigger] r.registered(t).get(other) == r.get(other),
{
    let next = r.registered(t);
    if r.has(t.id) {
        replacing_is_local(r, t.id, t);
    } else {
        assert forall|i: int| 0 <= i < r.tasks.len() implies (#[trigger] next.tasks[i])
            == r.tasks[i] && next.tasks[i].0 != t.id by {
            if r.tasks[i].0 == t.id {
                assert(keyed(r.tasks, t.id, i));
            }
        }
        assert(next.keys_distinct());
        assert(keyed(next.tasks, t.id, r.tasks.len() as int));
        slot_is_unique(next, t.id, r.tasks.len() as int);
        assert forall|other: Seq<char>| other != t.id implies #[trigger] next.get(other)
            == r.get(other) by {
            if r.has(other) {
                let o = r.slot(other);
                assert(keyed(r.tasks, other, o));
                assert(keyed(next.tasks, other, o));
                slot_is_unique(next, other, o);
            }
            if next.has(other) {
                let o = next.slot(other);
                assert(keyed(next.tasks, other, o));
                assert(keyed(r.tasks, other, o));
            }
        }
    }
}

/// What is removed is gone, and every other key keeps its task.
pub proof fn removed_is_gone(r: RegistryView, id: Seq<char>)
    requires
        r.keys_distinct(),
    ensures
        r.removed(id).keys_distinct(),
        r.removed(id).get(id) is None,
        forall|other: Seq<char>|
            other != id ==> #[trigger] r.removed(id).get(other) == r.get(other),
{
    let next = r.removed(id);
    if r.has(id) {
        let s = r.slot(id);
        assert(keyed(r.tasks, id, s));
        assert forall|i: int| 0 <= i < next.tasks.len() implies (#[trigger] next.tasks[i])
            == r.tasks[if i < s { i } else { i + 1 }] by {}
        assert(next.keys_distinct());
        if next.has(id) {
            let i = next.slot(id);
            assert(keyed(next.tasks, id, i));
            let o = if i < s { i } else { i + 1 };
            assert(keyed(r.tasks, id, o));
            slot_is_unique(r, id, o);
        }
        assert forall|other: Seq<char>| other != id implies #[trigger] next.get(other) == r.get(
            other,
        ) by {
            if r.has(other) {
                let o = r.slot(other);
                assert(keyed(r.tasks, other, o));
                let i = if o < s { o } else { o - 1 };
                assert(keyed(next.tasks, other, i));
                slot_is_unique(next, other, i);
            }
            if next.has(other) {
                let i = next.slot(other);
                assert(keyed(next.tasks, other, i));
                let o = if i < s { i } else { i + 1 };
                assert(keyed(r.tasks, other, o));
            }
        }
    }
}

/// A filtered sequence holds elements of the sequence in their order.
proof fn filter_keeps_distinct(
    s: Seq<(Seq<char>, TaskView)>,
    keep: spec_fn((Seq<char>, TaskView)) -> bool,
)
    requires
        forall|i: int, j: int|
            0 <= i < j < s.len() ==> (#[trigger] s[i]).0 != (#[trigger] s[j]).0,
    ensures
        forall|i: int, j: int|
            0 <= i < j < s.filter(keep).len() ==> (#[trigger] s.filter(keep)[i]).0 != (
            #[trigger] s.filter(keep)[j]).0,
        forall|i: int|
            0 <= i < s.filter(keep).len() ==> s.contains(#[trigger] s.filter(keep)[i]) && keep(
                s.filter(keep)[i],
            ),
    decreases s.len(),
{
    reveal(Seq::filter);
    if s.len() > 0 {
        let front = s.drop_last();
        filter_keeps_distinct(front, keep);
        let f = front.filter(keep);
        assert forall|i: int| 0 <= i < f.len() implies s.contains(#[trigger] f[i]) && f[i].0
            != s.last().0 by {
            let k = choose|k: int| 0 <= k < front.len() && front[k] == f[i];
            assert(front.contains(f[i]));
            assert(s[k] == f[i]);
        }
        assert(s[s.len() - 1] == s.last());
    }
}

/// The entry `k` holds `t`, which is over.
pub open spec fn over_at(r: RegistryView, t: TaskView, k: int) -> bool {
    0 <= k < r.tasks.len() && r.tasks[k].1 == t && t.state.terminal()
}

/// Some entry holds `t`, which is over.
pub open spec fn is_held_over(r: RegistryView, t: TaskView) -> bool {
    exists|k: int| over_at(r, t, k)
}

/// The tasks that are over are the entries that are over, and no others.
pub proof fn over_is_exact(r: RegistryView)
    ensures
        forall|i: int|
            0 <= i < r.over().len() ==> is_held_over(r, #[trigger] r.over()[i]),
        forall|k: int|
            0 <= k < r.tasks.len() && (#[trigger] r.tasks[k]).1.state.terminal() ==> exists|
                i: int,
            |
                0 <= i < r.over().len() && #[trigger] r.over()[i] == r.tasks[k].1,
{
    let wanted = |s: TaskState| s.terminal();
    let chosen = |e: (Seq<char>, TaskView)| wanted(e.1.state);
    let plain = |e: (Seq<char>, TaskView)| e.1;
    let picked = r.tasks.filter(chosen);
    assert(r.over() == picked.map_values(plain));
    assert forall|i: int| 0 <= i < r.over().len() implies is_held_over(
        r,
        #[trigger] r.over()[i],
    ) by {
        r.tasks.lemma_filter_pred(chosen, i);
        assert(picked.contains(picked[i]));
        r.tasks.lemma_filter_contains_rev(chosen, picked[i]);
        let k = choose|k: int| 0 <= k < r.tasks.len() && r.tasks[k] == picked[i];
        assert(over_at(r, r.over()[i], k));
    }
    assert forall|k: int|
        0 <= k < r.tasks.len() && (#[trigger] r.tasks[k]).1.state.terminal() implies exists|i: int|
        0 <= i < r.over().len() && #[trigger] r.over()[i] == r.tasks[k].1 by {
        r.tasks.lemma_filter_contains(chosen, k);
        let i = choose|i: int| 0 <= i < picked.len() && picked[i] == r.tasks[k];
        assert(r.over()[i] == r.tasks[k].1);
    }
}

/// A collection keeps the keys distinct.
pub proof fn collected_keeps_keys(r: RegistryView, now: Moment)
    requires
        r.keys_distinct(),
    ensures
        r.collected(now).keys_distinct(),
{
    filter_keeps_distinct(r.tasks, |e: (Seq<char>, TaskView)| retained(e.1, now));
}

// ── Registry ──────────────────────────────────────────────────────────

/// The tasks of a session.
#[derive(Debug)]
pub struct TaskRegistry {
    tasks: Vec<(TaskId, Task)>,
    outgoing: Vec<Outgoing>,
    clock: Clock,
    /// The last moment that the registry acted at by its clock.
    latest: Moment,
}

impl View for TaskRegistry {
    type V = RegistryView;

    closed spec fn view(&self) -> RegistryView {
        RegistryView {
            tasks: self.tasks@.map_values(|e: (TaskId, Task)| (e.0@, e.1@)),
            outgoing: self.outgoing@.map_values(|o: Outgoing| o@),
        }
    }
}

impl TaskRegistry {
    /// The invariant of every registry.
    pub open spec fn wf(&self) -> bool {
        self@.keys_distinct() && self.latest().standard()
    }

    /// The last moment that the registry acted at by its clock.
    pub closed spec fn latest(&self) -> Moment {
        self.latest
    }

    /// The clock was read, and this is the moment that it showed or, if that
    /// lies before the last one, the last one.
    pub closed spec fn read_off_the_clock(&self, now: Moment) -> bool {
        exists|c: Moment|
            #![trigger call_ensures(Clock::now, (&self.clock,), c)]
            call_ensures(Clock::now, (&self.clock,), c) && now == (if c.reached(self.latest) {
                c
            } else {
                self.latest
            })
    }

    /// The registry's clock shows this moment: it was read off the clock, and
    /// does not go back.
    pub open spec fn shows(&self, now: Moment) -> bool {
        now.standard() && now.reached(self.latest()) && self.read_off_the_clock(now)
    }

    pub fn new() -> (r: TaskRegistry)
        ensures
            r.wf(),
            r@ == (RegistryView { tasks: Seq::empty(), outgoing: Seq::empty() }),
            r.latest() == (Moment { since_start: Span::none() }),
    {
        let r = TaskRegistry {
            tasks: Vec::new(),
            outgoing: Vec::new(),
            clock: Clock::start(),
            latest: Moment { since_start: Span::zero() },
        };
        assert(r@.tasks =~= Seq::empty());
        assert(r@.outgoing =~= Seq::empty());
        r
    }

    /// The moment that the registry's clock shows.
    pub fn now(&self) -> (r: Moment)
        requires
            self.wf(),
        ensures
            self.shows(r),
    {
        let now = self.clock.now();
        if now.has_reached(self.latest) {
            now
        } else {
            self.latest
        }
    }

    /// Reads the clock, for what is done at that moment.
    pub fn tick(&mut self) -> (r: Moment)
        requires
            old(self).wf(),
        ensures
            final(self).wf(),
            final(self)@ == old(self)@,
            old(self).shows(r),
            final(self).latest() == r,
    {
        let now = self.now();
        self.latest = now;
        now
    }

    fn position(&self, id: &str) -> (r: Option<usize>)
        requires
            self.wf(),
        ensures
            match r {
                Some(i) => self@.has(id@) && i == self@.slot(id@) && i < self.tasks@.len(),
                None => !self@.has(id@),
            },
    {
        let mut i: usize = 0;
        while i < self.tasks.len()
            invariant
                i <= self.tasks@.len(),
                self.wf(),
                forall|j: int| 0 <= j < i ==> self@.tasks[j].0 != id@,
            decreases self.tasks.len() - i,
        {
            if text::same_text(self.tasks[i].0.as_str(), id) {
                assert(keyed(self@.tasks, id@, i as int));
                return Some(i);
            }
            i += 1;
        }
        None
    }

    pub fn register(&mut self, task: Task)
        requires
            old(self).wf(),
        ensures
            final(self).latest() == old(self).latest(),
            final(self).wf(),
            final(self)@ == old(self)@.registered(task@),
    {
        let key = task.id.clone();
        match self.position(key.as_str()) {
            Some(i) => {
                self.tasks.set(i, (key, task));
            },
            None => {
                self.tasks.push((key, task));
            },
        }
        assert(self@ =~= old(self)@.registered(task@));
        proof {
            registered_is_found(old(self)@, task@);
        }
    }

    pub fn get(&self, id: &str) -> (r: Option<&Task>)
        requires
            self.wf(),
        ensures
            match r {
                Some(t) => self@.get(id@) == Some(t@),
                None => self@.get(id@) is None,
            },
    {
        match self.position(id) {
            Some(i) => Some(&self.tasks[i].1),
            None => None,
        }
    }

    pub fn get_mut(&mut self, id: &str) -> (r: Option<&mut Task>)
        requires
            old(self).wf(),
        ensures
            final(self).latest() == old(self).latest(),
            match r {
                Some(t) => old(self)@.get(id@) == Some((*t)@) && final(self)@ == old(
                    self,
                )@.with_task(id@, (*final(t))@),
                None => old(self)@.get(id@) is None && final(self)@ == old(self)@,
            },
            final(self).wf(),
    {
        match self.position(id) {
            Some(i) => {
                proof {
                    assert forall|r: TaskRegistry|
                        r.latest == self.latest && r.tasks@.len() == self.tasks@.len() && (forall|k: int|
                            0 <= k < r.tasks@.len() ==> (#[trigger] r.tasks@[k]).0
                                == self.tasks@[k].0) implies #[trigger] r.wf() by {
                        assert forall|k: int| 0 <= k < r@.tasks.len() implies (
                        #[trigger] r@.tasks[k]).0 == self@.tasks[k].0 by {
                            assert(r.tasks@[k].0 == self.tasks@[k].0);
                        }
                    }
                }
                Some(&mut self.tasks[i].1)
            },
            None => None,
        }
    }

    // ── Transitions ───────────────────────────────────────────────────

    /// Tells of the batch if all its tasks are over.
    fn check_batch_completion(&mut self, batch_id: &str, now: Moment)
        ensures
            final(self).latest() == old(self).latest(),
            final(self)@ == old(self)@.sending(batch_events(old(self)@.tasks, batch_id@, now)),
            final(self).tasks == old(self).tasks,
    {
        let mut summaries: Vec<TaskSummary> = Vec::new();
        let ghost chosen = in_batch(batch_id@);
        let ghost telling = |e: (Seq<char>, TaskView)| summary_of(e.1, now);
        let ghost tasks = self@.tasks;
        let mut found = false;
        let mut i: usize = 0;
        assert(tasks.take(0).filter(chosen).map_values(telling) =~= Seq::empty()) by {
            reveal(Seq::filter);
        }
        while i < self.tasks.len()
            invariant
                i <= self.tasks@.len(),
                *self == *old(self),
                tasks == self@.tasks,
                chosen == in_batch(batch_id@),
                telling == (|e: (Seq<char>, TaskView)| summary_of(e.1, now)),
                found == (exists|k: int|
                    0 <= k < i && (#[trigger] tasks[k]).1.batch_id == Some(batch_id@)),
                forall|k: int|
                    0 <= k < i && (#[trigger] tasks[k]).1.batch_id == Some(batch_id@)
                        ==> tasks[k].1.state.terminal(),
                summaries@.map_values(|s: TaskSummary| s@) == tasks.take(i as int).filter(
                    chosen,
                ).map_values(telling),
            decreases self.tasks.len() - i,
        {
            let ghost before = summaries@.map_values(|s: TaskSummary| s@);
            let task = &self.tasks[i].1;
            assert(tasks[i as int].1 == task@);
            let member = match &task.batch_id {
                Some(b) => text::same_text(b.as_str(), batch_id),
                None => false,
            };
            proof {
                let head = tasks.take(i as int);
                assert(tasks.take(i + 1).drop_last() =~= head);
                assert(tasks.take(i + 1).last() == tasks[i as int]);
                reveal(Seq::filter);
                assert(member == chosen(tasks[i as int]));
            }
            if member {
                found = true;
                if !task.state.is_terminal() {
                    proof {
                        assert(!batch_done(tasks, batch_id@));
                        assert(self@ =~= old(self)@.sending(Seq::empty()));
                    }
                    return;
                }
                summaries.push(make_task_summary(task, now));
                proof {
                    assert(summaries@.map_values(|s: TaskSummary| s@) =~= before.push(
                        summary_of(task@, now),
                    ));
                    assert(tasks.take(i + 1).filter(chosen).map_values(telling) =~= before.push(
                        summary_of(task@, now),
                    ));
                }
            }
            i += 1;
        }
        assert(tasks.take(tasks.len() as int) =~= tasks);
        if found {
            let event = TaskEvent::BatchCompleted {
                batch_id: batch_id.to_owned(),
                task_summaries: summaries,
            };
            self.outgoing.push(Outgoing::Event(event));
            proof {
                assert(batch_done(tasks, batch_id@));
                assert(self@.outgoing =~= old(self)@.outgoing + batch_events(
                    tasks,
                    batch_id@,
                    now,
                ));
                assert(self@ =~= old(self)@.sending(batch_events(tasks, batch_id@, now)));
            }
        } else {
            assert(!batch_done(tasks, batch_id@));
            assert(self@ =~= old(self)@.sending(Seq::empty()));
        }
    }

    /// Moves a task to a state at `now`, unless it is over already or not there:
    /// the first end wins.
    pub fn transition(
        &mut self,
        id: &str,
        new_state: TaskState,
        summary: Option<String>,
        now: Moment,
    )
        requires
            old(self).wf(),
        ensures
            final(self).latest() == old(self).latest(),
            final(self).wf(),
            final(self)@ == old(self)@.transitioned(id@, new_state, text::opt_text(summary), now),
            !old(self)@.unfinished(id@) ==> final(self)@ == old(self)@,
    {
        let i: usize = match self.position(id) {
            Some(i) => i,
            None => {
                return;
            },
        };
        if self.tasks[i].1.state.is_terminal() {
            return;
        }
        let ghost t = self@.tasks[i as int].1;
        let ghost arrived = moved(t, new_state, text::opt_text(summary), now);
        proof {
            replacing_is_local(self@, id@, arrived);
        }
        let task = &mut self.tasks[i].1;
        if task.state == TaskState::Working {
            task.worked_duration = task.worked_duration.plus(
                now.duration_since(task.last_activity),
            );
        }
        task.state = new_state;
        task.last_activity = now;
        task.result_summary = text::copy_text(&summary);
        if let Some(msg) = summary {
            task.status_message = Some(msg);
        }
        assert(self@ =~= old(self)@.with_task(id@, arrived));
        let interrupt_on = self.tasks[i].1.meta.interrupt_on;
        let should_interrupt = match new_state {
            TaskState::Completed => interrupt_on.on_complete,
            TaskState::Failed => interrupt_on.on_failed,
            _ => false,
        };
        match self.tasks[i].1.notify_policy {
            NotifyPolicy::OnCompletion => {
                if should_interrupt {
                    let told = make_task_summary(&self.tasks[i].1, now);
                    self.outgoing.push(Outgoing::Event(TaskEvent::TaskCompleted { task: told }));
                }
            },
            NotifyPolicy::OnBatchCompletion => {
                if let Some(batch_id) = text::copy_text(&self.tasks[i].1.batch_id) {
                    self.check_batch_completion(batch_id.as_str(), now);
                }
            },
            NotifyPolicy::Informational => {},
        }
        assert(self@ =~= old(self)@.transitioned(id@, new_state, text::opt_text(summary), now));
    }

    /// Marks a task as completed at `now`.
    pub fn complete_at(&mut self, id: &str, summary: Option<String>, now: Moment)
        requires
            old(self).wf(),
        ensures
            final(self).latest() == old(self).latest(),
            final(self).wf(),
            final(self)@ == old(self)@.transitioned(
                id@,
                TaskState::Completed,
                text::opt_text(summary),
                now,
            ),
            !old(self)@.unfinished(id@) ==> final(self)@ == old(self)@,
    {
        self.transition(id, TaskState::Completed, summary, now);
    }

    /// Marks a task as completed.
    pub fn complete(&mut self, id: &str, summary: Option<String>)
        requires
            old(self).wf(),
        ensures
            final(self).wf(),
            old(self).shows(final(self).latest()),
            final(self)@ == old(self)@.transitioned(
                id@,
                TaskState::Completed,
                text::opt_text(summary),
                final(self).latest(),
            ),
            !old(self)@.unfinished(id@) ==> final(self)@ == old(self)@,
    {
        let now = self.tick();
        self.complete_at(id, summary, now);
    }

    /// Marks a task that is not over as completed at `now`, with a structured
    /// result.
    pub fn complete_with_result_at(
        &mut self,
        id: &str,
        result: Value,
        status_message: Option<String>,
        now: Moment,
    )
        requires
            old(self).wf(),
        ensures
            final(self).latest() == old(self).latest(),
            final(self).wf(),
            final(self)@ == old(self)@.with_result(
                id@,
                result,
                text::opt_text(status_message),
            ).transitioned(id@, TaskState::Completed, None, now),
            !old(self)@.unfinished(id@) ==> final(self)@ == old(self)@,
    {
        if let Some(i) = self.position(id) {
            if self.tasks[i].1.state.is_terminal() {
                return;
            }
            let ghost t = self@.tasks[i as int].1;
            let ghost told = TaskView {
                result: Some(result),
                status_message: text::opt_text(status_message),
                ..t
            };
            proof {
                replacing_is_local(self@, id@, told);
            }
            let task = &mut self.tasks[i].1;
            task.result = Some(result);
            task.status_message = status_message;
            assert(self@ =~= old(self)@.with_task(id@, told));
        }
        self.transition(id, TaskState::Completed, None, now);
    }

    /// Marks a task as completed, with a structured result.
    pub fn complete_with_result(
        &mut self,
        id: &str,
        result: Value,
        status_message: Option<String>,
    )
        requires
            old(self).wf(),
        ensures
            final(self).wf(),
            old(self).shows(final(self).latest()),
            final(self)@ == old(self)@.with_result(
                id@,
                result,
                text::opt_text(status_message),
            ).transitioned(id@, TaskState::Completed, None, final(self).latest()),
            !old(self)@.unfinished(id@) ==> final(self)@ == old(self)@,
    {
        let now = self.tick();
        self.complete_with_result_at(id, result, status_message, now);
    }

    /// Marks a task as failed at `now`.
    pub fn fail_at(&mut self, id: &str, summary: Option<String>, now: Moment)
        requires
            old(self).wf(),
        ensures
            final(self).latest() == old(self).latest(),
            final(self).wf(),
            final(self)@ == old(self)@.transitioned(
                id@,
                TaskState::Failed,
                text::opt_text(summary),
                now,
            ),
            !old(self)@.unfinished(id@) ==> final(self)@ == old(self)@,
    {
        self.transition(id, TaskState::Failed, summary, now);
    }

    /// Marks a task as failed.
    pub fn fail(&mut self, id: &str, summary: Option<String>)
        requires
            old(self).wf(),
        ensures
            final(self).wf(),
            old(self).shows(final(self).latest()),
            final(self)@ == old(self)@.transitioned(
                id@,
                TaskState::Failed,
                text::opt_text(summary),
                final(self).latest(),
            ),
            !old(self)@.unfinished(id@) ==> final(self)@ == old(self)@,
    {
        let now = self.tick();
        self.fail_at(id, summary, now);
    }

    /// Marks a task that is not over as failed at `now`, with a structured
    /// error.
    pub fn fail_with_error_at(
        &mut self,
        id: &str,
        error: Value,
        status_message: Option<String>,
        now: Moment,
    )
        requires
            old(self).wf(),
        ensures
            final(self).latest() == old(self).latest(),
            final(self).wf(),
            final(self)@ == old(self)@.with_error(
                id@,
                error,
                text::opt_text(status_message),
            ).transitioned(id@, TaskState::Failed, None, now),
            !old(self)@.unfinished(id@) ==> final(self)@ == old(self)@,
    {
        if let Some(i) = self.position(id) {
            if self.tasks[i].1.state.is_terminal() {
                return;
            }
            let ghost t = self@.tasks[i as int].1;
            let ghost told = TaskView {
                error: Some(error),
                status_message: text::opt_text(status_message),
                ..t
            };
            proof {
                replacing_is_local(self@, id@, told);
            }
            let task = &mut self.tasks[i].1;
            task.error = Some(error);
            task.status_message = status_message;
            assert(self@ =~= old(self)@.with_task(id@, told));
        }
        self.transition(id, TaskState::Failed, None, now);
    }

    /// Marks a task as failed, with a structured error.
    pub fn fail_with_error(&mut self, id: &str, error: Value, status_message: Option<String>)
        requires
            old(self).wf(),
        ensures
            final(self).wf(),
            old(self).shows(final(self).latest()),
            final(self)@ == old(self)@.with_error(
                id@,
                error,
                text::opt_text(status_message),
            ).transitioned(id@, TaskState::Failed, None, final(self).latest()),
            !old(self)@.unfinished(id@) ==> final(self)@ == old(self)@,
    {
        let now = self.tick();
        self.fail_with_error_at(id, error, status_message, now);
    }

    /// Marks a task as cancelled at `now`. Its handle, if it has one, is asked
    /// to be cancelled first.
    pub fn cancel_at(&mut self, id: &str, now: Moment)
        requires
            old(self).wf(),
        ensures
            final(self).latest() == old(self).latest(),
            final(self).wf(),
            final(self)@ == old(self)@.cancelled(id@, now),
            !old(self)@.unfinished(id@) ==> final(self)@.tasks == old(self)@.tasks,
    {
        if let Some(i) = self.position(id) {
            if let Some(token) = &self.tasks[i].1.cancellation_token {
                let handle = token.clone();
                self.outgoing.push(Outgoing::Fire(handle));
            }
        }
        assert(self@ =~= old(self)@.firing(id@));
        self.transition(id, TaskState::Cancelled, Some("cancelled".to_owned()), now);
    }

    /// Marks a task as cancelled. Its handle, if it has one, is asked to be
    /// cancelled first.
    pub fn cancel(&mut self, id: &str)
        requires
            old(self).wf(),
        ensures
            final(self).wf(),
            old(self).shows(final(self).latest()),
            final(self)@ == old(self)@.cancelled(id@, final(self).latest()),
            !old(self)@.unfinished(id@) ==> final(self)@.tasks == old(self)@.tasks,
    {
        let now = self.tick();
        self.cancel_at(id, now);
    }

    /// Moves a task that is not over to InputRequired at `now`, keeps the
    /// question on it and tells of it.
    pub fn needs_input_at(&mut self, id: &str, question: String, now: Moment)
        requires
            old(self).wf(),
        ensures
            final(self).latest() == old(self).latest(),
            final(self).wf(),
            final(self)@ == old(self)@.asked(id@, question@, now),
            !old(self)@.unfinished(id@) ==> final(self)@ == old(self)@,
    {
        if let Some(i) = self.position(id) {
            if self.tasks[i].1.state.is_terminal() {
                return;
            }
            let ghost t = self@.tasks[i as int].1;
            proof {
                replacing_is_local(self@, id@, asking(t, question@, now));
            }
            let task = &mut self.tasks[i].1;
            if task.state == TaskState::Working {
                task.worked_duration = task.worked_duration.plus(
                    now.duration_since(task.last_activity),
                );
            }
            task.state = TaskState::InputRequired;
            task.input_request = Some(question.clone());
            task.last_activity = now;
            assert(self@ =~= old(self)@.with_task(id@, asking(t, question@, now)));
            if self.tasks[i].1.meta.interrupt_on.on_input_required {
                let event = TaskEvent::TaskNeedsInput { task_id: id.to_owned(), question };
                self.outgoing.push(Outgoing::Event(event));
            }
            assert(self@ =~= old(self)@.asked(id@, question@, now));
        }
    }

    /// Moves a task to InputRequired, keeps the question on it and tells of
    /// it.
    pub fn needs_input(&mut self, id: &str, question: String)
        requires
            old(self).wf(),
        ensures
            final(self).wf(),
            old(self).shows(final(self).latest()),
            final(self)@ == old(self)@.asked(id@, question@, final(self).latest()),
            !old(self)@.unfinished(id@) ==> final(self)@ == old(self)@,
    {
        let now = self.tick();
        self.needs_input_at(id, question, now);
    }

    /// Moves a task from InputRequired back to Working at `now`.
    pub fn resume_at(&mut self, id: &str, now: Moment)
        requires
            old(self).wf(),
        ensures
            final(self).latest() == old(self).latest(),
            final(self).wf(),
            final(self)@ == old(self)@.resumed(id@, now),
    {
        if let Some(i) = self.position(id) {
            if self.tasks[i].1.state == TaskState::InputRequired {
                let ghost t = self@.tasks[i as int].1;
                let ghost working = TaskView {
                    state: TaskState::Working,
                    last_activity: now,
                    ..t
                };
                proof {
                    replacing_is_local(self@, id@, working);
                }
                let task = &mut self.tasks[i].1;
                task.state = TaskState::Working;
                task.last_activity = now;
                assert(self@ =~= old(self)@.with_task(id@, working));
            }
        }
    }

    /// Moves a task from InputRequired back to Working.
    pub fn resume(&mut self, id: &str)
        requires
            old(self).wf(),
        ensures
            final(self).wf(),
            old(self).shows(final(self).latest()),
            final(self)@ == old(self)@.resumed(id@, final(self).latest()),
    {
        let now = self.tick();
        self.resume_at(id, now);
    }

    /// Tells that a pattern was matched at `now`; the task's state stays.
    pub fn pattern_matched_at(
        &mut self,
        id: &str,
        pattern: String,
        context: String,
        now: Moment,
    )
        requires
            old(self).wf(),
        ensures
            final(self).latest() == old(self).latest(),
            final(self).wf(),
            final(self)@ == old(self)@.matched(id@, pattern@, context@, now),
    {
        if let Some(i) = self.position(id) {
            let ghost t = self@.tasks[i as int].1;
            let ghost told = TaskView {
                status_message: Some("Pattern '"@ + pattern@ + "' matched"@),
                ..notified(t, "pattern matched: "@ + pattern@, now)
            };
            proof {
                replacing_is_local(self@, id@, told);
            }
            let message = "pattern matched: ".to_owned().concat(pattern.as_str());
            let status = "Pattern '".to_owned().concat(pattern.as_str()).concat("' matched");
            let task = &mut self.tasks[i].1;
            if task.state == TaskState::Working {
                task.worked_duration = task.worked_duration.plus(
                    now.duration_since(task.last_activity),
                );
            }
            task.last_activity = now;
            task.notifications.push(TaskNotification { timestamp: now, message });
            task.status_message = Some(status);
            assert(self@.tasks[i as int].1.notifications =~= told.notifications);
            assert(self@ =~= old(self)@.with_task(id@, told));
            if self.tasks[i].1.meta.interrupt_on.on_pattern_matched {
                let event = TaskEvent::PatternMatched { task_id: id.to_owned(), pattern, context };
                self.outgoing.push(Outgoing::Event(event));
            }
            assert(self@ =~= old(self)@.matched(id@, pattern@, context@, now));
        }
    }

    /// Tells that a pattern was matched; the task's state stays.
    pub fn pattern_matched(&mut self, id: &str, pattern: String, context: String)
        requires
            old(self).wf(),
        ensures
            final(self).wf(),
            old(self).shows(final(self).latest()),
            final(self)@ == old(self)@.matched(id@, pattern@, context@, final(self).latest()),
    {
        let now = self.tick();
        self.pattern_matched_at(id, pattern, context, now);
    }

    /// Adds a notification to a task's log at `now`.
    pub fn notify_at(&mut self, id: &str, message: String, now: Moment)
        requires
            old(self).wf(),
        ensures
            final(self).latest() == old(self).latest(),
            final(self).wf(),
            final(self)@ == old(self)@.noted(id@, message@, now),
    {
        if let Some(i) = self.position(id) {
            let ghost t = self@.tasks[i as int].1;
            let ghost told = notified(t, message@, now);
            proof {
                replacing_is_local(self@, id@, told);
            }
            let task = &mut self.tasks[i].1;
            if task.state == TaskState::Working {
                task.worked_duration = task.worked_duration.plus(
                    now.duration_since(task.last_activity),
                );
            }
            task.last_activity = now;
            task.notifications.push(TaskNotification { timestamp: now, message });
            assert(self@.tasks[i as int].1.notifications =~= told.notifications);
            assert(self@ =~= old(self)@.with_task(id@, told));
        }
    }

    /// Adds a notification to a task's log.
    pub fn notify(&mut self, id: &str, message: String)
        requires
            old(self).wf(),
        ensures
            final(self).wf(),
            old(self).shows(final(self).latest()),
            final(self)@ == old(self)@.noted(id@, message@, final(self).latest()),
    {
        let now = self.tick();
        self.notify_at(id, message, now);
    }

    /// Takes down that a task was active at `now`.
    pub fn touch_at(&mut self, id: &str, now: Moment)
        requires
            old(self).wf(),
        ensures
            final(self).latest() == old(self).latest(),
            final(self).wf(),
            final(self)@ == old(self)@.touched(id@, now),
    {
        if let Some(task) = self.get_mut(id) {
            if task.state == TaskState::Working {
                task.worked_duration = task.worked_duration.plus(
                    now.duration_since(task.last_activity),
                );
            }
            task.last_activity = now;
        }
    }

    // ── Queries ───────────────────────────────────────────────────────

    /// All tasks, in the order of their registration.
    pub fn list(&self) -> (r: Vec<&Task>)
        ensures
            r@.map_values(|t: &Task| t@) == self@.tasks.map_values(
                |e: (Seq<char>, TaskView)| e.1,
            ),
    {
        let mut r: Vec<&Task> = Vec::new();
        let mut i: usize = 0;
        while i < self.tasks.len()
            invariant
                i <= self.tasks@.len(),
                r@.len() == i,
                forall|k: int| 0 <= k < i ==> (#[trigger] r@[k])@ == self@.tasks[k].1,
            decreases self.tasks.len() - i,
        {
            r.push(&self.tasks[i].1);
            i += 1;
        }
        assert(r@.map_values(|t: &Task| t@) =~= self@.tasks.map_values(
            |e: (Seq<char>, TaskView)| e.1,
        ));
        r
    }

    /// The tasks that work, in the order of their registration.
    pub fn running(&self) -> (r: Vec<&Task>)
        ensures
            r@.map_values(|t: &Task| t@) == self@.in_state(|s: TaskState| s == TaskState::Working),
    {
        let mut r: Vec<&Task> = Vec::new();
        let ghost wanted = |s: TaskState| s == TaskState::Working;
        let ghost chosen = |e: (Seq<char>, TaskView)| wanted(e.1.state);
        let ghost plain = |e: (Seq<char>, TaskView)| e.1;
        let mut i: usize = 0;
        assert(self@.tasks.take(0).filter(chosen).map_values(plain) =~= Seq::empty()) by {
            reveal(Seq::filter);
        }
        while i < self.tasks.len()
            invariant
                i <= self.tasks@.len(),
                wanted == (|s: TaskState| s == TaskState::Working),
                chosen == (|e: (Seq<char>, TaskView)| wanted(e.1.state)),
                plain == (|e: (Seq<char>, TaskView)| e.1),
                r@.map_values(|t: &Task| t@) == self@.tasks.take(i as int).filter(
                    chosen,
                ).map_values(plain),
            decreases self.tasks.len() - i,
        {
            let ghost before = r@.map_values(|t: &Task| t@);
            let task = &self.tasks[i].1;
            proof {
                let tasks = self@.tasks;
                assert(tasks.take(i + 1).drop_last() =~= tasks.take(i as int));
                assert(tasks.take(i + 1).last() == tasks[i as int]);
                reveal(Seq::filter);
            }
            if task.state == TaskState::Working {
                r.push(task);
                assert(r@.map_values(|t: &Task| t@) =~= before.push(task@));
                assert(self@.tasks.take(i + 1).filter(chosen).map_values(plain) =~= before.push(
                    task@,
                ));
            }
            i += 1;
        }
        assert(self@.tasks.take(self@.tasks.len() as int) =~= self@.tasks);
        r
    }

    /// The tasks that are over, in the order of their registration.
    pub fn finished(&self) -> (r: Vec<&Task>)
        ensures
            r@.map_values(|t: &Task| t@) == self@.over(),
    {
        let mut r: Vec<&Task> = Vec::new();
        let ghost wanted = |s: TaskState| s.terminal();
        let ghost chosen = |e: (Seq<char>, TaskView)| wanted(e.1.state);
        let ghost plain = |e: (Seq<char>, TaskView)| e.1;
        let mut i: usize = 0;
        assert(self@.tasks.take(0).filter(chosen).map_values(plain) =~= Seq::empty()) by {
            reveal(Seq::filter);
        }
        while i < self.tasks.len()
            invariant
                i <= self.tasks@.len(),
                wanted == (|s: TaskState| s.terminal()),
                chosen == (|e: (Seq<char>, TaskView)| wanted(e.1.state)),
                plain == (|e: (Seq<char>, TaskView)| e.1),
                r@.map_values(|t: &Task| t@) == self@.tasks.take(i as int).filter(
                    chosen,
                ).map_values(plain),
            decreases self.tasks.len() - i,
        {
            let ghost before = r@.map_values(|t: &Task| t@);
            let task = &self.tasks[i].1;
            proof {
                let tasks = self@.tasks;
                assert(tasks.take(i + 1).drop_last() =~= tasks.take(i as int));
                assert(tasks.take(i + 1).last() == tasks[i as int]);
                reveal(Seq::filter);
            }
            if task.state.is_terminal() {
                r.push(task);
                assert(r@.map_values(|t: &Task| t@) =~= before.push(task@));
                assert(self@.tasks.take(i + 1).filter(chosen).map_values(plain) =~= before.push(
                    task@,
                ));
            }
            i += 1;
        }
        assert(self@.tasks.take(self@.tasks.len() as int) =~= self@.tasks);
        r
    }

    // ── Removal ───────────────────────────────────────────────────────

    pub fn remove(&mut self, id: &str) -> (r: Option<Task>)
        requires
            old(self).wf(),
        ensures
            final(self).latest() == old(self).latest(),
            final(self).wf(),
            final(self)@ == old(self)@.removed(id@),
            match r {
                Some(t) => old(self)@.get(id@) == Some(t@),
                None => old(self)@.get(id@) is None,
            },
    {
        proof {
            removed_is_gone(self@, id@);
        }
        match self.position(id) {
            Some(i) => {
                let (_key, task) = self.tasks.remove(i);
                assert(self@ =~= old(self)@.removed(id@));
                Some(task)
            },
            None => None,
        }
    }

    /// Drops at `now` the tasks that are over for longer than they are kept.
    pub fn gc_at(&mut self, now: Moment)
        requires
            old(self).wf(),
        ensures
            final(self).latest() == old(self).latest(),
            final(self).wf(),
            final(self)@ == old(self)@.collected(now),
    {
        let ghost tasks = self@.tasks;
        let ghost keep = |e: (Seq<char>, TaskView)| retained(e.1, now);
        let ghost mut seen: int = 0;
        let mut i: usize = 0;
        proof {
            assert(tasks.take(0).filter(keep) =~= Seq::empty()) by {
                reveal(Seq::filter);
            }
            assert(tasks.skip(0) =~= tasks);
        }
        while i < self.tasks.len()
            invariant
                i <= self.tasks@.len(),
                0 <= seen <= tasks.len(),
                tasks == old(self)@.tasks,
                keep == (|e: (Seq<char>, TaskView)| retained(e.1, now)),
                self@.outgoing == old(self)@.outgoing,
                self.latest() == old(self).latest(),
                self@.tasks.take(i as int) == tasks.take(seen).filter(keep),
                self@.tasks.skip(i as int) == tasks.skip(seen),
            decreases self.tasks.len() - i,
        {
            let ghost now_tasks = self@.tasks;
            proof {
                assert(now_tasks.skip(i as int).len() == tasks.skip(seen).len());
                assert(seen < tasks.len());
                assert(now_tasks.skip(i as int)[0] == tasks.skip(seen)[0]);
                assert(now_tasks[i as int] == tasks[seen]);
                assert(tasks.take(seen + 1).drop_last() =~= tasks.take(seen));
                assert(tasks.take(seen + 1).last() == tasks[seen]);
                reveal(Seq::filter);
                assert(now_tasks.skip(i as int).skip(1) =~= now_tasks.skip(i + 1));
                assert(tasks.skip(seen).skip(1) =~= tasks.skip(seen + 1));
            }
            let task = &self.tasks[i].1;
            let kept = if task.state.is_terminal() {
                now.duration_since(task.last_activity).secs() < (
                task.meta.ttl_after_completion_s as u128)
            } else {
                true
            };
            if kept {
                i += 1;
                assert(self@.tasks.take(i as int) =~= now_tasks.take(i - 1).push(tasks[seen]));
            } else {
                self.tasks.remove(i);
                assert(self@.tasks =~= now_tasks.remove(i as int));
                assert(self@.tasks.take(i as int) =~= now_tasks.take(i as int));
                assert(self@.tasks.skip(i as int) =~= now_tasks.skip(i + 1));
            }
            proof {
                seen = seen + 1;
            }
        }
        proof {
            assert(self@.tasks.skip(i as int).len() == 0);
            assert(tasks.take(seen) =~= tasks);
            assert(self@.tasks.take(i as int) =~= self@.tasks);
            assert(self@ =~= old(self)@.collected(now));
            collected_keeps_keys(old(self)@, now);
        }
    }

    /// Drops the tasks that are over for longer than they are kept.
    pub fn gc(&mut self)
        requires
            old(self).wf(),
        ensures
            final(self).wf(),
            old(self).shows(final(self).latest()),
            final(self)@ == old(self)@.collected(final(self).latest()),
    {
        let now = self.tick();
        self.gc_at(now);
    }

    /// Hands over what is to be delivered, oldest first.
    pub fn take_outgoing(&mut self) -> (r: Vec<Outgoing>)
        ensures
            final(self).latest() == old(self).latest(),
            r@.map_values(|o: Outgoing| o@) == old(self)@.outgoing,
            final(self)@ == (RegistryView { outgoing: Seq::empty(), ..old(self)@ }),
    {
        let mut r: Vec<Outgoing> = Vec::new();
        std::mem::swap(&mut r, &mut self.outgoing);
        assert(self@ =~= (RegistryView { outgoing: Seq::empty(), ..old(self)@ }));
        r
    }
}

/// What is told of a task at `now`.
pub fn make_task_summary(task: &Task, now: Moment) -> (r: TaskSummary)
    ensures
        r@ == summary_of(task@, now),
{
    let duration = if task.state == TaskState::Working {
        task.worked_duration.plus(now.duration_since(task.last_activity))
    } else {
        task.worked_duration
    };
    TaskSummary {
        id: task.id.clone(),
        source: task.source,
        description: task.description.clone(),
        state: task.state,
        duration,
        result_summary: text::copy_text(&task.result_summary),
        status_message: text::copy_text(&task.status_message),
        result: copy_value(&task.result),
        error: copy_value(&task.error),
    }
}

fn copy_value(v: &Option<Value>) -> (r: Option<Value>)
    ensures
        r == *v,
{
    match v {
        Some(v) => Some(v.clone()),
        None => None,
    }
}

// ── Telling of finished tasks ─────────────────────────────────────────

/// How the end of a task is called.
pub open spec fn state_label(state: TaskState) -> Seq<char> {
    match state {
        TaskState::Completed => "completed"@,
        TaskState::Failed => "failed"@,
        TaskState::Cancelled => "cancelled"@,
        _ => "finished"@,
    }
}

/// How the end of a task is called.
pub fn task_state_label(state: &TaskState) -> (r: &'static str)
    ensures
        r@ == state_label(*state),
{
    match state {
        TaskState::Completed => "completed",
        TaskState::Failed => "failed",
        TaskState::Cancelled => "cancelled",
        _ => "finished",
    }
}

/// The text that tells the model of a finished task.
pub open spec fn completion_text(
    task_id: Seq<char>,
    description: Seq<char>,
    state: TaskState,
    summary: Seq<char>,
) -> Seq<char> {
    "System: Background task '"@ + task_id + "' ("@ + description + ") "@ + state_label(state)
        + ".\nResult: "@ + summary
}

/// The text that tells the model of a finished task.
pub fn task_completion_text(
    task_id: &str,
    description: &str,
    state: &TaskState,
    summary: &str,
) -> (r: String)
    ensures
        r@ == completion_text(task_id@, description@, *state, summary@),
{
    let mut r = "System: Background task '".to_owned();
    r.append(task_id);
    r.append("' (");
    r.append(description);
    r.append(") ");
    r.append(task_state_label(state));
    r.append(".\nResult: ");
    r.append(summary);
    r
}

/// The message that tells of a finished task: once as text for the model, once
/// as a notification for the user interface.
pub open spec fn completion_message(
    task_id: Seq<char>,
    description: Seq<char>,
    state: TaskState,
    summary: Seq<char>,
) -> MessageView {
    let told = completion_text(task_id, description, state, summary);
    MessageView::from_user(
        seq![
            ContentBlockView::Text(told),
            ContentBlockView::SystemNotification {
                notification_type: SystemNotificationType::InlineMessage,
                msg: told,
            },
        ],
    )
}

/// The message that tells of a finished task: once as text for the model, once
/// as a notification for the user interface.
pub fn task_completion_message(
    task_id: &str,
    description: &str,
    state: &TaskState,
    summary: &str,
) -> (r: Message)
    ensures
        r@ == completion_message(task_id@, description@, *state, summary@),
{
    let told = task_completion_text(task_id, description, state, summary);
    let r = Message::user().with_text(told.clone()).with_content(
        MessageContentBlock::SystemNotification {
            notification_type: SystemNotificationType::InlineMessage,
            msg: told,
        },
    );
    assert(r@.content =~= completion_message(
        task_id@,
        description@,
        *state,
        summary@,
    ).content);
    r
}

} // verus!
