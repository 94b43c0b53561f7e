//! Adding queued guidance of the user when the agent is between turns.
use crate::finished;
use crate::finished::{FinishedTask, FinishedTaskView};
use crate::message::{ContentBlockView, Message, MessageView};
use crate::tasks;
use crate::tasks::{RegistryView, TaskRegistry, TaskState};
use crate::text;
use vstd::prelude::*;
use vstd::string::*;

verus! {

/// The guidance that waits for the agent to be between turns.
#[derive(Debug)]
pub struct SteerOperation {
    pub queue: Vec<Message>,
}

/// What the operation comes to.
#[derive(Debug)]
pub struct SteerOutcome {
    /// What the model is told of finished tasks.
    pub notice: Option<Message>,
    /// The guidance that takes effect, oldest first. Where there is none, the
    /// operation did not apply.
    pub steers: Vec<Message>,
}

#[verifier::ext_equal]
pub struct SteerOutcomeView {
    pub notice: Option<MessageView>,
    pub steers: Seq<MessageView>,
}

/// The messages, by what they say.
pub open spec fn message_views(messages: Seq<Message>) -> Seq<MessageView> {
    messages.map_values(|m: Message| m@)
}

impl View for SteerOutcome {
    type V = SteerOutcomeView;

    open spec fn view(&self) -> SteerOutcomeView {
        SteerOutcomeView {
            notice: match self.notice {
                Some(m) => Some(m@),
                None => None,
            },
            steers: message_views(self.steers@),
        }
    }
}

// ── Model ─────────────────────────────────────────────────────────────

/// The paragraphs on the finished tasks.
pub open spec fn paragraphs(done: Seq<FinishedTaskView>) -> Seq<Seq<char>> {
    done.map_values(
        |f: FinishedTaskView|
            tasks::completion_text(f.id, f.description, TaskState::Completed, f.summary),
    )
}

/// The message on the finished tasks, which only the model sees.
pub open spec fn steer_notice(done: Seq<FinishedTaskView>) -> MessageView {
    MessageView {
        user_visible: false,
        ..MessageView::from_user(
            seq![ContentBlockView::Text(text::joined(paragraphs(done), "\n\n"@))],
        )
    }
}

/// The messages as guidance.
pub open spec fn as_steers(messages: Seq<MessageView>) -> Seq<MessageView> {
    messages.map_values(|m: MessageView| MessageView { steer: true, ..m })
}

/// What the operation comes to between turns.
pub open spec fn steered(queue: Seq<MessageView>, registry: RegistryView) -> SteerOutcomeView {
    let done = finished::all_told_of(registry);
    SteerOutcomeView {
        notice: if done.len() == 0 {
            None
        } else {
            Some(steer_notice(done))
        },
        steers: as_steers(queue),
    }
}

// ── Execution ─────────────────────────────────────────────────────────

fn notice_of(done: &Vec<FinishedTask>) -> (r: Message)
    ensures
        r@ == steer_notice(finished::finished_views(done@)),
{
    let mut parts: Vec<String> = Vec::new();
    let ghost told = finished::finished_views(done@);
    let mut i: usize = 0;
    while i < done.len()
        invariant
            i <= done@.len(),
            told == finished::finished_views(done@),
            parts@.len() == i,
            forall|k: int| 0 <= k < i ==> (#[trigger] parts@[k])@ == paragraphs(told)[k],
        decreases done.len() - i,
    {
        let f = &done[i];
        assert(told[i as int] == f@);
        parts.push(
            tasks::task_completion_text(
                f.id.as_str(),
                f.description.as_str(),
                &TaskState::Completed,
                f.summary.as_str(),
            ),
        );
        i += 1;
    }
    assert(text::texts(parts@) =~= paragraphs(told));
    let r = Message::user().with_text(text::join(&parts, "\n\n")).with_visibility(false, true);
    assert(r@.content =~= steer_notice(told).content);
    r
}

impl SteerOperation {
    pub fn new() -> (r: SteerOperation)
        ensures
            message_views(r.queue@) == Seq::<MessageView>::empty(),
    {
        let r = SteerOperation { queue: Vec::new() };
        assert(message_views(r.queue@) =~= Seq::<MessageView>::empty());
        r
    }

    pub fn name(&self) -> (r: &'static str)
        ensures
            r@ == "steer"@,
    {
        "steer"
    }

    /// Queues guidance.
    pub fn push(&mut self, message: Message)
        ensures
            message_views(final(self).queue@) == message_views(old(self).queue@).push(message@),
    {
        self.queue.push(message);
        assert(message_views(self.queue@) =~= message_views(old(self).queue@).push(message@));
    }

    fn drain_queue(&mut self) -> (r: Vec<Message>)
        ensures
            message_views(r@) == as_steers(message_views(old(self).queue@)),
            message_views(final(self).queue@) == Seq::<MessageView>::empty(),
    {
        let ghost all = message_views(self.queue@);
        let mut r: Vec<Message> = Vec::new();
        while self.queue.len() > 0
            invariant
                self.queue@.len() + r@.len() == all.len(),
                message_views(self.queue@) == all.skip(r@.len() as int),
                forall|k: int| 0 <= k < r@.len() ==> (#[trigger] r@[k])@ == as_steers(all)[k],
            decreases self.queue.len(),
        {
            let ghost before = message_views(self.queue@);
            let message = self.queue.remove(0);
            assert(before[0] == all[r@.len() as int]);
            r.push(message.with_steer());
            assert(message_views(self.queue@) =~= before.remove(0));
            assert(message_views(self.queue@) =~= all.skip(r@.len() as int));
        }
        assert(message_views(self.queue@) =~= Seq::<MessageView>::empty());
        assert(message_views(r@) =~= as_steers(all));
        r
    }

    /// Between turns, takes the queued guidance and the finished tasks.
    /// Otherwise does nothing.
    pub fn run(&mut self, registry: &mut TaskRegistry, ends_turn: bool, last_is_tool: bool) -> (r:
        SteerOutcome)
        requires
            old(registry).wf(),
        ensures
            final(registry).wf(),
            final(registry).latest() == old(registry).latest(),
            if finished::between_turns(ends_turn, last_is_tool) {
                &&& r@ == steered(message_views(old(self).queue@), old(registry)@)
                &&& message_views(final(self).queue@) == Seq::<MessageView>::empty()
                &&& final(registry)@ == finished::drained(old(registry)@)
            } else {
                &&& r@ == (SteerOutcomeView { notice: None, steers: Seq::empty() })
                &&& final(self).queue == old(self).queue
                &&& final(registry)@ == old(registry)@
            },
    {
        if !(ends_turn || last_is_tool) {
            let r = SteerOutcome { notice: None, steers: Vec::new() };
            assert(r@.steers =~= Seq::empty());
            return r;
        }
        let steers = self.drain_queue();
        let done = finished::drain_finished(registry);
        assert(finished::finished_views(done@).len() == done@.len());
        let notice = if done.len() == 0 {
            None
        } else {
            Some(notice_of(&done))
        };
        SteerOutcome { notice, steers }
    }
}

// ── Laws ──────────────────────────────────────────────────────────────

/// Guidance takes effect once: what was queued comes out in its order, and a
/// second run right after has no guidance and nothing to tell.
pub proof fn guidance_takes_effect_once(queue: Seq<MessageView>, registry: RegistryView)
    requires
        registry.keys_distinct(),
        finished::keyed_by_id(registry),
    ensures
        steered(queue, registry).steers.len() == queue.len(),
        steered(Seq::empty(), finished::drained(registry)).steers.len() == 0,
        steered(Seq::empty(), finished::drained(registry)).notice is None,
{
    finished::nothing_is_told_twice(registry);
}

} // verus!
