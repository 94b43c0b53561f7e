//! Telling the model of finished tasks between turns.
use crate::finished;
use crate::finished::FinishedTaskView;
use crate::message::{Message, MessageView};
use crate::steer;
use crate::tasks;
use crate::tasks::{RegistryView, TaskRegistry};
use vstd::prelude::*;
use vstd::string::*;

verus! {

/// Tells of finished tasks, one message for each.
#[derive(Debug)]
pub struct TaskNotificationOperation {}

/// The messages on the finished tasks, in their order.
pub open spec fn notices(done: Seq<FinishedTaskView>) -> Seq<MessageView> {
    done.map_values(
        |f: FinishedTaskView|
            tasks::completion_message(f.id, f.description, f.state, f.summary),
    )
}

/// The messages, by what they say, if there are any.
pub open spec fn opt_messages(r: Option<Vec<Message>>) -> Option<Seq<MessageView>> {
    match r {
        Some(messages) => Some(steer::message_views(messages@)),
        None => None,
    }
}

/// What the operation comes to.
pub open spec fn notified(registry: RegistryView, between_turns: bool) -> Option<
    Seq<MessageView>,
> {
    let done = finished::all_told_of(registry);
    if !between_turns || done.len() == 0 {
        None
    } else {
        Some(notices(done))
    }
}

impl TaskNotificationOperation {
    pub fn new() -> TaskNotificationOperation {
        TaskNotificationOperation {  }
    }

    pub fn name(&self) -> (r: &'static str)
        ensures
            r@ == "task_notification"@,
    {
        "task_notification"
    }

    /// Between turns, takes the finished tasks and gives the messages on them.
    /// Gives none where the operation does not apply.
    pub fn run(&self, registry: &mut TaskRegistry, ends_turn: bool, last_is_tool: bool) -> (r:
        Option<Vec<Message>>)
        requires
            old(registry).wf(),
        ensures
            final(registry).wf(),
            final(registry).latest() == old(registry).latest(),
            opt_messages(r) == notified(
                old(registry)@,
                finished::between_turns(ends_turn, last_is_tool),
            ),
            final(registry)@ == (if finished::between_turns(ends_turn, last_is_tool) {
                finished::drained(old(registry)@)
            } else {
                old(registry)@
            }),
    {
        if !(ends_turn || last_is_tool) {
            return None;
        }
        let done = finished::drain_finished(registry);
        let ghost told = finished::finished_views(done@);
        assert(told.len() == done@.len());
        if done.len() == 0 {
            return None;
        }
        let mut messages: Vec<Message> = Vec::new();
        let mut i: usize = 0;
        while i < done.len()
            invariant
                i <= done@.len(),
                told == finished::finished_views(done@),
                messages@.len() == i,
                forall|k: int| 0 <= k < i ==> (#[trigger] messages@[k])@ == notices(told)[k],
            decreases done.len() - i,
        {
            let f = &done[i];
            assert(told[i as int] == f@);
            messages.push(
                tasks::task_completion_message(
                    f.id.as_str(),
                    f.description.as_str(),
                    &f.state,
                    f.summary.as_str(),
                ),
            );
            i += 1;
        }
        assert(steer::message_views(messages@) =~= notices(told));
        Some(messages)
    }
}

/// Each finished task is told of once: a second run right after does not
/// apply.
pub proof fn finished_task_is_told_of_once(registry: RegistryView)
    requires
        registry.keys_distinct(),
        finished::keyed_by_id(registry),
    ensures
        notified(finished::drained(registry), true) is None,
{
    finished::nothing_is_told_twice(registry);
}

} // verus!
