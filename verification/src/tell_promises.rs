//! What the operations that tell of tasks promise.
use crate::finished;
use crate::finished::FinishedTask;
use crate::input_thread;
use crate::input_thread::{Happening, InputAction, InputState};
use crate::message::{ContentBlockView, Message};
use crate::registry_laws;
use crate::showing;
use crate::steer;
use crate::steer::{SteerOperation, SteerOutcome};
use crate::task_notification;
use crate::task_notification::TaskNotificationOperation;
use crate::task_watcher;
use crate::tasks;
use crate::tasks::{TaskEvent, TaskRegistry, TaskState};
use crate::tell_laws;
use crate::turn_queue;
use crate::turn_queue::{TurnInput, TurnInputView, TurnQueue};
use vstd::prelude::*;
use vstd::string::*;

verus! {

// ── Finished tasks ────────────────────────────────────────────────────

/// Every task that is over is taken out of the registry and told of; the others
/// stay.
pub proof fn draining_takes_the_ended(
    registry: &mut TaskRegistry,
    r: Vec<FinishedTask>,
    id: Seq<char>,
)
    requires
        old(registry).wf(),
        finished::keyed_by_id(old(registry)@),
        call_ensures(finished::drain_finished, (registry,), r),
    ensures
        finished::finished_views(r@) == finished::all_told_of(old(registry)@),
        match old(registry)@.get(id) {
            None => final(registry)@.get(id) is None,
            Some(t) => if registry_laws::has_ended(t) {
                final(registry)@.get(id) is None && finished::finished_views(r@).contains(
                    tell_laws::news(t),
                )
            } else {
                final(registry)@.get(id) == Some(t)
            },
        },
        final(registry)@.outgoing == old(registry)@.outgoing,
{
    tell_laws::told_tasks_are_dropped(old(registry)@, id);
    if let Some(t) = old(registry)@.get(id) {
        if registry_laws::has_ended(t) {
            tell_laws::ended_task_is_told(old(registry)@, id);
        }
    }
}

/// Between turns all guidance takes effect and the finished tasks are told of;
/// otherwise nothing happens.
pub proof fn steering_waits_for_the_turn(
    steering: &mut SteerOperation,
    registry: &mut TaskRegistry,
    ends_turn: bool,
    last_is_tool: bool,
    r: SteerOutcome,
)
    requires
        call_ensures(SteerOperation::run, (steering, registry, ends_turn, last_is_tool), r),
    ensures
        if ends_turn || last_is_tool {
            &&& r@ == steer::steered(steer::message_views(old(steering).queue@), old(registry)@)
            &&& steer::message_views(final(steering).queue@).len() == 0
            &&& final(registry)@ == finished::drained(old(registry)@)
        } else {
            &&& r.notice is None
            &&& r.steers@.len() == 0
            &&& final(steering).queue == old(steering).queue
            &&& final(registry)@ == old(registry)@
        },
{
    if !(ends_turn || last_is_tool) {
        assert(r@.steers.len() == r.steers@.len());
    }
}

/// Between turns each finished task gets its message; otherwise nothing happens.
pub proof fn notifying_waits_for_the_turn(
    operation: &TaskNotificationOperation,
    registry: &mut TaskRegistry,
    ends_turn: bool,
    last_is_tool: bool,
    r: Option<Vec<Message>>,
)
    requires
        call_ensures(
            TaskNotificationOperation::run,
            (operation, registry, ends_turn, last_is_tool),
            r,
        ),
    ensures
        if ends_turn || last_is_tool {
            &&& match r {
                None => finished::all_told_of(old(registry)@).len() == 0,
                Some(messages) => steer::message_views(messages@) == task_notification::notices(
                    finished::all_told_of(old(registry)@),
                ) && messages@.len() > 0,
            }
            &&& final(registry)@ == finished::drained(old(registry)@)
        } else {
            r is None && final(registry)@ == old(registry)@
        },
{
    if let Some(messages) = r {
        assert(steer::message_views(messages@).len() == messages@.len());
    }
}

/// The text and the message on a finished task.
pub proof fn completions_are_told(
    id: &str,
    description: &str,
    state: &TaskState,
    summary: &str,
    said: String,
    m: Message,
)
    ensures
        call_ensures(tasks::task_completion_text, (id, description, state, summary), said) ==> said@
            == "System: Background task '"@ + id@ + "' ("@ + description@ + ") "@
            + tell_laws::word_of_end(*state) + ".\nResult: "@ + summary@,
        call_ensures(tasks::task_completion_message, (id, description, state, summary), m) ==> m@
            == tasks::completion_message(id@, description@, *state, summary@),
{
}

// ── Prompts ───────────────────────────────────────────────────────────

/// The prompt on an event is queued for the next turn, after what is queued.
pub proof fn events_are_queued(queue: &mut TurnQueue, event: &TaskEvent, said: String)
    ensures
        call_ensures(task_watcher::synthesize_prompt, (event,), said) ==> said@
            == task_watcher::prompt(event@),
        call_ensures(task_watcher::queue_event, (queue, event), ()) ==> final(queue)@ == old(
            queue,
        )@.push(TurnInputView::System(task_watcher::prompt(event@))),
{
}

// ── Turns ─────────────────────────────────────────────────────────────

/// All that is queued is handed over in one text, and the queue is empty then.
pub proof fn flushing_hands_over_all(queue: &mut TurnQueue, r: Message, i: int)
    requires
        call_ensures(TurnQueue::flush, (queue,), r),
        0 <= i < old(queue)@.len(),
    ensures
        final(queue)@.len() == 0,
        r@.content.len() == 1,
        r@.content[0] matches ContentBlockView::Text(said) && showing::shows(
            said,
            old(queue)@[i].words(),
        ) && said == turn_queue::combined(old(queue)@),
        r@ == turn_queue::turn_message(old(queue)@),
{
    tell_laws::inputs_are_handed_over(old(queue)@, i, old(queue)@[i].words());
}

/// A queue that holds something is flushed; an empty one gives nothing.
pub proof fn empty_queues_give_nothing(queue: &mut TurnQueue, r: Option<Message>)
    requires
        call_ensures(TurnQueue::try_flush, (queue,), r),
    ensures
        r is Some <==> old(queue)@.len() > 0,
        r matches Some(m) ==> m@ == turn_queue::turn_message(old(queue)@),
        final(queue)@.len() == 0,
{
}

/// What is queued comes after what is queued, whoever it comes from.
pub proof fn inputs_are_queued(queue: &mut TurnQueue, said: String)
    ensures
        call_ensures(TurnQueue::push_user, (queue, said), ()) ==> final(queue)@ == old(
            queue,
        )@.push(TurnInputView::User(said@)),
        call_ensures(TurnQueue::push_system, (queue, said), ()) ==> final(queue)@ == old(
            queue,
        )@.push(TurnInputView::System(said@)),
{
}

/// Inputs are joined as paragraphs.
pub proof fn inputs_are_combined(items: &[TurnInput], r: String)
    requires
        call_ensures(turn_queue::combine_inputs, (items,), r),
    ensures
        r@ == turn_queue::combined(items@.map_values(|i: TurnInput| i@)),
{
}

// ── Prompting ─────────────────────────────────────────────────────────

/// The thread that prompts the user goes on step by step.
pub proof fn prompting_goes_step_by_step(
    state: InputState,
    h: Happening,
    r: (InputState, InputAction),
)
    requires
        call_ensures(input_thread::step, (state, h), r),
    ensures
        (r.0, r.1@) == input_thread::next(state, h@),
{
}

} // verus!
