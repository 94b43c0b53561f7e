//! What holds of the thread that prompts the user, step by step.
use crate::input_thread;
use crate::input_thread::{
    HappeningView, InputActionView, InputCommand, InputEventView, InputResultView, InputState, Poll,
};
use vstd::prelude::*;

verus! {

/// What the thread does about something that happens.
pub open spec fn does(state: InputState, h: HappeningView) -> InputActionView {
    input_thread::next(state, h).1
}

/// Where the thread is once something has happened.
pub open spec fn goes(state: InputState, h: HappeningView) -> InputState {
    input_thread::next(state, h).0
}

/// The thread tells that it exits.
pub open spec fn says_goodbye(state: InputState, h: HappeningView) -> bool {
    does(state, h) == InputActionView::Send(InputEventView::Closed)
}

/// The thread prompts the user unless it is told to shut down or nobody is
/// there to tell it anything; then it says so, and exits.
pub proof fn user_is_prompted_unless_shut_down(poll: Poll)
    ensures
        ({
            let h = HappeningView::Polled(poll);
            if poll == Poll::Disconnected || poll == Poll::Command(InputCommand::Shutdown) {
                says_goodbye(InputState::Polling, h)
            } else {
                does(InputState::Polling, h) == InputActionView::Prompt && goes(
                    InputState::Polling,
                    h,
                ) == InputState::Prompting
            }
        }),
{
}

/// Every line is sent on as it is. Then the thread waits after a message,
/// prompts again after a line that is to be tried again, and exits once the
/// user leaves or nobody can receive the line.
pub proof fn lines_are_sent_on(result: InputResultView, received: bool)
    ensures
        ({
            let line = HappeningView::Line(Some(result));
            let sent = HappeningView::Sent(received);
            let then = goes(InputState::Prompting, line);
            &&& does(InputState::Prompting, line) == InputActionView::SaveAndSend(
                InputEventView::Input(result),
            )
            &&& input_thread::fits(then, sent)
            &&& match result {
                InputResultView::Message(_) if received => {
                    &&& does(then, sent) == InputActionView::Wait
                    &&& goes(then, sent) == InputState::Awaiting
                },
                InputResultView::Retry if received => {
                    &&& does(then, sent) == InputActionView::Poll
                    &&& goes(then, sent) == InputState::Polling
                },
                _ => says_goodbye(then, sent) && goes(then, sent) == InputState::Closing,
            }
        }),
{
}

/// A prompt that fails is told as an exit, which is then told once more; then
/// the thread stops.
pub proof fn failed_prompts_close(first: bool, second: bool)
    ensures
        ({
            let failed = HappeningView::Line(None);
            let once = goes(InputState::Prompting, failed);
            let told = HappeningView::Sent(first);
            let twice = goes(once, told);
            let again = HappeningView::Sent(second);
            &&& says_goodbye(InputState::Prompting, failed)
            &&& input_thread::fits(once, told)
            &&& says_goodbye(once, told)
            &&& input_thread::fits(twice, again)
            &&& does(twice, again) == InputActionView::Stop
            &&& goes(twice, again) == InputState::Closed
        }),
{
}

/// A thread that waits looks for commands again once it is resumed; any other
/// command, and that there will be none, make it exit.
pub proof fn waiting_ends_with_a_command(command: Option<InputCommand>)
    ensures
        ({
            let h = HappeningView::Commanded(command);
            match command {
                Some(InputCommand::Resume) => does(InputState::Awaiting, h) == InputActionView::Poll
                    && goes(InputState::Awaiting, h) == InputState::Polling,
                Some(InputCommand::Shutdown) => says_goodbye(InputState::Awaiting, h) && goes(
                    InputState::Awaiting,
                    h,
                ) == InputState::Closing,
                None => says_goodbye(InputState::Awaiting, h) && goes(InputState::Awaiting, h)
                    == InputState::Closing,
            }
        }),
{
}

/// Once it has told that it exits, the thread stops.
pub proof fn goodbye_is_followed_by_a_stop(received: bool, poll: Poll)
    ensures
        does(InputState::Closing, HappeningView::Sent(received)) == InputActionView::Stop,
        goes(InputState::Closing, HappeningView::Sent(received)) == InputState::Closed,
        says_goodbye(InputState::Polling, HappeningView::Polled(poll)) ==> goes(
            InputState::Polling,
            HappeningView::Polled(poll),
        ) == InputState::Closing,
{
}

/// What the thread does decides what happens next: what it looks for, asks for,
/// sends or waits for is what it takes in, and after a stop nothing is.
pub proof fn actions_are_answered(state: InputState, h: HappeningView, answer: HappeningView)
    requires
        input_thread::fits(state, h),
    ensures
        input_thread::fits(goes(state, h), answer) <==> match does(state, h) {
            InputActionView::Poll => answer is Polled,
            InputActionView::Prompt => answer is Line,
            InputActionView::SaveAndSend(_) => answer is Sent,
            InputActionView::Send(_) => answer is Sent,
            InputActionView::Wait => answer is Commanded,
            InputActionView::Stop => false,
        },
        input_thread::fits(InputState::Polling, answer) <==> answer is Polled,
{
}

} // verus!
