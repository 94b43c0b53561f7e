//! The thread that prompts the user: what it does next, given what happened.
use vstd::prelude::*;

verus! {

/// Commands sent to the input thread.
#[derive(Debug, Clone, Copy, PartialEq, Eq, Structural)]
pub enum InputCommand {
    /// Shut down the input thread.
    Shutdown,
    /// Resume prompting, once what was submitted has been dealt with.
    Resume,
}

/// What a submitted line comes to.
#[derive(Debug)]
pub enum InputResult {
    /// Something for the agent.
    Message(String),
    /// The user leaves.
    Exit,
    /// Nothing; prompt again.
    Retry,
}

#[verifier::ext_equal]
pub enum InputResultView {
    Message(Seq<char>),
    Exit,
    Retry,
}

impl View for InputResult {
    type V = InputResultView;

    open spec fn view(&self) -> InputResultView {
        match *self {
            InputResult::Message(text) => InputResultView::Message(text@),
            InputResult::Exit => InputResultView::Exit,
            InputResult::Retry => InputResultView::Retry,
        }
    }
}

/// Events sent from the input thread.
#[derive(Debug)]
pub enum InputEvent {
    /// The user submitted a line.
    Input(InputResult),
    /// The input thread has exited.
    Closed,
}

#[verifier::ext_equal]
pub enum InputEventView {
    Input(InputResultView),
    Closed,
}

impl View for InputEvent {
    type V = InputEventView;

    open spec fn view(&self) -> InputEventView {
        match *self {
            InputEvent::Input(result) => InputEventView::Input(result@),
            InputEvent::Closed => InputEventView::Closed,
        }
    }
}

/// How an interrupt of the prompt is coordinated.
#[derive(Debug)]
pub struct InterruptState {
    /// The next key press saves the line and interrupts the prompt.
    pub interrupt_requested: bool,
    /// The line that was saved.
    pub saved_line: String,
}

impl InterruptState {
    pub fn new() -> (r: InterruptState)
        ensures
            !r.interrupt_requested,
            r.saved_line@.len() == 0,
    {
        InterruptState { interrupt_requested: false, saved_line: String::new() }
    }
}

// ── The loop ──────────────────────────────────────────────────────────

/// Where the thread is.
#[derive(Debug, Clone, Copy, PartialEq, Eq, Structural)]
pub enum InputState {
    /// It looks for commands.
    Polling,
    /// It prompts the user.
    Prompting,
    /// It delivers a line, after which it exits or prompts again.
    Delivering { exit: bool, retry: bool },
    /// It waits to be resumed.
    Awaiting,
    /// It tells that prompting failed.
    Failing,
    /// It tells that it exits.
    Closing,
    /// It has exited.
    Closed,
}

/// What looking for commands gives.
#[derive(Debug, Clone, Copy, PartialEq, Eq, Structural)]
pub enum Poll {
    Command(InputCommand),
    Empty,
    Disconnected,
}

/// What happened to the thread.
#[derive(Debug)]
pub enum Happening {
    /// It looked for commands.
    Polled(Poll),
    /// The prompt gave a line, or failed.
    Line(Option<InputResult>),
    /// An event was sent; whether anybody can still receive it.
    Sent(bool),
    /// The command that it waited for, or that there will be none.
    Commanded(Option<InputCommand>),
}

#[verifier::ext_equal]
pub enum HappeningView {
    Polled(Poll),
    Line(Option<InputResultView>),
    Sent(bool),
    Commanded(Option<InputCommand>),
}

impl View for Happening {
    type V = HappeningView;

    open spec fn view(&self) -> HappeningView {
        match *self {
            Happening::Polled(poll) => HappeningView::Polled(poll),
            Happening::Line(line) => HappeningView::Line(
                match line {
                    Some(result) => Some(result@),
                    None => None,
                },
            ),
            Happening::Sent(received) => HappeningView::Sent(received),
            Happening::Commanded(command) => HappeningView::Commanded(command),
        }
    }
}

/// What the thread does next.
#[derive(Debug)]
pub enum InputAction {
    /// Look for commands, without waiting.
    Poll,
    /// Prompt the user.
    Prompt,
    /// Save the history, then send the event.
    SaveAndSend(InputEvent),
    /// Send the event.
    Send(InputEvent),
    /// Wait for a command.
    Wait,
    /// Exit.
    Stop,
}

#[verifier::ext_equal]
pub enum InputActionView {
    Poll,
    Prompt,
    SaveAndSend(InputEventView),
    Send(InputEventView),
    Wait,
    Stop,
}

impl View for InputAction {
    type V = InputActionView;

    open spec fn view(&self) -> InputActionView {
        match *self {
            InputAction::Poll => InputActionView::Poll,
            InputAction::Prompt => InputActionView::Prompt,
            InputAction::SaveAndSend(event) => InputActionView::SaveAndSend(event@),
            InputAction::Send(event) => InputActionView::Send(event@),
            InputAction::Wait => InputActionView::Wait,
            InputAction::Stop => InputActionView::Stop,
        }
    }
}

/// This can happen where the thread is.
pub open spec fn fits(state: InputState, h: HappeningView) -> bool {
    match state {
        InputState::Polling => h is Polled,
        InputState::Prompting => h is Line,
        InputState::Delivering { .. } => h is Sent,
        InputState::Awaiting => h is Commanded,
        InputState::Failing => h is Sent,
        InputState::Closing => h is Sent,
        InputState::Closed => false,
    }
}

/// Telling that the thread exits.
pub open spec fn closing() -> (InputState, InputActionView) {
    (InputState::Closing, InputActionView::Send(InputEventView::Closed))
}

/// Where the thread is next, and what it does.
pub open spec fn next(state: InputState, h: HappeningView) -> (InputState, InputActionView) {
    match (state, h) {
        (InputState::Polling, HappeningView::Polled(poll)) => match poll {
            Poll::Command(InputCommand::Shutdown) => closing(),
            Poll::Disconnected => closing(),
            _ => (InputState::Prompting, InputActionView::Prompt),
        },
        (InputState::Prompting, HappeningView::Line(line)) => match line {
            Some(result) => (
                InputState::Delivering { exit: result is Exit, retry: result is Retry },
                InputActionView::SaveAndSend(InputEventView::Input(result)),
            ),
            None => (InputState::Failing, InputActionView::Send(InputEventView::Closed)),
        },
        (InputState::Delivering { exit, retry }, HappeningView::Sent(received)) => if !received
            || exit {
            closing()
        } else if retry {
            (InputState::Polling, InputActionView::Poll)
        } else {
            (InputState::Awaiting, InputActionView::Wait)
        },
        (InputState::Awaiting, HappeningView::Commanded(command)) => if command == Some(
            InputCommand::Resume,
        ) {
            (InputState::Polling, InputActionView::Poll)
        } else {
            closing()
        },
        (InputState::Failing, _) => closing(),
        _ => (InputState::Closed, InputActionView::Stop),
    }
}

fn close() -> (r: (InputState, InputAction))
    ensures
        r.0 == closing().0,
        r.1@ == closing().1,
{
    (InputState::Closing, InputAction::Send(InputEvent::Closed))
}

/// Where the thread starts, and what it does first.
pub fn start() -> (r: (InputState, InputAction))
    ensures
        r.0 == InputState::Polling,
        r.1@ == InputActionView::Poll,
{
    (InputState::Polling, InputAction::Poll)
}

/// Where the thread is next, and what it does.
pub fn step(state: InputState, h: Happening) -> (r: (InputState, InputAction))
    requires
        fits(state, h@),
    ensures
        r.0 == next(state, h@).0,
        r.1@ == next(state, h@).1,
{
    match (state, h) {
        (InputState::Polling, Happening::Polled(poll)) => match poll {
            Poll::Command(InputCommand::Shutdown) => close(),
            Poll::Disconnected => close(),
            _ => (InputState::Prompting, InputAction::Prompt),
        },
        (InputState::Prompting, Happening::Line(line)) => match line {
            Some(result) => {
                let exit = match &result {
                    InputResult::Exit => true,
                    _ => false,
                };
                let retry = match &result {
                    InputResult::Retry => true,
                    _ => false,
                };
                (
                    InputState::Delivering { exit, retry },
                    InputAction::SaveAndSend(InputEvent::Input(result)),
                )
            },
            None => (InputState::Failing, InputAction::Send(InputEvent::Closed)),
        },
        (InputState::Delivering { exit, retry }, Happening::Sent(received)) => {
            if !received || exit {
                close()
            } else if retry {
                (InputState::Polling, InputAction::Poll)
            } else {
                (InputState::Awaiting, InputAction::Wait)
            }
        },
        (InputState::Awaiting, Happening::Commanded(command)) => match command {
            Some(InputCommand::Resume) => (InputState::Polling, InputAction::Poll),
            _ => close(),
        },
        (InputState::Failing, _) => close(),
        _ => (InputState::Closed, InputAction::Stop),
    }
}

// ── Laws ──────────────────────────────────────────────────────────────

/// These things can happen one after another.
pub open spec fn possible(state: InputState, hs: Seq<HappeningView>) -> bool
    decreases hs.len(),
{
    hs.len() > 0 ==> fits(state, hs[0]) && possible(next(state, hs[0]).0, hs.skip(1))
}

/// What the thread does when these things happen.
pub open spec fn actions(state: InputState, hs: Seq<HappeningView>) -> Seq<InputActionView>
    decreases hs.len(),
{
    if hs.len() == 0 {
        Seq::empty()
    } else {
        seq![next(state, hs[0]).1] + actions(next(state, hs[0]).0, hs.skip(1))
    }
}

/// Where the thread is when these things have happened.
pub open spec fn reached(state: InputState, hs: Seq<HappeningView>) -> InputState
    decreases hs.len(),
{
    if hs.len() == 0 {
        state
    } else {
        reached(next(state, hs[0]).0, hs.skip(1))
    }
}

/// The thread is on its way out.
pub open spec fn leaving(state: InputState) -> bool {
    state == InputState::Failing || state == InputState::Closing || state == InputState::Closed
}

/// A thread on its way out only tells that it exits.
proof fn leaving_is_final(state: InputState, hs: Seq<HappeningView>)
    requires
        leaving(state),
        possible(state, hs),
    ensures
        forall|i: int|
            0 <= i < actions(state, hs).len() ==> #[trigger] actions(state, hs)[i] == (
            InputActionView::Send(InputEventView::Closed)) || actions(state, hs)[i]
                == InputActionView::Stop,
    decreases hs.len(),
{
    if hs.len() > 0 {
        let rest = hs.skip(1);
        let after = next(state, hs[0]).0;
        leaving_is_final(after, rest);
        assert forall|i: int| 0 <= i < actions(state, hs).len() implies #[trigger] actions(
            state,
            hs,
        )[i] == (InputActionView::Send(InputEventView::Closed)) || actions(state, hs)[i]
            == InputActionView::Stop by {
            if i > 0 {
                assert(actions(state, hs)[i] == actions(after, rest)[i - 1]);
            }
        }
    }
}

/// After a line for the agent, the user is not prompted again before the
/// thread is resumed.
pub proof fn no_prompt_before_resume(hs: Seq<HappeningView>, i: int)
    requires
        possible(InputState::Awaiting, hs),
        0 <= i < actions(InputState::Awaiting, hs).len(),
        actions(InputState::Awaiting, hs)[i] == InputActionView::Prompt,
    ensures
        hs[0] == HappeningView::Commanded(Some(InputCommand::Resume)),
{
    if hs[0] != HappeningView::Commanded(Some(InputCommand::Resume)) {
        let rest = hs.skip(1);
        assert(next(InputState::Awaiting, hs[0]) == closing());
        leaving_is_final(InputState::Closing, rest);
        if i > 0 {
            assert(actions(InputState::Awaiting, hs)[i] == actions(InputState::Closing, rest)[i
                - 1]);
        }
    }
}

/// Whatever happens, a thread that has exited has told so, and told of no
/// line after that.
pub proof fn closing_is_told_last(state: InputState, hs: Seq<HappeningView>, at: int)
    requires
        possible(state, hs),
        0 <= at < actions(state, hs).len(),
        actions(state, hs)[at] == InputActionView::Send(InputEventView::Closed),
    ensures
        forall|i: int|
            at < i < actions(state, hs).len() ==> (#[trigger] actions(state, hs)[i]) !is SaveAndSend
                && actions(state, hs)[i] != InputActionView::Prompt,
    decreases hs.len(),
{
    let rest = hs.skip(1);
    let after = next(state, hs[0]).0;
    if at == 0 {
        assert(leaving(after));
        leaving_is_final(after, rest);
    } else {
        assert(actions(state, hs)[at] == actions(after, rest)[at - 1]);
        closing_is_told_last(after, rest, at - 1);
    }
    assert forall|i: int| at < i < actions(state, hs).len() implies (#[trigger] actions(
        state,
        hs,
    )[i]) !is SaveAndSend && actions(state, hs)[i] != InputActionView::Prompt by {
        assert(actions(state, hs)[i] == actions(after, rest)[i - 1]);
    }
}

/// A thread that has exited has told that it exits.
pub proof fn exit_is_told(state: InputState, hs: Seq<HappeningView>)
    requires
        possible(state, hs),
        !leaving(state),
        reached(state, hs) == InputState::Closed,
    ensures
        actions(state, hs).contains(InputActionView::Send(InputEventView::Closed)),
    decreases hs.len(),
{
    let rest = hs.skip(1);
    let (after, action) = next(state, hs[0]);
    assert(actions(state, hs)[0] == action);
    if !leaving(after) {
        exit_is_told(after, rest);
        let i = choose|i: int|
            0 <= i < actions(after, rest).len() && actions(after, rest)[i]
                == InputActionView::Send(InputEventView::Closed);
        assert(actions(state, hs)[i + 1] == actions(after, rest)[i]);
    }
}

} // verus!
