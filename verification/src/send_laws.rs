//! What holds of input that is sent to tasks.
use crate::arguments;
use crate::arguments::{JsonObject, MemberView};
use crate::outside;
use crate::process;
use crate::process::{ProcessView, WriteActionView, WriteStepView};
use crate::send_input;
use crate::send_input::{
    ElicitationOutcome, SendAction, SendActionView, SendArguments, SendArgumentsView, Signal,
};
use crate::task_client::TasksClient;
use crate::tasks;
use crate::tasks::{RegistryView, TaskRegistry, TaskState, TaskView};
use crate::text;
use crate::time::Moment;
use vstd::prelude::*;
use vstd::string::*;
use vstd::utf8::*;

verus! {

// ── Arguments ─────────────────────────────────────────────────────────

/// The member under a name is this.
pub open spec fn has_member(
    object: Map<Seq<char>, MemberView>,
    key: Seq<char>,
    member: MemberView,
) -> bool {
    object.contains_key(key) && object[key] == member
}

/// A member is read as what it is: a text as a text, a flag as a flag, a number
/// as a number, a list as a list, an object as an object; and what is not there
/// or of another kind is not read.
pub proof fn members_are_read_by_kind(object: Map<Seq<char>, MemberView>, key: Seq<char>)
    ensures
        forall|t: Seq<char>|
            arguments::text_in(object, key) == Some(t) <==> #[trigger] has_member(
                object,
                key,
                MemberView::Text(t),
            ),
        forall|b: bool|
            arguments::flag_in(object, key) == Some(b) <==> #[trigger] has_member(
                object,
                key,
                MemberView::Flag(b),
            ),
        forall|n: u64|
            arguments::number_in(object, key) == Some(n) <==> #[trigger] has_member(
                object,
                key,
                MemberView::Number(Some(n)),
            ),
        forall|items: Seq<Option<u64>>|
            arguments::items_in(object, key) == Some(items) <==> #[trigger] has_member(
                object,
                key,
                MemberView::Items(items),
            ),
        forall|rows: Seq<(Seq<char>, Option<Seq<char>>)>|
            arguments::table_in(object, key) == Some(rows) <==> #[trigger] has_member(
                object,
                key,
                MemberView::Table(rows),
            ),
{
}

/// Every argument of `send_input` is read from the member of its name.
pub proof fn send_arguments_are_read_by_name(object: Map<Seq<char>, MemberView>)
    ensures
        ({
            let a = SendArgumentsView::of(object);
            &&& forall|t: Seq<char>|
                {
                    &&& a.task_id == Some(t) <==> #[trigger] has_member(
                        object,
                        "task_id"@,
                        MemberView::Text(t),
                    )
                    &&& a.input == Some(t) <==> #[trigger] has_member(
                        object,
                        "input"@,
                        MemberView::Text(t),
                    )
                    &&& a.signal == Some(t) <==> #[trigger] has_member(
                        object,
                        "signal"@,
                        MemberView::Text(t),
                    )
                    &&& a.elicit_message == Some(t) <==> #[trigger] has_member(
                        object,
                        "elicit_message"@,
                        MemberView::Text(t),
                    )
                    &&& a.wait_for == Some(t) <==> #[trigger] has_member(
                        object,
                        "wait_for"@,
                        MemberView::Text(t),
                    )
                }
            &&& forall|b: bool|
                {
                    &&& a.no_enter == Some(b) <==> #[trigger] has_member(
                        object,
                        "no_enter"@,
                        MemberView::Flag(b),
                    )
                    &&& a.close_stdin == Some(b) <==> #[trigger] has_member(
                        object,
                        "close_stdin"@,
                        MemberView::Flag(b),
                    )
                    &&& a.elicit == Some(b) <==> #[trigger] has_member(
                        object,
                        "elicit"@,
                        MemberView::Flag(b),
                    )
                }
            &&& forall|items: Seq<Option<u64>>|
                a.bytes == Some(items) <==> #[trigger] has_member(
                    object,
                    "bytes"@,
                    MemberView::Items(items),
                )
        }),
{
}

// ── Steps ─────────────────────────────────────────────────────────────

/// Input is written and flushed; then, unless the end of a line is not wanted,
/// after a pause the end of a line is written and flushed: a line feed, and
/// before it a carriage return where the process runs in a terminal. The last
/// step closes the standard input exactly if that is wanted and there are
/// pipes, whatever came before; no other step does.
pub proof fn steps_write_flush_and_close(
    p: ProcessView,
    input: Seq<u8>,
    no_enter: bool,
    close_stdin: bool,
)
    ensures
        ({
            let steps = process::write_steps(p, input, no_enter, close_stdin);
            &&& steps.len() == 2 + (if no_enter {
                0int
            } else {
                3
            }) + (if close_stdin && !p.pty {
                1int
            } else {
                0
            })
            &&& steps[0].action == WriteActionView::Write(input)
            &&& steps[1].action == WriteActionView::Flush
            &&& !no_enter ==> {
                &&& steps[2].action == WriteActionView::Pause(50)
                &&& steps[3].action == WriteActionView::Write(
                    if p.pty {
                        seq![13u8, 10u8]
                    } else {
                        seq![10u8]
                    },
                )
                &&& steps[4].action == WriteActionView::Flush
            }
            &&& steps.last().action == WriteActionView::CloseStdin <==> close_stdin && !p.pty
            &&& forall|i: int|
                0 <= i < steps.len() - 1 ==> (#[trigger] steps[i]).action
                    != WriteActionView::CloseStdin
        }),
{
}

/// A step that fails is reported by what it was to do: writing or flushing, to
/// a terminal or to the standard input.
pub proof fn failing_steps_are_named(
    p: ProcessView,
    input: Seq<u8>,
    no_enter: bool,
    close_stdin: bool,
)
    ensures
        ({
            let steps = process::write_steps(p, input, no_enter, close_stdin);
            &&& steps[0].failure == (if p.pty {
                "Failed to write to PTY: "@
            } else {
                "Failed to write to stdin: "@
            })
            &&& steps[1].failure == (if p.pty {
                "Failed to flush PTY: "@
            } else {
                "Failed to flush stdin: "@
            })
            &&& !no_enter ==> steps[4].failure == steps[1].failure && steps[3].failure == (
            if p.pty {
                "Failed to write PTY newline: "@
            } else {
                "Failed to write newline: "@
            })
        }),
{
}

/// What reaches a process is the input and, unless it is not wanted, the end
/// of a line.
pub proof fn bytes_that_arrive(p: ProcessView, input: Seq<u8>, no_enter: bool, close_stdin: bool)
    ensures
        process::written(process::write_steps(p, input, no_enter, close_stdin)) == (if no_enter {
            input
        } else if p.pty {
            input + seq![13u8, 10u8]
        } else {
            input + seq![10u8]
        }),
{
    process::input_arrives_whole(p, input, no_enter, close_stdin);
    assert(input + Seq::<u8>::empty() =~= input);
}

/// Closing the standard input keeps all else that is known of a process, and a
/// terminal open.
pub proof fn closing_closes_pipes_only(p: ProcessView)
    ensures
        p.input_closed() == (ProcessView { stdin_open: p.input_closed().stdin_open, ..p }),
        !p.pty ==> !p.input_closed().stdin_open,
        p.pty ==> p.input_closed().stdin_open,
{
}

/// Every whole number among the items is sent as one byte, its lowest, in the
/// order given, and nothing else is.
pub proof fn numbers_become_bytes(a: Seq<Option<u64>>, b: Seq<Option<u64>>, n: u64)
    ensures
        send_input::raw_bytes(a + b) == send_input::raw_bytes(a) + send_input::raw_bytes(b),
        send_input::raw_bytes(seq![Some(n)]) == seq![(n % 256) as u8],
        send_input::raw_bytes(seq![None]).len() == 0,
        send_input::raw_bytes(Seq::empty()).len() == 0,
    decreases b.len(),
{
    let none = Seq::<Option<u64>>::empty();
    assert(seq![Some(n)].drop_last() =~= none);
    assert(seq![None::<u64>].drop_last() =~= none);
    assert(send_input::raw_bytes(none) =~= Seq::empty());
    assert(send_input::raw_bytes(seq![Some(n)].drop_last()) =~= Seq::empty());
    assert(send_input::raw_bytes(seq![Some(n)]) =~= seq![(n % 256) as u8]);
    assert(send_input::raw_bytes(seq![None::<u64>].drop_last()) =~= Seq::empty());
    if b.len() == 0 {
        assert(a + b =~= a);
        assert(send_input::raw_bytes(a) + send_input::raw_bytes(b) =~= send_input::raw_bytes(a));
    } else {
        assert((a + b).drop_last() =~= a + b.drop_last());
        assert((a + b).last() == b.last());
        numbers_become_bytes(a, b.drop_last(), n);
        assert(send_input::raw_bytes(a + b) =~= send_input::raw_bytes(a) + send_input::raw_bytes(
            b,
        ));
    }
}

/// Items that are bytes arrive as these bytes.
pub proof fn bytes_are_sent_as_they_are(items: Seq<Option<u64>>, bytes: Seq<u8>)
    requires
        items.len() == bytes.len(),
        forall|i: int| 0 <= i < items.len() ==> #[trigger] items[i] == Some(bytes[i] as u64),
    ensures
        send_input::raw_bytes(items) == bytes,
    decreases items.len(),
{
    if items.len() > 0 {
        assert(items[items.len() - 1] == Some(bytes[bytes.len() - 1] as u64));
        bytes_are_sent_as_they_are(items.drop_last(), bytes.drop_last());
        assert(bytes.drop_last().push(bytes.last()) =~= bytes);
    } else {
        assert(bytes =~= Seq::empty());
    }
}

// ── Signals ───────────────────────────────────────────────────────────

/// The name of a signal.
pub open spec fn name_of(signal: Signal) -> Seq<char> {
    match signal {
        Signal::Int => "SIGINT"@,
        Signal::Term => "SIGTERM"@,
        Signal::Kill => "SIGKILL"@,
        Signal::Stop => "SIGSTOP"@,
        Signal::Cont => "SIGCONT"@,
        Signal::Hup => "SIGHUP"@,
        Signal::Quit => "SIGQUIT"@,
    }
}

/// A signal is called by its own name, and by no other.
pub proof fn signals_are_called_by_name(name: Seq<char>, signal: Signal)
    ensures
        send_input::signal_called(name) == Some(signal) <==> name == name_of(signal),
{
    reveal_strlit("SIGINT");
    reveal_strlit("SIGTERM");
    reveal_strlit("SIGKILL");
    reveal_strlit("SIGSTOP");
    reveal_strlit("SIGCONT");
    reveal_strlit("SIGHUP");
    reveal_strlit("SIGQUIT");
    assert("SIGINT"@[3] == 'I');
    assert("SIGHUP"@[3] == 'H');
    assert("SIGTERM"@[3] == 'T');
    assert("SIGKILL"@[3] == 'K');
    assert("SIGSTOP"@[3] == 'S');
    assert("SIGCONT"@[3] == 'C');
    assert("SIGQUIT"@[3] == 'Q');
}

/// The signal that is meant is the one of the name in capitals; without a name
/// there is none.
pub proof fn signal_is_meant_in_any_case(a: SendArgumentsView, signal: Signal)
    ensures
        send_input::signal_given(a) == Some(signal) <==> (a.signal matches Some(name)
            && outside::uppercased(name) == name_of(signal)),
{
    if let Some(name) = a.signal {
        signals_are_called_by_name(outside::uppercased(name), signal);
    }
}

/// Letters from a to z are meant as their capitals, and every other character as
/// itself.
pub proof fn capitals_stand_for_letters(c: char)
    ensures
        'a' <= c <= 'z' ==> outside::ascii_upper(c) as u32 == c as u32 - 'a' as u32 + 'A' as u32,
        !('a' <= c <= 'z') ==> outside::ascii_upper(c) == c,
{
}

// ── Sending ───────────────────────────────────────────────────────────

/// Without a task there is nobody to send to, and nothing happens.
pub proof fn sending_needs_a_task(
    table: Seq<(Seq<char>, ProcessView)>,
    registry: RegistryView,
    a: SendArgumentsView,
    signal: Option<Signal>,
    request_id: Option<Seq<char>>,
    now: Moment,
)
    requires
        a.task_id is None,
    ensures
        send_input::sent(table, registry, a, signal, request_id) == Err::<SendActionView, _>(
            "Missing 'task_id' argument"@,
        ),
        send_input::after_sending(
            registry,
            a,
            send_input::sent(table, registry, a, signal, request_id),
            now,
        ) == registry,
{
}

/// A signal goes to the running process of the task, whatever else is given;
/// one that is not known, a task without a process and a process that has
/// exited are refused.
pub proof fn signal_goes_to_the_running_process(
    table: Seq<(Seq<char>, ProcessView)>,
    registry: RegistryView,
    a: SendArgumentsView,
    signal: Option<Signal>,
    request_id: Option<Seq<char>>,
)
    requires
        a.task_id is Some,
        a.signal is Some,
    ensures
        ({
            let id = a.task_id.unwrap();
            let name = a.signal.unwrap();
            let r = send_input::sent(table, registry, a, signal, request_id);
            match (signal, process::process_of(table, id)) {
                (None, _) => r == Err::<SendActionView, _>(
                    "Unsupported signal: "@ + name
                        + ". Use SIGINT, SIGTERM, SIGKILL, SIGSTOP, SIGCONT, SIGHUP, or SIGQUIT."@,
                ),
                (Some(_), None) => r == Err::<SendActionView, _>(
                    "Process task '"@ + id + "' not found"@,
                ),
                (Some(s), Some(p)) => match p.child_id {
                    None => r == Err::<SendActionView, _>("Process already exited"@),
                    Some(child) => r matches Ok(SendActionView::Signal { signal: sent, pid, reply })
                        && sent == s && pid == child as i32 && reply == "Signal "@ + name
                        + " sent to "@ + id,
                },
            }
        }),
{
}

/// The steps bring exactly these bytes to a process behind `p`, and close its
/// standard input at the end if that is wanted and there are pipes.
pub open spec fn brings(
    steps: Seq<WriteStepView>,
    p: ProcessView,
    bytes: Seq<u8>,
    close: bool,
) -> bool {
    &&& process::written(steps) == bytes
    &&& steps.len() > 0
    &&& steps.last().action == WriteActionView::CloseStdin <==> close && !p.pty
    &&& forall|i: int|
        0 <= i < steps.len() - 1 ==> (#[trigger] steps[i]).action != WriteActionView::CloseStdin
}

/// What ends a line for a process.
pub open spec fn line_end(p: ProcessView) -> Seq<u8> {
    if p.pty {
        seq![13u8, 10u8]
    } else {
        seq![10u8]
    }
}

/// Bytes reach the process of the task as they are, with nothing after them,
/// and leave its input open, whatever the flags say; the reply tells how many
/// they were.
pub proof fn bytes_reach_the_process(
    table: Seq<(Seq<char>, ProcessView)>,
    registry: RegistryView,
    a: SendArgumentsView,
    signal: Option<Signal>,
    request_id: Option<Seq<char>>,
)
    requires
        a.task_id is Some,
        a.signal is None,
        a.bytes is Some,
    ensures
        ({
            let id = a.task_id.unwrap();
            let raw = send_input::raw_bytes(a.bytes.unwrap());
            let r = send_input::sent(table, registry, a, signal, request_id);
            match process::process_of(table, id) {
                None => r == Err::<SendActionView, _>("Process task '"@ + id + "' not found"@),
                Some(p) => if p.stdin_open {
                    r matches Ok(SendActionView::Write { steps, reply }) && brings(
                        steps,
                        p,
                        raw,
                        false,
                    ) && reply == "Sent "@ + text::decimal_text(raw.len()) + " bytes to "@ + id
                } else {
                    r == Err::<SendActionView, _>("Process stdin not available (already closed)"@)
                },
            }
        }),
{
    let id = a.task_id.unwrap();
    let raw = send_input::raw_bytes(a.bytes.unwrap());
    let r = send_input::sent(table, registry, a, signal, request_id);
    if let Some(p) = process::process_of(table, id) {
        bytes_that_arrive(p, raw, true, false);
        steps_write_flush_and_close(p, raw, true, false);
    }
}

/// Text reaches the process of the task as it is, with the end of a line unless
/// that is not wanted; its input is closed if that is wanted. The reply shows
/// the task and the text.
pub proof fn text_reaches_the_process(
    table: Seq<(Seq<char>, ProcessView)>,
    registry: RegistryView,
    a: SendArgumentsView,
    signal: Option<Signal>,
    request_id: Option<Seq<char>>,
)
    requires
        a.task_id is Some,
        a.signal is None,
        a.bytes is None,
        a.elicit != Some(true),
        a.input is Some,
        !(registry.get(a.task_id.unwrap()) matches Some(t) && t.state == TaskState::InputRequired),
    ensures
        ({
            let id = a.task_id.unwrap();
            let input = a.input.unwrap();
            let r = send_input::sent(table, registry, a, signal, request_id);
            match process::process_of(table, id) {
                None => r == Err::<SendActionView, _>("Process task '"@ + id + "' not found"@),
                Some(p) => if p.stdin_open {
                    r matches Ok(SendActionView::Write { steps, reply }) && brings(
                        steps,
                        p,
                        if a.no_enter == Some(true) {
                            encode_utf8(input)
                        } else {
                            encode_utf8(input) + line_end(p)
                        },
                        a.close_stdin == Some(true),
                    ) && reply == "Sent to "@ + id + ": "@ + input
                } else {
                    r == Err::<SendActionView, _>("Process stdin not available (already closed)"@)
                },
            }
        }),
{
    let id = a.task_id.unwrap();
    let input = a.input.unwrap();
    let r = send_input::sent(table, registry, a, signal, request_id);
    if let Some(p) = process::process_of(table, id) {
        let no_enter = a.no_enter == Some(true);
        let close = a.close_stdin == Some(true);
        bytes_that_arrive(p, encode_utf8(input), no_enter, close);
        steps_write_flush_and_close(p, encode_utf8(input), no_enter, close);
    }
}

/// A task that waits for input gets text as its answer: it goes on, and no
/// process is written to.
pub proof fn text_answers_a_waiting_task(
    table: Seq<(Seq<char>, ProcessView)>,
    registry: RegistryView,
    a: SendArgumentsView,
    signal: Option<Signal>,
    request_id: Option<Seq<char>>,
)
    requires
        a.task_id is Some,
        a.signal is None,
        a.bytes is None,
        a.elicit != Some(true),
        a.input is Some,
        registry.get(a.task_id.unwrap()) matches Some(t) && t.state == TaskState::InputRequired,
    ensures
        send_input::sent(table, registry, a, signal, request_id) matches Ok(
            SendActionView::Resumed { reply },
        ) && reply == "Input sent to task "@ + a.task_id.unwrap()
            + " (resumed from InputRequired state)."@,
{
}

/// The user is asked if that is wanted and neither a signal nor bytes are
/// given, with the message given or the usual one, under the request of the
/// call; without a request it cannot be done.
pub proof fn user_is_asked(
    table: Seq<(Seq<char>, ProcessView)>,
    registry: RegistryView,
    a: SendArgumentsView,
    signal: Option<Signal>,
    request_id: Option<Seq<char>>,
)
    requires
        a.task_id is Some,
        a.signal is None,
        a.bytes is None,
        a.elicit == Some(true),
    ensures
        match request_id {
            None => send_input::sent(table, registry, a, signal, request_id) == Err::<
                SendActionView,
                _,
            >("Elicitation requires an active tool call context with a request ID"@),
            Some(request) => send_input::sent(table, registry, a, signal, request_id) == Ok::<
                _,
                Seq<char>,
            >(
                SendActionView::Elicit {
                    request_id: request,
                    prompt: if a.elicit_message is Some {
                        a.elicit_message.unwrap()
                    } else {
                        "Enter input for process"@
                    },
                },
            ),
        },
{
}

/// Where nothing is given to be sent, nothing is.
pub proof fn something_must_be_sent(
    table: Seq<(Seq<char>, ProcessView)>,
    registry: RegistryView,
    a: SendArgumentsView,
    signal: Option<Signal>,
    request_id: Option<Seq<char>>,
)
    requires
        a.task_id is Some,
        a.signal is None,
        a.bytes is None,
        a.elicit != Some(true),
        a.input is None,
    ensures
        send_input::sent(table, registry, a, signal, request_id) == Err::<SendActionView, _>(
            "Provide one of: 'input' (text), 'bytes' (raw), 'signal' (e.g. SIGINT), or set 'elicit: true'"@,
        ),
{
}

/// Sending counts as activity of the task, whatever comes of it; only a task
/// that gets its answer changes its state; other tasks stay as they are, and
/// nothing is told.
pub proof fn sending_counts_as_activity(
    registry: RegistryView,
    a: SendArgumentsView,
    action: Result<SendActionView, Seq<char>>,
    now: Moment,
)
    requires
        registry.keys_distinct(),
        a.task_id is Some,
        registry.get(a.task_id.unwrap()) is Some,
    ensures
        ({
            let id = a.task_id.unwrap();
            let next = send_input::after_sending(registry, a, action, now);
            let t = registry.get(id).unwrap();
            let resumed = action matches Ok(SendActionView::Resumed { .. });
            &&& next.outgoing == registry.outgoing
            &&& forall|other: Seq<char>|
                other != id ==> #[trigger] next.get(other) == registry.get(other)
            &&& next.get(id) matches Some(u) && {
                &&& u.last_activity == now
                &&& u.state == (if resumed && t.state == TaskState::InputRequired {
                    TaskState::Working
                } else {
                    t.state
                })
                &&& u.worked_duration == (if t.state == TaskState::Working {
                    t.worked_duration.with(now.since(t.last_activity))
                } else {
                    t.worked_duration
                })
                &&& u == (TaskView {
                    last_activity: u.last_activity,
                    state: u.state,
                    worked_duration: u.worked_duration,
                    ..t
                })
            }
        }),
{
    let id = a.task_id.unwrap();
    let t = registry.get(id).unwrap();
    tasks::replacing_is_local(registry, id, tasks::active(t, now));
    let touched = registry.touched(id, now);
    let t2 = touched.get(id).unwrap();
    tasks::replacing_is_local(
        touched,
        id,
        TaskView { state: TaskState::Working, last_activity: now, ..t2 },
    );
}

/// An answer of the user reaches the process of the task as text does, with its
/// input left open; a user who does not answer, or an answer without text, is
/// refused, and no two of these read the same.
pub proof fn answer_reaches_the_process(
    table: Seq<(Seq<char>, ProcessView)>,
    id: Seq<char>,
    no_enter: bool,
    outcome: ElicitationOutcome,
)
    ensures
        ({
            let r = send_input::answered(table, id, no_enter, send_input::answer(outcome));
            match outcome {
                ElicitationOutcome::Decline => r == Err::<SendActionView, _>(
                    "User declined elicitation request"@,
                ),
                ElicitationOutcome::Cancel => r == Err::<SendActionView, _>(
                    "User cancelled elicitation request"@,
                ),
                ElicitationOutcome::Accept(fields) => {
                    let m = arguments::members(fields);
                    &&& (forall|t: Seq<char>|
                        !#[trigger] has_member(m, "input"@, MemberView::Text(t))) ==> r is Err
                    &&& forall|input: Seq<char>|
                        #[trigger] has_member(m, "input"@, MemberView::Text(input)) ==> (
                        match process::process_of(table, id) {
                            None => r == Err::<SendActionView, _>("Process task '"@ + id + "' not found"@),
                            Some(p) => if p.stdin_open {
                                r matches Ok(SendActionView::Write { steps, reply }) && brings(
                                    steps,
                                    p,
                                    if no_enter {
                                        encode_utf8(input)
                                    } else {
                                        encode_utf8(input) + line_end(p)
                                    },
                                    false,
                                ) && reply
                                    == "Successfully elicited input and sent it to process stdin for task "@
                                    + id
                            } else {
                                r == Err::<SendActionView, _>(
                                    "Process stdin not available (already closed)"@,
                                )
                            },
                        })
                },
            }
        }),
{
    let r = send_input::answered(table, id, no_enter, send_input::answer(outcome));
    if let ElicitationOutcome::Accept(fields) = outcome {
        let m = arguments::members(fields);
        assert forall|input: Seq<char>|
            #[trigger] has_member(m, "input"@, MemberView::Text(input)) implies (
        match process::process_of(table, id) {
            None => r == Err::<SendActionView, _>("Process task '"@ + id + "' not found"@),
            Some(p) => if p.stdin_open {
                r matches Ok(SendActionView::Write { steps, reply }) && brings(
                    steps,
                    p,
                    if no_enter {
                        encode_utf8(input)
                    } else {
                        encode_utf8(input) + line_end(p)
                    },
                    false,
                ) && reply
                    == "Successfully elicited input and sent it to process stdin for task "@ + id
            } else {
                r == Err::<SendActionView, _>("Process stdin not available (already closed)"@)
            },
        }) by {
            if let Some(p) = process::process_of(table, id) {
                bytes_that_arrive(p, encode_utf8(input), no_enter, false);
                steps_write_flush_and_close(p, encode_utf8(input), no_enter, false);
            }
        }
        if forall|t: Seq<char>| !#[trigger] has_member(m, "input"@, MemberView::Text(t)) {
            if let Some(t) = arguments::text_in(m, "input"@) {
                assert(has_member(m, "input"@, MemberView::Text(t)));
            }
        }
    }
}

/// A call of `send_input` is decided by its own arguments, by the processes of
/// the client and by the tasks of the registry, under the request that it came
/// with; without arguments it is refused and nothing happens.
pub proof fn send_call_is_decided_by_its_arguments(
    client: TasksClient,
    registry: TaskRegistry,
    arguments: Option<JsonObject>,
    request_id: Option<Seq<char>>,
    r: Result<(SendArguments, SendAction), String>,
    after: TaskRegistry,
)
    requires
        send_input::send_handled(client, registry, arguments, request_id, r, after),
    ensures
        match arguments {
            None => (r matches Err(e) && e@ == "Missing arguments"@) && after@ == registry@ && after.latest() == registry.latest(),
            Some(object) => {
                let a = SendArgumentsView::of(arguments::members(object));
                let meant = match a.signal {
                    Some(name) => send_input::signal_called(outside::uppercased(name)),
                    None => None,
                };
                let decided = send_input::sent(client.processes@, registry@, a, meant, request_id);
                &&& match r {
                    Ok((read, action)) => read@ == a && decided == Ok::<_, Seq<char>>(action@),
                    Err(e) => decided == Err::<SendActionView, _>(e@),
                }
                &&& registry.shows(after.latest())
                &&& after@ == send_input::after_sending(registry@, a, decided, after.latest())
            },
        },
{
}

} // verus!
