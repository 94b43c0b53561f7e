//! Sending input to tasks: text, bytes, signals and what a user is asked for.
use crate::arguments;
use crate::arguments::{JsonObject, MemberView};
use crate::output::{ReadWait, ReadWaitView};
use crate::outside;
use crate::process;
use crate::process::{ProcessView, WriteStep, WriteStepView};
use crate::task_client::TasksClient;
use crate::tasks::{RegistryView, TaskRegistry, TaskState};
use crate::text;
use crate::time::Moment;
use vstd::prelude::*;
use vstd::string::*;
use vstd::utf8::*;

verus! {

// ── Arguments ─────────────────────────────────────────────────────────

/// The arguments of `send_input`, as far as they are of the right type.
#[derive(Debug)]
pub struct SendArguments {
    pub task_id: Option<String>,
    pub input: Option<String>,
    /// Raw bytes, as far as they are whole numbers.
    pub bytes: Option<Vec<Option<u64>>>,
    pub signal: Option<String>,
    pub no_enter: Option<bool>,
    pub close_stdin: Option<bool>,
    pub elicit: Option<bool>,
    pub elicit_message: Option<String>,
    /// What to wait for in the output once the input was sent.
    pub wait_for: Option<String>,
}

#[verifier::ext_equal]
pub struct SendArgumentsView {
    pub task_id: Option<Seq<char>>,
    pub input: Option<Seq<char>>,
    pub bytes: Option<Seq<Option<u64>>>,
    pub signal: Option<Seq<char>>,
    pub no_enter: Option<bool>,
    pub close_stdin: Option<bool>,
    pub elicit: Option<bool>,
    pub elicit_message: Option<Seq<char>>,
    pub wait_for: Option<Seq<char>>,
}

impl View for SendArguments {
    type V = SendArgumentsView;

    open spec fn view(&self) -> SendArgumentsView {
        SendArgumentsView {
            task_id: text::opt_text(self.task_id),
            input: text::opt_text(self.input),
            bytes: match self.bytes {
                Some(items) => Some(items@),
                None => None,
            },
            signal: text::opt_text(self.signal),
            no_enter: self.no_enter,
            close_stdin: self.close_stdin,
            elicit: self.elicit,
            elicit_message: text::opt_text(self.elicit_message),
            wait_for: text::opt_text(self.wait_for),
        }
    }
}

impl SendArgumentsView {
    /// What the members of an object say.
    pub open spec fn of(object: Map<Seq<char>, MemberView>) -> SendArgumentsView {
        SendArgumentsView {
            task_id: arguments::text_in(object, "task_id"@),
            input: arguments::text_in(object, "input"@),
            bytes: arguments::items_in(object, "bytes"@),
            signal: arguments::text_in(object, "signal"@),
            no_enter: arguments::flag_in(object, "no_enter"@),
            close_stdin: arguments::flag_in(object, "close_stdin"@),
            elicit: arguments::flag_in(object, "elicit"@),
            elicit_message: arguments::text_in(object, "elicit_message"@),
            wait_for: arguments::text_in(object, "wait_for"@),
        }
    }
}

impl SendArguments {
    pub fn read(object: &JsonObject) -> (r: SendArguments)
        ensures
            r@ == SendArgumentsView::of(arguments::members(*object)),
    {
        SendArguments {
            task_id: arguments::get_text(object, "task_id"),
            input: arguments::get_text(object, "input"),
            bytes: arguments::get_items(object, "bytes"),
            signal: arguments::get_text(object, "signal"),
            no_enter: arguments::get_flag(object, "no_enter"),
            close_stdin: arguments::get_flag(object, "close_stdin"),
            elicit: arguments::get_flag(object, "elicit"),
            elicit_message: arguments::get_text(object, "elicit_message"),
            wait_for: arguments::get_text(object, "wait_for"),
        }
    }
}

// ── Signals ───────────────────────────────────────────────────────────

/// A signal that can be sent.
#[derive(Debug, Clone, Copy, PartialEq, Eq, Structural)]
pub enum Signal {
    Int,
    Term,
    Kill,
    Stop,
    Cont,
    Hup,
    Quit,
}

/// The signal with a name in capitals.
pub open spec fn signal_called(name: Seq<char>) -> Option<Signal> {
    if name == "SIGINT"@ {
        Some(Signal::Int)
    } else if name == "SIGTERM"@ {
        Some(Signal::Term)
    } else if name == "SIGKILL"@ {
        Some(Signal::Kill)
    } else if name == "SIGSTOP"@ {
        Some(Signal::Stop)
    } else if name == "SIGCONT"@ {
        Some(Signal::Cont)
    } else if name == "SIGHUP"@ {
        Some(Signal::Hup)
    } else if name == "SIGQUIT"@ {
        Some(Signal::Quit)
    } else {
        None
    }
}

/// The signal with a name in capitals.
pub fn signal_named(name: &str) -> (r: Option<Signal>)
    ensures
        r == signal_called(name@),
{
    if text::same_text(name, "SIGINT") {
        Some(Signal::Int)
    } else if text::same_text(name, "SIGTERM") {
        Some(Signal::Term)
    } else if text::same_text(name, "SIGKILL") {
        Some(Signal::Kill)
    } else if text::same_text(name, "SIGSTOP") {
        Some(Signal::Stop)
    } else if text::same_text(name, "SIGCONT") {
        Some(Signal::Cont)
    } else if text::same_text(name, "SIGHUP") {
        Some(Signal::Hup)
    } else if text::same_text(name, "SIGQUIT") {
        Some(Signal::Quit)
    } else {
        None
    }
}

/// The signal with a name, written in any case.
pub fn parse_signal(name: &str) -> (r: Option<Signal>)
    ensures
        r == signal_called(outside::uppercased(name@)),
        outside::is_ascii_text(name@) ==> r == signal_called(
            name@.map_values(|c: char| outside::ascii_upper(c)),
        ),
{
    let upper = outside::to_upper(name);
    signal_named(upper.as_str())
}

// ── Actions ───────────────────────────────────────────────────────────

/// What a call of `send_input` comes to.
#[derive(Debug)]
pub enum SendAction {
    /// This signal is to be sent to this process.
    Signal { signal: Signal, pid: i32, reply: String },
    /// These steps are to be taken.
    Write { steps: Vec<WriteStep>, reply: String },
    /// The user is to be asked.
    Elicit { request_id: String, prompt: String },
    /// The task waited for input and goes on.
    Resumed { reply: String },
}

#[verifier::ext_equal]
pub enum SendActionView {
    Signal { signal: Signal, pid: i32, reply: Seq<char> },
    Write { steps: Seq<WriteStepView>, reply: Seq<char> },
    Elicit { request_id: Seq<char>, prompt: Seq<char> },
    Resumed { reply: Seq<char> },
}

impl View for SendAction {
    type V = SendActionView;

    open spec fn view(&self) -> SendActionView {
        match *self {
            SendAction::Signal { signal, pid, reply } => SendActionView::Signal {
                signal,
                pid,
                reply: reply@,
            },
            SendAction::Write { steps, reply } => SendActionView::Write {
                steps: process::step_views(steps@),
                reply: reply@,
            },
            SendAction::Elicit { request_id, prompt } => SendActionView::Elicit {
                request_id: request_id@,
                prompt: prompt@,
            },
            SendAction::Resumed { reply } => SendActionView::Resumed { reply: reply@ },
        }
    }
}

/// An action or a complaint, as texts.
pub open spec fn action_outcome(r: Result<SendAction, String>) -> Result<
    SendActionView,
    Seq<char>,
> {
    match r {
        Ok(action) => Ok(action@),
        Err(e) => Err(e@),
    }
}

/// What a user answered.
#[derive(Debug)]
pub enum ElicitationOutcome {
    /// The answers, by field.
    Accept(JsonObject),
    Decline,
    Cancel,
}

// ── Model ─────────────────────────────────────────────────────────────

/// The flag is set.
pub open spec fn wanted(flag: Option<bool>) -> bool {
    flag == Some(true)
}

/// The complaint that a task has no process.
pub open spec fn no_process(id: Seq<char>) -> Seq<char> {
    "Process task '"@ + id + "' not found"@
}

/// Writing to the process of a task.
pub open spec fn writing(
    table: Seq<(Seq<char>, ProcessView)>,
    id: Seq<char>,
    input: Seq<u8>,
    no_enter: bool,
    close_stdin: bool,
    reply: Seq<char>,
) -> Result<SendActionView, Seq<char>> {
    match process::process_of(table, id) {
        None => Err(no_process(id)),
        Some(p) => if p.stdin_open {
            Ok(
                SendActionView::Write {
                    steps: process::write_steps(p, input, no_enter, close_stdin),
                    reply,
                },
            )
        } else {
            Err("Process stdin not available (already closed)"@)
        },
    }
}

/// The whole numbers among the items, each as its lowest byte.
pub open spec fn raw_bytes(items: Seq<Option<u64>>) -> Seq<u8>
    decreases items.len(),
{
    if items.len() == 0 {
        Seq::empty()
    } else {
        let front = raw_bytes(items.drop_last());
        match items.last() {
            Some(n) => front.push((n % 256) as u8),
            None => front,
        }
    }
}

/// Sending bytes to a task.
pub open spec fn bytes_sent(
    table: Seq<(Seq<char>, ProcessView)>,
    id: Seq<char>,
    items: Seq<Option<u64>>,
) -> Result<SendActionView, Seq<char>> {
    let raw = raw_bytes(items);
    writing(
        table,
        id,
        raw,
        true,
        false,
        "Sent "@ + text::decimal_text(raw.len()) + " bytes to "@ + id,
    )
}

/// Sending a signal to a task. `signal` is the one that `name` stands for.
pub open spec fn signalled(
    table: Seq<(Seq<char>, ProcessView)>,
    id: Seq<char>,
    name: Seq<char>,
    signal: Option<Signal>,
) -> Result<SendActionView, Seq<char>> {
    match signal {
        None => Err(
            "Unsupported signal: "@ + name
                + ". Use SIGINT, SIGTERM, SIGKILL, SIGSTOP, SIGCONT, SIGHUP, or SIGQUIT."@,
        ),
        Some(signal) => match process::process_of(table, id) {
            None => Err(no_process(id)),
            Some(p) => match p.child_id {
                None => Err("Process already exited"@),
                Some(running) => Ok(
                    SendActionView::Signal {
                        signal,
                        pid: running as i32,
                        reply: "Signal "@ + name + " sent to "@ + id,
                    },
                ),
            },
        },
    }
}

/// Asking the user for input.
pub open spec fn eliciting(
    request_id: Option<Seq<char>>,
    message: Option<Seq<char>>,
) -> Result<SendActionView, Seq<char>> {
    match request_id {
        None => Err("Elicitation requires an active tool call context with a request ID"@),
        Some(request_id) => Ok(
            SendActionView::Elicit {
                request_id,
                prompt: match message {
                    Some(m) => m,
                    None => "Enter input for process"@,
                },
            },
        ),
    }
}

/// The signal that the name given stands for.
pub open spec fn signal_given(a: SendArgumentsView) -> Option<Signal> {
    match a.signal {
        Some(name) => signal_called(outside::uppercased(name)),
        None => None,
    }
}

/// The task waits for input.
pub open spec fn awaits_input(registry: RegistryView, id: Seq<char>) -> bool {
    match registry.get(id) {
        Some(t) => t.state == TaskState::InputRequired,
        None => false,
    }
}

/// What a call of `send_input` comes to: a signal goes before bytes, bytes
/// before asking the user, and that before text. `signal` is the one that the
/// name given stands for.
pub open spec fn sent(
    table: Seq<(Seq<char>, ProcessView)>,
    registry: RegistryView,
    a: SendArgumentsView,
    signal: Option<Signal>,
    request_id: Option<Seq<char>>,
) -> Result<SendActionView, Seq<char>> {
    match a.task_id {
        None => Err("Missing 'task_id' argument"@),
        Some(id) => match (a.signal, a.bytes) {
            (Some(name), _) => signalled(table, id, name, signal),
            (None, Some(items)) => bytes_sent(table, id, items),
            (None, None) => if wanted(a.elicit) {
                eliciting(request_id, a.elicit_message)
            } else {
                match a.input {
                    Some(input) => if awaits_input(registry, id) {
                        Ok(
                            SendActionView::Resumed {
                                reply: "Input sent to task "@ + id
                                    + " (resumed from InputRequired state)."@,
                            },
                        )
                    } else {
                        writing(
                            table,
                            id,
                            encode_utf8(input),
                            wanted(a.no_enter),
                            wanted(a.close_stdin),
                            "Sent to "@ + id + ": "@ + input,
                        )
                    },
                    None => Err(
                        "Provide one of: 'input' (text), 'bytes' (raw), 'signal' (e.g. SIGINT), or set 'elicit: true'"@,
                    ),
                }
            },
        },
    }
}

/// The registry once input was sent at `now`: the task was active, and goes
/// on if it waited.
pub open spec fn after_sending(
    registry: RegistryView,
    a: SendArgumentsView,
    action: Result<SendActionView, Seq<char>>,
    now: Moment,
) -> RegistryView {
    match a.task_id {
        None => registry,
        Some(id) => match action {
            Ok(SendActionView::Resumed { .. }) => registry.touched(id, now).resumed(id, now),
            _ => registry.touched(id, now),
        },
    }
}

/// What a user answered: a text, or why there is none.
pub open spec fn answer(outcome: ElicitationOutcome) -> Result<Seq<char>, Seq<char>> {
    match outcome {
        ElicitationOutcome::Accept(fields) => match arguments::text_in(
            arguments::members(fields),
            "input"@,
        ) {
            Some(input) => Ok(input),
            None => Err("Missing 'input' field in elicitation response"@),
        },
        ElicitationOutcome::Decline => Err("User declined elicitation request"@),
        ElicitationOutcome::Cancel => Err("User cancelled elicitation request"@),
    }
}

/// What an answer of the user comes to.
pub open spec fn answered(
    table: Seq<(Seq<char>, ProcessView)>,
    id: Seq<char>,
    no_enter: bool,
    answer: Result<Seq<char>, Seq<char>>,
) -> Result<SendActionView, Seq<char>> {
    match answer {
        Err(e) => Err(e),
        Ok(input) => writing(
            table,
            id,
            encode_utf8(input),
            no_enter,
            false,
            "Successfully elicited input and sent it to process stdin for task "@ + id,
        ),
    }
}

/// A call of `send_input` was decided on: this is what came of it, and this
/// what became of the registry.
pub open spec fn send_handled(
    client: TasksClient,
    registry: TaskRegistry,
    arguments: Option<JsonObject>,
    request_id: Option<Seq<char>>,
    r: Result<(SendArguments, SendAction), String>,
    registry_after: TaskRegistry,
) -> bool {
    match arguments {
        None => {
            &&& r matches Err(e) && e@ == "Missing arguments"@
            &&& registry_after@ == registry@
            &&& registry_after.latest() == registry.latest()
        },
        Some(object) => {
            let a = SendArgumentsView::of(arguments::members(object));
            let action = sent(client.processes@, registry@, a, signal_given(a), request_id);
            &&& match r {
                Ok((read, done)) => read@ == a && action == Ok::<_, Seq<char>>(done@),
                Err(e) => action == Err::<SendActionView, _>(e@),
            }
            &&& registry.shows(registry_after.latest())
            &&& registry_after@ == after_sending(registry@, a, action, registry_after.latest())
        },
    }
}

// ── Execution ─────────────────────────────────────────────────────────

fn low_byte(n: u64) -> (r: u8)
    ensures
        r == n % 256,
{
    assert(n as u8 == n % 256) by (bit_vector);
    #[verifier::truncate]
    let r: u8 = n as u8;
    r
}

fn collect_bytes(items: &Vec<Option<u64>>) -> (r: Vec<u8>)
    ensures
        r@ == raw_bytes(items@),
{
    let mut r: Vec<u8> = Vec::new();
    let mut i: usize = 0;
    assert(r@ =~= raw_bytes(items@.take(0)));
    while i < items.len()
        invariant
            i <= items@.len(),
            r@ == raw_bytes(items@.take(i as int)),
        decreases items.len() - i,
    {
        proof {
            assert(items@.take(i + 1).drop_last() =~= items@.take(i as int));
            assert(items@.take(i + 1).last() == items@[i as int]);
        }
        if let Some(n) = items[i] {
            r.push(low_byte(n));
        }
        i += 1;
    }
    assert(items@.take(items@.len() as int) =~= items@);
    r
}

fn is_set(flag: Option<bool>) -> (r: bool)
    ensures
        r == wanted(flag),
{
    match flag {
        Some(b) => b,
        None => false,
    }
}

fn no_process_text(id: &str) -> (r: String)
    ensures
        r@ == no_process(id@),
{
    "Process task '".to_owned().concat(id).concat("' not found")
}

impl TasksClient {
    fn write_to(
        &self,
        id: &str,
        input: &[u8],
        no_enter: bool,
        close_stdin: bool,
        reply: String,
    ) -> (r: Result<SendAction, String>)
        requires
            self.wf(),
        ensures
            action_outcome(r) == writing(
                self.processes@,
                id@,
                input@,
                no_enter,
                close_stdin,
                reply@,
            ),
    {
        match self.processes.get(id) {
            None => Err(no_process_text(id)),
            Some(p) => match process::write_input_to_process(p, input, no_enter, close_stdin) {
                Ok(steps) => Ok(SendAction::Write { steps, reply }),
                Err(e) => Err(e),
            },
        }
    }

    fn send_bytes_to_task(&self, id: &str, items: &Vec<Option<u64>>) -> (r: Result<
        SendAction,
        String,
    >)
        requires
            self.wf(),
        ensures
            action_outcome(r) == bytes_sent(self.processes@, id@, items@),
    {
        let raw = collect_bytes(items);
        let mut reply = "Sent ".to_owned();
        reply.append(text::decimal(raw.len() as u64).as_str());
        reply.append(" bytes to ");
        reply.append(id);
        self.write_to(id, raw.as_slice(), true, false, reply)
    }

    /// Decides on a signal for a task. `signal` is the one that `name` stands
    /// for.
    pub fn send_signal_to_task(&self, id: &str, name: &str, signal: Option<Signal>) -> (r: Result<
        SendAction,
        String,
    >)
        requires
            self.wf(),
        ensures
            action_outcome(r) == signalled(self.processes@, id@, name@, signal),
    {
        let signal = match signal {
            Some(signal) => signal,
            None => {
                let mut e = "Unsupported signal: ".to_owned();
                e.append(name);
                e.append(". Use SIGINT, SIGTERM, SIGKILL, SIGSTOP, SIGCONT, SIGHUP, or SIGQUIT.");
                return Err(e);
            },
        };
        match self.processes.get(id) {
            None => Err(no_process_text(id)),
            Some(p) => match p.child_id() {
                None => Err("Process already exited".to_owned()),
                Some(running) => {
                    let mut reply = "Signal ".to_owned();
                    reply.append(name);
                    reply.append(" sent to ");
                    reply.append(id);
                    #[verifier::truncate]
                    let pid: i32 = running as i32;
                    Ok(SendAction::Signal { signal, pid, reply })
                },
            },
        }
    }

    fn ask_user(request_id: &Option<String>, message: &Option<String>) -> (r: Result<
        SendAction,
        String,
    >)
        ensures
            action_outcome(r) == eliciting(
                text::opt_text(*request_id),
                text::opt_text(*message),
            ),
    {
        match request_id {
            None => Err(
                "Elicitation requires an active tool call context with a request ID".to_owned(),
            ),
            Some(request_id) => {
                let prompt = match message {
                    Some(m) => m.clone(),
                    None => "Enter input for process".to_owned(),
                };
                Ok(SendAction::Elicit { request_id: request_id.clone(), prompt })
            },
        }
    }

    fn send_text(&self, registry: &mut TaskRegistry, id: &str, input: &str, a: &SendArguments, now:
        Moment) -> (r: Result<SendAction, String>)
        requires
            self.wf(),
            old(registry).wf(),
        ensures
            final(registry).wf(),
            final(registry).latest() == old(registry).latest(),
            awaits_input(old(registry)@, id@) ==> action_outcome(r) == Ok::<_, Seq<char>>(
                SendActionView::Resumed {
                    reply: "Input sent to task "@ + id@ + " (resumed from InputRequired state)."@,
                },
            ) && final(registry)@ == old(registry)@.resumed(id@, now),
            !awaits_input(old(registry)@, id@) ==> action_outcome(r) == writing(
                self.processes@,
                id@,
                encode_utf8(input@),
                wanted(a@.no_enter),
                wanted(a@.close_stdin),
                "Sent to "@ + id@ + ": "@ + input@,
            ) && final(registry)@ == old(registry)@,
    {
        let waits = match registry.get(id) {
            Some(task) => task.state == TaskState::InputRequired,
            None => false,
        };
        if waits {
            registry.resume_at(id, now);
            let mut reply = "Input sent to task ".to_owned();
            reply.append(id);
            reply.append(" (resumed from InputRequired state).");
            Ok(SendAction::Resumed { reply })
        } else {
            let mut reply = "Sent to ".to_owned();
            reply.append(id);
            reply.append(": ");
            reply.append(input);
            self.write_to(id, input.as_bytes(), is_set(a.no_enter), is_set(a.close_stdin), reply)
        }
    }

    /// Decides at `now` on a call of `send_input`. `signal` is the one that
    /// the name given stands for.
    pub fn plan_send_at(
        &self,
        registry: &mut TaskRegistry,
        a: &SendArguments,
        signal: Option<Signal>,
        request_id: &Option<String>,
        now: Moment,
    ) -> (r: Result<SendAction, String>)
        requires
            self.wf(),
            old(registry).wf(),
        ensures
            final(registry).wf(),
            final(registry).latest() == old(registry).latest(),
            action_outcome(r) == sent(
                self.processes@,
                old(registry)@,
                a@,
                signal,
                text::opt_text(*request_id),
            ),
            final(registry)@ == after_sending(old(registry)@, a@, action_outcome(r), now),
    {
        let id = match &a.task_id {
            Some(id) => id.as_str(),
            None => {
                return Err("Missing 'task_id' argument".to_owned());
            },
        };
        proof {
            touching_keeps_the_state(registry@, id@, now);
        }
        registry.touch_at(id, now);
        if let Some(name) = &a.signal {
            return self.send_signal_to_task(id, name.as_str(), signal);
        }
        if let Some(items) = &a.bytes {
            return self.send_bytes_to_task(id, items);
        }
        if is_set(a.elicit) {
            return TasksClient::ask_user(request_id, &a.elicit_message);
        }
        match &a.input {
            Some(input) => self.send_text(registry, id, input.as_str(), a, now),
            None => Err(
                "Provide one of: 'input' (text), 'bytes' (raw), 'signal' (e.g. SIGINT), or set 'elicit: true'".to_owned(),
            ),
        }
    }

    /// Decides on a call of `send_input`, and gives its arguments too.
    pub fn handle_send_input(
        &self,
        registry: &mut TaskRegistry,
        arguments: &Option<JsonObject>,
        request_id: &Option<String>,
    ) -> (r: Result<(SendArguments, SendAction), String>)
        requires
            self.wf(),
            old(registry).wf(),
        ensures
            final(registry).wf(),
            send_handled(
                *self,
                *old(registry),
                *arguments,
                text::opt_text(*request_id),
                r,
                *final(registry),
            ),
    {
        match arguments {
            None => Err("Missing arguments".to_owned()),
            Some(object) => {
                let a = SendArguments::read(object);
                let signal = match &a.signal {
                    Some(name) => parse_signal(name.as_str()),
                    None => None,
                };
                let now = registry.tick();
                assert(signal == signal_given(a@));
                let planned = self.plan_send_at(registry, &a, signal, request_id, now);
                assert(registry@ == after_sending(
                    old(registry)@,
                    SendArgumentsView::of(arguments::members(*object)),
                    action_outcome(planned),
                    now,
                ));
                match planned {
                    Ok(action) => Ok((a, action)),
                    Err(e) => Err(e),
                }
            },
        }
    }

    /// Decides on the answer of a user, which is a text or a complaint.
    pub fn send_answer(&self, id: &str, no_enter: bool, answer: Result<String, String>) -> (r:
        Result<SendAction, String>)
        requires
            self.wf(),
        ensures
            action_outcome(r) == answered(self.processes@, id@, no_enter, text::outcome(answer)),
    {
        match answer {
            Err(e) => Err(e),
            Ok(input) => {
                let reply =
                    "Successfully elicited input and sent it to process stdin for task ".to_owned().concat(
                id);
                self.write_to(id, input.as_str().as_bytes(), no_enter, false, reply)
            },
        }
    }

    /// Decides on the outcome of asking the user.
    pub fn handle_elicitation(&self, id: &str, no_enter: bool, outcome: &ElicitationOutcome) -> (r:
        Result<SendAction, String>)
        requires
            self.wf(),
        ensures
            action_outcome(r) == answered(self.processes@, id@, no_enter, answer(*outcome)),
    {
        let answer = match outcome {
            ElicitationOutcome::Accept(fields) => match arguments::get_text(fields, "input") {
                Some(input) => Ok(input),
                None => Err("Missing 'input' field in elicitation response".to_owned()),
            },
            ElicitationOutcome::Decline => Err("User declined elicitation request".to_owned()),
            ElicitationOutcome::Cancel => Err("User cancelled elicitation request".to_owned()),
        };
        self.send_answer(id, no_enter, answer)
    }

    /// A reader that waits from `now` on, with the usual patience, for a
    /// pattern in what the process of a task puts out behind these positions.
    /// They are the ends of its logs before the input was sent, so that an
    /// older prompt does not end the wait.
    pub fn wait_after_sending(
        &self,
        id: &str,
        pattern: &str,
        stdout_end: u64,
        stderr_end: Option<u64>,
        now: Moment,
    ) -> (r: Option<ReadWait>)
        requires
            self.wf(),
        ensures
            match process::process_of(self.processes@, id@) {
                Some(p) => r matches Some(w) && w@ == ReadWaitView::begun(
                    Some(pattern@),
                    None,
                    p.child_id is Some,
                    stdout_end,
                    stderr_end,
                    now,
                ),
                None => r is None,
            },
    {
        match self.processes.get(id) {
            Some(p) => Some(
                ReadWait::begin(
                    Some(pattern.to_owned()),
                    None,
                    p.child_id().is_some(),
                    stdout_end,
                    stderr_end,
                    now,
                ),
            ),
            None => None,
        }
    }
}

// ── Laws ──────────────────────────────────────────────────────────────

/// Activity changes neither the state of a task nor which tasks there are.
pub proof fn touching_keeps_the_state(registry: RegistryView, id: Seq<char>, now: Moment)
    requires
        registry.keys_distinct(),
    ensures
        registry.touched(id, now).keys_distinct(),
        awaits_input(registry.touched(id, now), id) == awaits_input(registry, id),
        registry.touched(id, now).outgoing == registry.outgoing,
{
    if let Some(t) = registry.get(id) {
        crate::tasks::replacing_is_local(
            registry,
            id,
            crate::tasks::active(t, now),
        );
    }
}

/// Input for a task that waits for it lets the task go on, and never reaches
/// a process.
pub proof fn waiting_task_goes_on(
    table: Seq<(Seq<char>, ProcessView)>,
    registry: RegistryView,
    a: SendArgumentsView,
    request_id: Option<Seq<char>>,
    now: Moment,
)
    requires
        registry.keys_distinct(),
        a.task_id is Some,
        a.input is Some,
        a.signal is None,
        a.bytes is None,
        !wanted(a.elicit),
        awaits_input(registry, a.task_id.unwrap()),
    ensures
        sent(table, registry, a, None, request_id) matches Ok(SendActionView::Resumed { .. }),
        after_sending(registry, a, sent(table, registry, a, None, request_id), now).get(
            a.task_id.unwrap(),
        ) matches Some(t) && t.state == TaskState::Working,
{
    let id = a.task_id.unwrap();
    let t = registry.get(id).unwrap();
    touching_keeps_the_state(registry, id, now);
    let touched = registry.touched(id, now);
    crate::tasks::replacing_is_local(
        registry,
        id,
        crate::tasks::active(t, now),
    );
    let t2 = touched.get(id).unwrap();
    crate::tasks::replacing_is_local(
        touched,
        id,
        crate::tasks::TaskView { state: TaskState::Working, last_activity: now, ..t2 },
    );
}

/// Bytes are sent as they are, with nothing after them.
pub proof fn bytes_arrive_bare(
    table: Seq<(Seq<char>, ProcessView)>,
    id: Seq<char>,
    items: Seq<Option<u64>>,
)
    ensures
        bytes_sent(table, id, items) matches Ok(SendActionView::Write { steps, .. })
            ==> process::written(steps) == raw_bytes(items),
{
    if let Some(p) = process::process_of(table, id) {
        process::input_arrives_whole(p, raw_bytes(items), true, false);
        assert(raw_bytes(items) + Seq::<u8>::empty() =~= raw_bytes(items));
    }
}

} // verus!
