//! What the operations behind the task tools promise.
use crate::arguments::JsonObject;
use crate::lines;
use crate::manage_tasks;
use crate::output;
use crate::output::{PatternWatch, ReadWait};
use crate::output_laws;
use crate::outside;
use crate::process;
use crate::process::{ChildState, ManagedProcess, WriteAction, WriteStep};
use crate::read_output;
use crate::read_output::{ReadArguments, ReadPlan, WaitVerdict};
use crate::registry_laws;
use crate::send_input;
use crate::send_input::{ElicitationOutcome, SendAction, SendArguments, Signal};
use crate::send_laws;
use crate::showing;
use crate::start_laws;
use crate::start_task;
use crate::start_task::{ProcessPlan, StartArguments, StartPlan};
use crate::task_client;
use crate::task_client::TasksClient;
use crate::tasks;
use crate::tasks::{TaskRegistry, TaskSource, TaskState};
use crate::text;
use crate::time::Moment;
use crate::tools;
use crate::tools::ToolReply;
use vstd::prelude::*;
use vstd::string::*;
use vstd::utf8::*;

verus! {

// ── Input ─────────────────────────────────────────────────────────────

/// Input is brought to a process exactly if its standard input is open. It is
/// written and flushed; then, unless the end of a line is not wanted, after a
/// pause the end of a line is. The last step closes the standard input exactly
/// if that is wanted and there are pipes, with or without the end of a line; no
/// other step does.
pub proof fn writing_writes_and_closes(
    proc: &ManagedProcess,
    input: &[u8],
    no_enter: bool,
    close_stdin: bool,
    r: Result<Vec<WriteStep>, String>,
)
    requires
        call_ensures(
            process::write_input_to_process,
            (proc, input, no_enter, close_stdin),
            r,
        ),
    ensures
        r is Ok <==> proc@.stdin_open,
        r matches Ok(steps) ==> {
            &&& steps@.len() == 2 + (if no_enter {
                0int
            } else {
                3
            }) + (if close_stdin && !(proc is Pty) {
                1int
            } else {
                0
            })
            &&& steps@[0].action matches WriteAction::Write(bytes) && bytes@ == input@
            &&& steps@[1].action is Flush
            &&& !no_enter ==> {
                &&& steps@[2].action == WriteAction::Pause(50)
                &&& steps@[3].action matches WriteAction::Write(bytes) && bytes@ == (if proc is Pty {
                    seq![13u8, 10u8]
                } else {
                    seq![10u8]
                })
                &&& steps@[4].action is Flush
            }
            &&& steps@.last().action is CloseStdin <==> close_stdin && !(proc is Pty)
            &&& forall|i: int|
                0 <= i < steps@.len() - 1 ==> !((#[trigger] steps@[i]).action is CloseStdin)
        },
{
    if let Ok(steps) = r {
        let seen = process::step_views(steps@);
        send_laws::steps_write_flush_and_close(proc@, input@, no_enter, close_stdin);
        assert(seen.len() == steps@.len());
        assert forall|i: int| 0 <= i < steps@.len() implies seen[i] == (#[trigger] steps@[i])@ by {}
        assert(seen[0] == steps@[0]@);
        assert(seen[1] == steps@[1]@);
        if !no_enter {
            assert(seen[2] == steps@[2]@);
            assert(seen[3] == steps@[3]@);
            assert(seen[4] == steps@[4]@);
        }
        assert(seen.last() == steps@.last()@);
        assert forall|i: int| 0 <= i < steps@.len() - 1 implies !((
        #[trigger] steps@[i]).action is CloseStdin) by {
            assert(seen[i] == steps@[i]@);
        }
    }
}

/// Text that is sent to a process reaches it with the end of a line unless that
/// is not wanted, and its input is closed if that is wanted.
pub proof fn sending_text_reaches_the_process(
    client: &TasksClient,
    registry: &mut TaskRegistry,
    a: &SendArguments,
    signal: Option<Signal>,
    request_id: &Option<String>,
    now: Moment,
    r: Result<SendAction, String>,
)
    requires
        old(registry).wf(),
        call_ensures(
            TasksClient::plan_send_at,
            (client, registry, a, signal, request_id, now),
            r,
        ),
        a.task_id is Some,
        a.signal is None,
        a.bytes is None,
        a.elicit != Some(true),
        a.input is Some,
        !(old(registry)@.get(a.task_id.unwrap()@) matches Some(t) && t.state
            == TaskState::InputRequired),
    ensures
        match process::process_of(client.processes@, a.task_id.unwrap()@) {
            Some(p) if p.stdin_open => r matches Ok(SendAction::Write { steps, reply })
                && send_laws::brings(
                process::step_views(steps@),
                p,
                if a.no_enter == Some(true) {
                    encode_utf8(a.input.unwrap()@)
                } else {
                    encode_utf8(a.input.unwrap()@) + send_laws::line_end(p)
                },
                a.close_stdin == Some(true),
            ),
            _ => r is Err,
        },
{
    send_laws::text_reaches_the_process(
        client.processes@,
        old(registry)@,
        a@,
        signal,
        text::opt_text(*request_id),
    );
}

/// What is sent is decided as the arguments say, and sending counts as activity.
pub proof fn sending_is_decided(
    client: &TasksClient,
    registry: &mut TaskRegistry,
    a: &SendArguments,
    signal: Option<Signal>,
    request_id: &Option<String>,
    now: Moment,
    r: Result<SendAction, String>,
)
    requires
        call_ensures(
            TasksClient::plan_send_at,
            (client, registry, a, signal, request_id, now),
            r,
        ),
    ensures
        ({
            let decided = send_input::sent(
                client.processes@,
                old(registry)@,
                a@,
                signal,
                text::opt_text(*request_id),
            );
            &&& send_input::action_outcome(r) == decided
            &&& final(registry)@ == send_input::after_sending(old(registry)@, a@, decided, now)
        }),
{
}

/// A call of `send_input` is decided as its arguments say.
pub proof fn send_calls_are_decided(
    client: &TasksClient,
    registry: &mut TaskRegistry,
    arguments: &Option<JsonObject>,
    request_id: &Option<String>,
    r: Result<(SendArguments, SendAction), String>,
)
    requires
        call_ensures(
            TasksClient::handle_send_input,
            (client, registry, arguments, request_id),
            r,
        ),
    ensures
        send_input::send_handled(
            *client,
            *old(registry),
            *arguments,
            text::opt_text(*request_id),
            r,
            *final(registry),
        ),
{
}

/// An answer of the user is brought to the process of the task.
pub proof fn answers_are_sent(
    client: &TasksClient,
    id: &str,
    no_enter: bool,
    outcome: &ElicitationOutcome,
    r: Result<SendAction, String>,
)
    requires
        call_ensures(TasksClient::handle_elicitation, (client, id, no_enter, outcome), r),
    ensures
        send_input::action_outcome(r) == send_input::answered(
            client.processes@,
            id@,
            no_enter,
            send_input::answer(*outcome),
        ),
{
}

/// A wait after sending is for the pattern in what comes behind the positions,
/// for thirty seconds, as long as there is a process.
pub proof fn waiting_after_sending_looks_ahead(
    client: &TasksClient,
    id: &str,
    pattern: &str,
    stdout_end: u64,
    stderr_end: Option<u64>,
    now: Moment,
    r: Option<ReadWait>,
)
    requires
        call_ensures(
            TasksClient::wait_after_sending,
            (client, id, pattern, stdout_end, stderr_end, now),
            r,
        ),
    ensures
        match process::process_of(client.processes@, id@) {
            None => r is None,
            Some(p) => r matches Some(w) && {
                &&& w.pattern matches Some(waited) && waited@ == pattern@
                &&& w.running <==> p.child_id is Some
                &&& w.deadline == now.after(crate::time::Span { nanos: 30_000_000_000 })
                &&& w.idle_since == now
                &&& w.stdout@.len() == 0
                &&& w.stderr@.len() == 0
                &&& w.stdout_pos == stdout_end
                &&& w.stderr_pos == stderr_end
            },
        },
{
}

// ── Starting ──────────────────────────────────────────────────────────

/// Starting a process plans what is asked for: the command, with every variable
/// whose value is a text and no other, under the next identifier.
pub proof fn starting_plans_the_process(
    client: &mut TasksClient,
    a: StartArguments,
    r: Result<StartPlan, String>,
)
    requires
        call_ensures(TasksClient::start_process, (client, a), r),
    ensures
        r is Ok <==> a.command is Some,
        r matches Ok(plan) ==> (plan matches StartPlan::Process(p) && {
            &&& p.id@ == task_client::task_id(old(client).next_id)
            &&& p.command@ == a.command.unwrap()@
            &&& text::opt_text(p.wait_for) == text::opt_text(a.wait_for)
            &&& p.timeout_seconds == a.timeout_seconds
            &&& text::opt_text(p.working_dir) == text::opt_text(a.working_dir)
            &&& forall|name: Seq<char>, value: Seq<char>| #[trigger]
                p@.env.contains((name, value)) <==> a@.env.contains((name, Some(value)))
            &&& p@.env.len() == a@.env.filter(
                |row: (Seq<char>, Option<Seq<char>>)| row.1 is Some,
            ).len()
            &&& p.stderr_path is None <==> a.use_pty == Some(true)
            &&& final(client).next_id != old(client).next_id
        }),
        r is Err ==> final(client).next_id == old(client).next_id,
        final(client).processes == old(client).processes,
{
    if let Ok(StartPlan::Process(p)) = r {
        assert forall|name: Seq<char>, value: Seq<char>| #[trigger]
            p@.env.contains((name, value)) <==> a@.env.contains((name, Some(value))) by {
            start_laws::variables_are_all_set(a@.env, a@.env, name, value);
        }
        start_laws::variables_are_all_set(a@.env, a@.env, p.id@, p.id@);
    }
}

/// A call of `start_task` is decided as its arguments say.
pub proof fn start_calls_are_decided(
    client: &mut TasksClient,
    registry: &mut TaskRegistry,
    arguments: &Option<JsonObject>,
    r: Result<StartPlan, String>,
)
    requires
        call_ensures(TasksClient::handle_start_task, (client, registry, arguments), r),
    ensures
        start_task::start_handled(
            *old(client),
            *old(registry),
            *arguments,
            r,
            *final(client),
            *final(registry),
        ),
{
}

/// A process that was started is kept under its identifier, open for input and
/// unread; its task works, described by the command. The reply names both.
pub proof fn started_processes_are_tracked(
    client: &mut TasksClient,
    registry: &mut TaskRegistry,
    plan: ProcessPlan,
    running: Option<u32>,
    now: Moment,
    r: String,
)
    requires
        old(client).wf(),
        old(registry).wf(),
        call_ensures(TasksClient::process_started_at, (client, registry, plan, running, now), r),
    ensures
        final(client).next_id == old(client).next_id,
        final(client).client == old(client).client,
        process::process_of(final(client).processes@, plan.id@) matches Some(p) && {
            &&& p.child_id == running
            &&& p.stdin_open
            &&& p.pty <==> plan.stderr_path is None
            &&& p.stdout_path == plan.stdout_path@
            &&& p.stderr_path == text::opt_text(plan.stderr_path)
            &&& p.stdout_pos == 0
            &&& p.stderr_pos matches Some(pos) ==> pos == 0
        },
        forall|other: Seq<char>|
            other != plan.id@ ==> #[trigger] process::process_of(final(client).processes@, other)
                == process::process_of(old(client).processes@, other),
        final(registry)@.get(plan.id@) == Some(
            start_task::fresh_task(
                plan.id@,
                TaskSource::Process,
                start_task::abbreviated(plan.command@),
                now,
            ),
        ),
        forall|other: Seq<char>|
            other != plan.id@ ==> #[trigger] final(registry)@.get(other) == old(registry)@.get(
                other,
            ),
        final(registry)@.outgoing == old(registry)@.outgoing,
        showing::shows_in_order(r@, seq![plan.id@, plan.command@]),
{
    let p = start_task::started_process(plan@, running);
    process::put_process_is_found(old(client).processes@, plan.id@, p);
    let t = start_task::fresh_task(
        plan.id@,
        TaskSource::Process,
        start_task::abbreviated(plan.command@),
        now,
    );
    tasks::registered_is_found(old(registry)@, t);
    start_laws::started_process_is_named(plan.id@, plan.command@, plan@.stderr_path is None);
}

/// A task whose time is over fails with the words `Timed out`, and its process,
/// which is to be killed, is no longer kept.
pub proof fn timing_out_fails(
    client: &mut TasksClient,
    registry: &mut TaskRegistry,
    id: &str,
    now: Moment,
    r: Option<ManagedProcess>,
)
    requires
        old(client).wf(),
        old(registry).wf(),
        call_ensures(TasksClient::time_out_at, (client, registry, id, now), r),
    ensures
        registry_laws::moves(
            old(registry)@,
            final(registry)@,
            id@,
            TaskState::Failed,
            Some("Timed out"@),
            now,
        ),
        process::process_of(final(client).processes@, id@) is None,
        match process::process_of(old(client).processes@, id@) {
            Some(p) => r matches Some(killed) && killed@ == p,
            None => r is None,
        },
        forall|other: Seq<char>|
            other != id@ ==> #[trigger] process::process_of(final(client).processes@, other)
                == process::process_of(old(client).processes@, other),
{
    process::removed_process_is_gone(old(client).processes@, id@);
    registry_laws::transition_moves_one_task(
        old(registry)@,
        id@,
        TaskState::Failed,
        Some("Timed out"@),
        now,
    );
}

/// A task is settled once its process has ended, by its exit code; while the
/// process runs it is looked at again, and where it is no longer kept the task
/// is left as it is.
pub proof fn settling_follows_the_process(
    registry: &mut TaskRegistry,
    id: &str,
    child: ChildState,
    now: Moment,
    again: bool,
)
    requires
        old(registry).wf(),
        call_ensures(start_task::settle_step_at, (registry, id, child, now), again),
    ensures
        again <==> child == ChildState::Running,
        match child {
            ChildState::Running => final(registry)@ == old(registry)@,
            ChildState::Gone => final(registry)@ == old(registry)@,
            ChildState::Ended(code) => final(registry)@ == start_task::settled(
                old(registry)@,
                id@,
                code,
                now,
            ),
            ChildState::Unknown => registry_laws::moves(
                old(registry)@,
                final(registry)@,
                id@,
                TaskState::Failed,
                Some("exit code: "@ + text::signed_text(-1)),
                now,
            ),
        },
{
    registry_laws::transition_moves_one_task(
        old(registry)@,
        id@,
        TaskState::Failed,
        Some("exit code: "@ + text::signed_text(-1)),
        now,
    );
}

// ── Reading ───────────────────────────────────────────────────────────

/// A read is planned exactly for a task with a process, from its logs. Escape
/// sequences are stripped unless the call says that they are not to be. It
/// waits exactly if there is something to wait for, or a time to wait.
pub proof fn reading_strips_unless_told(
    client: &TasksClient,
    registry: &mut TaskRegistry,
    a: ReadArguments,
    now: Moment,
    r: Result<ReadPlan, String>,
)
    requires
        call_ensures(TasksClient::plan_read_at, (client, registry, a, now), r),
    ensures
        r is Ok <==> a.task_id is Some && process::process_of(
            client.processes@,
            a.task_id.unwrap()@,
        ) is Some,
        r matches Ok(plan) ==> {
            let p = process::process_of(client.processes@, a.task_id.unwrap()@).unwrap();
            &&& plan.task_id@ == a.task_id.unwrap()@
            &&& plan.stdout_path@ == p.stdout_path
            &&& text::opt_text(plan.stderr_path) == p.stderr_path
            &&& a.strip_ansi is None ==> plan.strip_ansi
            &&& a.strip_ansi matches Some(b) ==> plan.strip_ansi == b
            &&& plan.mode is Wait <==> a.wait_for is Some || a.timeout_ms is Some
            &&& plan.mode is Tail <==> a.wait_for is None && a.timeout_ms is None && a.limit_lines
                is Some
        },
        read_output::read_outcome(r) == read_output::read_planned(client.processes@, a@, now),
        final(registry)@ == read_output::after_reading(old(registry)@, a@, now),
{
    if let Ok(plan) = r {
        let p = process::process_of(client.processes@, a.task_id.unwrap()@).unwrap();
        assert(plan@.mode == read_output::mode_for(p, a@, now));
        assert(plan@.mode is Wait <==> plan.mode is Wait);
        assert(plan@.mode is Tail <==> plan.mode is Tail);
        if let Some(b) = a.strip_ansi {
            assert(!b ==> a@.strip_ansi == Some(false));
        }
    }
}

/// A call of `read_output` is decided as its arguments say.
pub proof fn read_calls_are_decided(
    client: &TasksClient,
    registry: &mut TaskRegistry,
    arguments: &Option<JsonObject>,
    r: Result<ReadPlan, String>,
)
    requires
        call_ensures(TasksClient::handle_read_output, (client, registry, arguments), r),
    ensures
        read_output::read_handled(*client, *old(registry), *arguments, r, *final(registry)),
{
}

/// The reply to a read shows the outputs as they are, or without their escape
/// sequences, and where they are kept.
pub proof fn replies_show_the_outputs(plan: &ReadPlan, stdout: &str, stderr: &str, r: String)
    requires
        call_ensures(ReadPlan::reply, (plan, stdout, stderr), r),
    ensures
        r@ == output::formatted(
            if plan.strip_ansi {
                outside::utf8_lossy(outside::ansi_stripped(encode_utf8(stdout@)))
            } else {
                stdout@
            },
            if plan.strip_ansi {
                outside::utf8_lossy(outside::ansi_stripped(encode_utf8(stderr@)))
            } else {
                stderr@
            },
            plan.stdout_path@,
            text::opt_text(plan.stderr_path),
        ),
{
}

/// The reply with a limit shows the last lines of each output.
pub proof fn limited_replies_show_the_last_lines(
    plan: &ReadPlan,
    count: usize,
    stdout: &str,
    stderr: &Option<String>,
    r: String,
)
    requires
        call_ensures(ReadPlan::tail_reply, (plan, count, stdout, stderr), r),
    ensures
        r@ == read_output::read_reply(
            plan@,
            lines::tail(stdout@, count as nat),
            match stderr {
                Some(s) => lines::tail(s@, count as nat),
                None => Seq::empty(),
            },
        ),
{
}

/// A round of waiting adds what was read, takes down how far, unless only the
/// last lines are wanted, and ends in a reply once the reader waits no longer.
pub proof fn rounds_are_taken_in(
    client: &mut TasksClient,
    plan: &ReadPlan,
    wait: &mut ReadWait,
    limit: Option<usize>,
    stdout: (String, u64),
    stderr: Option<(String, u64)>,
    now: Moment,
    r: WaitVerdict,
)
    requires
        call_ensures(
            TasksClient::wait_step_at,
            (client, plan, wait, limit, stdout, stderr, now),
            r,
        ),
    ensures
        final(wait)@.stdout == old(wait)@.stdout + stdout.0@,
        final(wait)@.stderr == (match stderr {
            Some((chunk, _)) => old(wait)@.stderr + chunk@,
            None => old(wait)@.stderr,
        }),
        r is Waiting <==> !final(wait)@.over(now),
        final(wait)@.over(now) && limit is None ==> (r matches WaitVerdict::Shown(reply) && reply@
            == read_output::read_reply(plan@, final(wait)@.stdout, final(wait)@.stderr)),
        final(wait)@.over(now) ==> (limit matches Some(count) ==> r == WaitVerdict::ShowTail(count)),
        limit is Some ==> final(client).processes@ == old(client).processes@,
        limit is None ==> final(client).processes@ == read_output::recorded(
            old(client).processes@,
            plan.task_id@,
            final(wait)@.stdout_pos,
            final(wait)@.stderr_pos,
        ),
{
    output_laws::rounds_end_in_a_reply(
        plan@,
        old(wait)@,
        limit,
        (stdout.0@, stdout.1),
        read_output::piece(stderr),
        now,
    );
}

/// What was read at once is shown, and how far it was read is taken down.
pub proof fn increments_are_shown_and_taken_down(
    client: &mut TasksClient,
    plan: &ReadPlan,
    stdout: (String, u64),
    stderr: Option<(String, u64)>,
    r: String,
)
    requires
        call_ensures(TasksClient::take_increment, (client, plan, stdout, stderr), r),
    ensures
        match stderr {
            Some((chunk, pos)) => {
                &&& r@ == read_output::read_reply(plan@, stdout.0@, chunk@)
                &&& final(client).processes@ == read_output::recorded(
                    old(client).processes@,
                    plan.task_id@,
                    stdout.1,
                    Some(pos),
                )
            },
            None => {
                &&& r@ == read_output::read_reply(plan@, stdout.0@, Seq::empty())
                &&& final(client).processes@ == read_output::recorded(
                    old(client).processes@,
                    plan.task_id@,
                    stdout.1,
                    None,
                )
            },
        },
{
}

/// The first line that shows the pattern of a watch is told of with the pattern
/// and the line; no other line is.
pub proof fn watching_tells_once(
    watch: &mut PatternWatch,
    registry: &mut TaskRegistry,
    id: &str,
    line: &str,
    now: Moment,
)
    requires
        call_ensures(PatternWatch::watch_line_at, (watch, registry, id, line, now), ()),
    ensures
        final(watch)@ == old(watch)@.after(line@),
        if !old(watch).fired && (old(watch).pattern matches Some(p) && showing::shows(line@, p@)) {
            final(registry)@ == old(registry)@.matched(
                id@,
                old(watch).pattern.unwrap()@,
                line@,
                now,
            )
        } else {
            final(registry)@ == old(registry)@
        },
{
    output_laws::watch_reacts_once(old(watch)@, line@);
}

// ── Managing ──────────────────────────────────────────────────────────

/// Asking for a task reports it: one that is over with its summary at the end,
/// or the words for none; one that waits with its question. A task that is over
/// is no longer kept then.
pub proof fn getting_reports_the_result(
    client: &mut TasksClient,
    registry: &mut TaskRegistry,
    id: &str,
    now: Moment,
    r: (Option<ManagedProcess>, Result<String, String>),
)
    requires
        old(client).wf(),
        old(registry).wf(),
        call_ensures(TasksClient::get_task_at, (client, registry, id, now), r),
    ensures
        match old(registry)@.get(id@) {
            None => r.1 is Err && r.0 is None && final(registry)@ == old(registry)@,
            Some(t) => r.1 matches Ok(reply) && {
                &&& registry_laws::has_ended(t) ==> {
                    &&& final(registry)@.get(id@) is None
                    &&& match t.result_summary {
                        Some(summary) => ("\n"@ + summary).is_suffix_of(reply@),
                        None => "\n(no output)"@.is_suffix_of(reply@),
                    }
                    &&& match process::process_of(old(client).processes@, id@) {
                        Some(p) => r.0 matches Some(killed) && killed@ == p,
                        None => r.0 is None,
                    }
                }
                &&& !registry_laws::has_ended(t) ==> final(registry)@ == old(registry)@ && r.0 is None
                &&& t.state == TaskState::InputRequired && t.input_request is Some ==> (
                "\nQuestion: "@ + t.input_request.unwrap()).is_suffix_of(reply@)
            },
        },
{
    if let Some(t) = old(registry)@.get(id@) {
        tasks::removed_is_gone(old(registry)@, id@);
        if registry_laws::has_ended(t) {
            crate::manage_laws::result_is_reported(old(registry)@, id@, now);
        }
        if t.state == TaskState::InputRequired && t.input_request is Some {
            crate::manage_laws::question_is_reported(old(registry)@, id@, now);
        }
    }
}

/// Cancelling a task asks it to stop, moves it to its end and gives out its
/// process, which is to be killed.
pub proof fn cancelling_ends_the_task(
    client: &mut TasksClient,
    registry: &mut TaskRegistry,
    id: &str,
    now: Moment,
    r: (Option<ManagedProcess>, Result<String, String>),
)
    requires
        old(client).wf(),
        old(registry).wf(),
        call_ensures(TasksClient::cancel_task_at, (client, registry, id, now), r),
    ensures
        r.1 is Ok <==> old(registry)@.get(id@) is Some,
        final(registry)@ == old(registry)@.cancelled(id@, now),
        process::process_of(final(client).processes@, id@) is None,
        match process::process_of(old(client).processes@, id@) {
            Some(p) => r.0 matches Some(killed) && killed@ == p,
            None => r.0 is None,
        },
        forall|other: Seq<char>|
            other != id@ ==> #[trigger] process::process_of(final(client).processes@, other)
                == process::process_of(old(client).processes@, other),
{
    process::removed_process_is_gone(old(client).processes@, id@);
}

/// The calls of `cancel_task` and `get_task` are decided as their arguments say.
pub proof fn managing_calls_are_decided(
    client: &mut TasksClient,
    registry: &mut TaskRegistry,
    arguments: &Option<JsonObject>,
    r: (Option<ManagedProcess>, Result<String, String>),
)
    ensures
        call_ensures(TasksClient::handle_cancel_task, (client, registry, arguments), r)
            ==> manage_tasks::cancel_handled(
            *old(client),
            *old(registry),
            *arguments,
            r,
            *final(client),
            *final(registry),
        ),
        call_ensures(TasksClient::handle_get_task, (client, registry, arguments), r)
            ==> manage_tasks::get_handled(
            *old(client),
            *old(registry),
            *arguments,
            r,
            *final(client),
            *final(registry),
        ),
{
}

/// The listing is of the tasks of the registry.
pub proof fn listings_list(client: &TasksClient, registry: &TaskRegistry, r: String)
    requires
        call_ensures(TasksClient::handle_list_tasks, (client, registry), r),
    ensures
        r@ == manage_tasks::listing(registry@),
{
}

// ── Replies ───────────────────────────────────────────────────────────

/// A complaint is marked as such; a reply is handed on word for word.
pub proof fn complaints_are_marked(result: Result<String, String>, r: ToolReply)
    requires
        call_ensures(tools::tool_reply, (result,), r),
    ensures
        match result {
            Ok(reply) => !r.is_error && r.text@ == reply@,
            Err(e) => r.is_error && r.text@ == "Error: "@ + e@,
        },
{
}

} // verus!
