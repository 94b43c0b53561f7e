//! What holds of tasks that are started.
use crate::arguments;
use crate::arguments::{JsonObject, MemberView};
use crate::duration;
use crate::registry_laws;
use crate::send_laws;
use crate::showing;
use crate::start_task;
use crate::start_task::{ProcessPlanView, StartArgumentsView, StartPlan, StartPlanView};
use crate::task_client;
use crate::task_client::{ClientId, TasksClient};
use crate::tasks::{
    InterruptPolicy, NotifyPolicy, RegistryView, TaskMeta, TaskRegistry, TaskSource, TaskState,
    TaskView,
};
use crate::text;
use crate::time::{Moment, Span};
use vstd::prelude::*;
use vstd::string::*;
use vstd::utf8::*;

verus! {

// ── Arguments ─────────────────────────────────────────────────────────

/// Every argument of `start_task` is read from the member of its name.
pub proof fn start_arguments_are_read_by_name(object: Map<Seq<char>, MemberView>)
    ensures
        ({
            let a = StartArgumentsView::of(object);
            &&& forall|t: Seq<char>|
                {
                    &&& a.kind == Some(t) <==> #[trigger] send_laws::has_member(
                        object,
                        "kind"@,
                        MemberView::Text(t),
                    )
                    &&& a.command == Some(t) <==> #[trigger] send_laws::has_member(
                        object,
                        "command"@,
                        MemberView::Text(t),
                    )
                    &&& a.wait_for == Some(t) <==> #[trigger] send_laws::has_member(
                        object,
                        "wait_for"@,
                        MemberView::Text(t),
                    )
                    &&& a.working_dir == Some(t) <==> #[trigger] send_laws::has_member(
                        object,
                        "working_dir"@,
                        MemberView::Text(t),
                    )
                    &&& a.delay == Some(t) <==> #[trigger] send_laws::has_member(
                        object,
                        "delay"@,
                        MemberView::Text(t),
                    )
                    &&& a.message == Some(t) <==> #[trigger] send_laws::has_member(
                        object,
                        "message"@,
                        MemberView::Text(t),
                    )
                }
            &&& forall|b: bool|
                a.use_pty == Some(b) <==> #[trigger] send_laws::has_member(
                    object,
                    "use_pty"@,
                    MemberView::Flag(b),
                )
            &&& forall|n: u64|
                a.timeout_seconds == Some(n) <==> #[trigger] send_laws::has_member(
                    object,
                    "timeout_seconds"@,
                    MemberView::Number(Some(n)),
                )
            &&& forall|rows: Seq<(Seq<char>, Option<Seq<char>>)>| #[trigger]
                send_laws::has_member(object, "env"@, MemberView::Table(rows)) ==> a.env == rows
            &&& (forall|rows: Seq<(Seq<char>, Option<Seq<char>>)>|
                !#[trigger] send_laws::has_member(object, "env"@, MemberView::Table(rows)))
                ==> a.env.len() == 0
        }),
{
    if let Some(rows) = arguments::table_in(object, "env"@) {
        assert(send_laws::has_member(object, "env"@, MemberView::Table(rows)));
    }
}

// ── Variables ─────────────────────────────────────────────────────────

/// Every variable with a text for its value is set to this text, in the order
/// given; nothing else is set.
pub proof fn variables_are_all_set(
    a: Seq<(Seq<char>, Option<Seq<char>>)>,
    b: Seq<(Seq<char>, Option<Seq<char>>)>,
    name: Seq<char>,
    value: Seq<char>,
)
    ensures
        start_task::settings(a + b) == start_task::settings(a) + start_task::settings(b),
        start_task::settings(seq![(name, Some(value))]) == seq![(name, value)],
        start_task::settings(seq![(name, None)]).len() == 0,
        start_task::settings(Seq::empty()).len() == 0,
        start_task::settings(b).contains((name, value)) <==> b.contains((name, Some(value))),
        start_task::settings(b).len() == b.filter(
            |row: (Seq<char>, Option<Seq<char>>)| row.1 is Some,
        ).len(),
    decreases b.len(),
{
    let none = Seq::<(Seq<char>, Option<Seq<char>>)>::empty();
    let some = |row: (Seq<char>, Option<Seq<char>>)| row.1 is Some;
    assert(start_task::settings(none) =~= Seq::empty());
    assert(seq![(name, Some(value))].drop_last() =~= none);
    assert(seq![(name, None::<Seq<char>>)].drop_last() =~= none);
    assert(start_task::settings(seq![(name, Some(value))]) =~= seq![(name, value)]);
    reveal(Seq::filter);
    if b.len() == 0 {
        assert(a + b =~= a);
        assert(start_task::settings(a) + start_task::settings(b) =~= start_task::settings(a));
    } else {
        let front = b.drop_last();
        let last = b.last();
        let set = start_task::settings(front);
        assert((a + b).drop_last() =~= a + front);
        assert((a + b).last() == last);
        variables_are_all_set(a, front, name, value);
        assert(start_task::settings(a + b) =~= start_task::settings(a) + start_task::settings(b));
        if front.contains((name, Some(value))) {
            let i = choose|i: int| 0 <= i < front.len() && front[i] == (name, Some(value));
            assert(b[i] == (name, Some(value)));
            let k = choose|k: int| 0 <= k < set.len() && set[k] == (name, value);
            assert(start_task::settings(b)[k] == (name, value));
        }
        if last == (name, Some(value)) {
            assert(b[b.len() - 1] == (name, Some(value)));
            assert(start_task::settings(b)[set.len() as int] == (name, value));
        }
        if b.contains((name, Some(value))) && last != (name, Some(value)) {
            let i = choose|i: int| 0 <= i < b.len() && b[i] == (name, Some(value));
            assert(front[i] == (name, Some(value)));
        }
        if start_task::settings(b).contains((name, value)) && last != (name, Some(value)) {
            let all = start_task::settings(b);
            let k = choose|k: int| 0 <= k < all.len() && all[k] == (name, value);
            assert(set[k] == (name, value));
        }
    }
}

// ── Plans ─────────────────────────────────────────────────────────────

/// A process is planned exactly if one is asked for with its command, and it is
/// the one that is asked for: its command, directory, limit and pattern, all
/// variables with a text for their value and no others, its own logs, and no
/// error output exactly if it is to run in a terminal.
pub proof fn process_is_planned_as_asked(client: ClientId, id: Seq<char>, a: StartArgumentsView)
    ensures
        (start_task::planned(client, id, a) matches Ok(StartPlanView::Process(_))) <==> a.kind
            == Some("process"@) && a.command is Some,
        start_task::planned(client, id, a) matches Ok(StartPlanView::Process(plan)) ==> {
            &&& plan.id == id
            &&& Some(plan.command) == a.command
            &&& plan.wait_for == a.wait_for
            &&& plan.timeout_seconds == a.timeout_seconds
            &&& plan.working_dir == a.working_dir
            &&& forall|name: Seq<char>, value: Seq<char>| #[trigger]
                plan.env.contains((name, value)) <==> a.env.contains((name, Some(value)))
            &&& plan.env.len() == a.env.filter(
                |row: (Seq<char>, Option<Seq<char>>)| row.1 is Some,
            ).len()
            &&& plan.stderr_path is None <==> a.use_pty == Some(true)
            &&& (id + "_stdout.log"@).is_suffix_of(plan.stdout_path)
            &&& plan.stderr_path matches Some(path) ==> (id + "_stderr.log"@).is_suffix_of(path)
        },
        a.kind == Some("process"@) && a.command is None ==> start_task::planned(client, id, a)
            == Err::<StartPlanView, _>("Missing 'command' argument"@),
{
    if let Ok(StartPlanView::Process(plan)) = start_task::planned(client, id, a) {
        assert forall|name: Seq<char>, value: Seq<char>| #[trigger]
            plan.env.contains((name, value)) <==> a.env.contains((name, Some(value))) by {
            variables_are_all_set(a.env, a.env, name, value);
        }
        variables_are_all_set(a.env, a.env, id, id);
        let out = id + "_stdout.log"@;
        let n = plan.stdout_path.len();
        assert(plan.stdout_path.subrange(n - out.len(), n as int) =~= out);
        if let Some(path) = plan.stderr_path {
            let err = id + "_stderr.log"@;
            assert(path.subrange(path.len() - err.len(), path.len() as int) =~= err);
        }
    }
}

/// Where a process writes lies in the directory of the client, which is named
/// by its process and its number.
pub proof fn logs_lie_with_the_client(client: ClientId, id: Seq<char>)
    ensures
        start_task::stdout_log(client, id) == "/tmp/goose_task_"@ + text::decimal_text(
            client.process as nat,
        ) + "_"@ + text::decimal_text(client.number as nat) + "/"@ + id + "_stdout.log"@,
        start_task::stderr_log(client, id) == "/tmp/goose_task_"@ + text::decimal_text(
            client.process as nat,
        ) + "_"@ + text::decimal_text(client.number as nat) + "/"@ + id + "_stderr.log"@,
{
}

/// A timer is planned exactly if one is asked for with a delay that can be read
/// and a message: for this delay, with this message, under its identifier. The
/// reply shows the identifier, the delay and the message.
pub proof fn timer_is_planned_as_asked(client: ClientId, id: Seq<char>, a: StartArgumentsView)
    ensures
        (start_task::planned(client, id, a) matches Ok(StartPlanView::Timer(_))) <==> {
            &&& a.kind == Some("timer"@)
            &&& a.message is Some
            &&& a.delay matches Some(delay) && !(duration::duration_reading(delay) is TooLong)
                && duration::duration_of(delay) is Ok
        },
        start_task::planned(client, id, a) matches Ok(StartPlanView::Timer(plan)) ==> {
            &&& plan.id == id
            &&& Some(plan.message) == a.message
            &&& Ok::<Span, Seq<char>>(plan.delay) == duration::duration_of(a.delay.unwrap())
            &&& showing::shows_in_order(
                plan.reply,
                seq![id, a.delay.unwrap(), a.message.unwrap()],
            )
        },
        (start_task::planned(client, id, a) matches Ok(StartPlanView::DelayTooLong)) <==> {
            &&& a.kind == Some("timer"@)
            &&& a.message is Some
            &&& a.delay matches Some(delay) && duration::duration_reading(delay) is TooLong
        },
        a.kind == Some("timer"@) && a.delay is None ==> start_task::planned(client, id, a) == Err::<
            StartPlanView,
            _,
        >("Missing 'delay' argument (e.g. '30s', '5m', '2h')"@),
        a.kind == Some("timer"@) && a.delay is Some && a.message is None ==> start_task::planned(
            client,
            id,
            a,
        ) == Err::<StartPlanView, _>("Missing 'message' argument"@),
{
    reveal_strlit("process");
    reveal_strlit("timer");
    assert("process"@.len() != "timer"@.len());
    if let Ok(StartPlanView::Timer(plan)) = start_task::planned(client, id, a) {
        let delay = a.delay.unwrap();
        let message = a.message.unwrap();
        let tail = "\n\nThe system will notify you when the timer fires."@;
        showing::order_ends(tail);
        showing::order_grows(": "@, message, tail, seq![]);
        showing::order_grows(
            " started (timer)\nReminder set for "@,
            delay,
            ": "@ + message + tail,
            seq![message] + seq![],
        );
        showing::order_grows(
            "Task "@,
            id,
            " started (timer)\nReminder set for "@ + delay + (": "@ + message + tail),
            seq![delay] + (seq![message] + seq![]),
        );
        assert(plan.reply =~= "Task "@ + id + (" started (timer)\nReminder set for "@ + delay + (
        ": "@ + message + tail)));
        assert(seq![id] + (seq![delay] + (seq![message] + Seq::<Seq<char>>::empty()))
            =~= seq![id, delay, message]);
    }
}

/// Nothing but processes and timers is started; a kind that is not known is
/// named in the refusal.
pub proof fn other_kinds_are_refused(client: ClientId, id: Seq<char>, a: StartArgumentsView)
    requires
        a.kind != Some("process"@),
        a.kind != Some("timer"@),
    ensures
        match a.kind {
            None => start_task::planned(client, id, a) == Err::<StartPlanView, _>(
                "Missing 'kind' argument (must be 'process', 'timer', or 'subagent')"@,
            ),
            Some(kind) => if kind == "subagent"@ {
                start_task::planned(client, id, a) is Err
            } else {
                start_task::planned(client, id, a) == Err::<StartPlanView, _>(
                    "Unknown task kind '"@ + kind
                        + "'. Must be 'process', 'timer', or 'subagent'."@,
                )
            },
        },
{
}

// ── Calls ─────────────────────────────────────────────────────────────

/// A call of `start_task` is decided by its own arguments. What it starts gets
/// the next identifier, which is then used up; a call that starts nothing uses
/// none up. A timer is registered at once, as working, with its message and its
/// delay; nothing else is registered.
pub proof fn start_call_is_decided_by_its_arguments(
    before: TasksClient,
    registry: TaskRegistry,
    arguments: Option<JsonObject>,
    r: Result<StartPlan, String>,
    after: TasksClient,
    registry_after: TaskRegistry,
)
    requires
        start_task::start_handled(before, registry, arguments, r, after, registry_after),
        registry@.keys_distinct(),
    ensures
        after.processes == before.processes,
        after.client == before.client,
        match arguments {
            None => (r matches Err(e) && e@ == "Missing arguments"@) && after.next_id
                == before.next_id && registry_after@ == registry@ && registry_after.latest() == registry.latest(),
            Some(object) => {
                let a = StartArgumentsView::of(arguments::members(object));
                let id = task_client::task_id(before.next_id);
                &&& match r {
                    Ok(plan) => start_task::planned(before.client, id, a) == Ok::<_, Seq<char>>(
                        plan@,
                    ),
                    Err(e) => start_task::planned(before.client, id, a) == Err::<
                        StartPlanView,
                        _,
                    >(e@),
                }
                &&& match r {
                    Ok(StartPlan::Process(_)) => after.next_id != before.next_id
                        && registry_after@ == registry@,
                    Ok(StartPlan::Timer(plan)) => {
                        &&& after.next_id != before.next_id
                        &&& registry.shows(registry_after.latest())
                        &&& registry_after@.get(id) matches Some(t) && {
                            &&& t.id == id
                            &&& t.state == TaskState::Working
                            &&& t.source == TaskSource::Timer
                            &&& t.created_at == registry_after.latest()
                            &&& showing::shows_in_order(
                                t.description,
                                seq![plan.message@, a.delay.unwrap()],
                            )
                        }
                        &&& forall|other: Seq<char>|
                            other != id ==> #[trigger] registry_after@.get(other)
                                == registry@.get(other)
                        &&& registry_after@.outgoing == registry@.outgoing
                    },
                    _ => after.next_id == before.next_id && registry_after@ == registry@,
                }
                &&& before.next_id < u64::MAX && after.next_id != before.next_id ==> after.next_id
                    == before.next_id + 1
            },
        },
{
    if let Some(object) = arguments {
        let a = StartArgumentsView::of(arguments::members(object));
        let id = task_client::task_id(before.next_id);
        if let Ok(StartPlan::Timer(plan)) = r {
            let message = plan.message@;
            let delay = a.delay.unwrap();
            let description = start_task::timer_description(message, delay);
            let t = start_task::fresh_task(
                id,
                TaskSource::Timer,
                description,
                registry_after.latest(),
            );
            crate::tasks::registered_is_found(registry@, t);
            showing::order_ends(")"@);
            showing::order_grows(" ("@, delay, ")"@, seq![]);
            showing::order_grows("Timer: "@, message, " ("@ + delay + ")"@, seq![delay] + seq![]);
            assert(description =~= "Timer: "@ + message + (" ("@ + delay + ")"@));
            assert(seq![message] + (seq![delay] + Seq::<Seq<char>>::empty()) =~= seq![
                message,
                delay,
            ]);
        }
    }
}

/// The identifier of a task ends in its number, and the next is another one.
pub proof fn identifiers_count_up(number: u64)
    ensures
        task_client::task_id(number) == "task_"@ + text::decimal_text(number as nat),
        task_client::following(number) == (number + 1) % 0x1_0000_0000_0000_0000,
        task_client::task_id(task_client::following(number)) != task_client::task_id(number),
{
    if task_client::task_id(task_client::following(number)) == task_client::task_id(number) {
        task_client::task_ids_are_distinct(task_client::following(number), number);
    }
}

// ── Tasks ─────────────────────────────────────────────────────────────

/// A task starts to work when it is registered, on its own: with no batch, no
/// result, no question, no notes and no work done; it is told of when it ends,
/// and has five minutes to live.
pub proof fn fresh_tasks_start_to_work(
    id: Seq<char>,
    source: TaskSource,
    description: Seq<char>,
    now: Moment,
)
    ensures
        start_task::fresh_task(id, source, description, now) == (TaskView {
            id,
            source,
            description,
            state: TaskState::Working,
            batch_id: None,
            notify_policy: NotifyPolicy::OnCompletion,
            meta: TaskMeta {
                min_poll_interval_ms: 1000,
                ttl_after_completion_s: 300,
                interrupt_on: InterruptPolicy {
                    on_complete: true,
                    on_failed: true,
                    on_input_required: true,
                    on_pattern_matched: true,
                },
                deadline: None,
            },
            created_at: now,
            last_activity: now,
            worked_duration: Span { nanos: 0 },
            notifications: Seq::empty(),
            status_message: None,
            result: None,
            error: None,
            result_summary: None,
            input_request: None,
            ttl_ms: Some(300_000),
            poll_interval_ms: None,
            cancellation_token: None,
        }),
{
}

/// A process is described by its command: all of it, if it is at most sixty
/// bytes long, else its first sixty characters and three dots.
pub proof fn commands_are_described(command: Seq<char>)
    ensures
        encode_utf8(command).len() <= 60 ==> start_task::abbreviated(command) == command,
        encode_utf8(command).len() > 60 ==> {
            &&& "..."@.is_suffix_of(start_task::abbreviated(command))
            &&& command.len() >= 60 ==> start_task::abbreviated(command).len() == 63
                && start_task::abbreviated(command).take(60) == command.take(60)
            &&& command.len() < 60 ==> start_task::abbreviated(command) == command + "..."@
        },
{
    reveal_strlit("...");
    let r = start_task::abbreviated(command);
    if encode_utf8(command).len() > 60 {
        assert(r.subrange(r.len() - 3, r.len() as int) =~= "..."@);
        if command.len() >= 60 {
            assert(r.take(60) =~= command.take(60));
        } else {
            assert(command.take(command.len() as int) =~= command);
        }
    }
}

/// The reply to the start of a process shows its identifier and its command,
/// and says whether it runs in a terminal.
pub proof fn started_process_is_named(id: Seq<char>, command: Seq<char>, pty: bool)
    ensures
        showing::shows_in_order(start_task::process_reply(id, command, pty), seq![id, command]),
        ("Task "@ + id + (if pty {
            " started (process, PTY mode)."@
        } else {
            " started (process)."@
        })).is_prefix_of(start_task::process_reply(id, command, pty)),
{
    let reply = start_task::process_reply(id, command, pty);
    let kind = if pty {
        " started (process, PTY mode). TTL: 5 minutes of inactivity before automatic cleanup.\nCommand: "@
    } else {
        " started (process). TTL: 5 minutes of inactivity before automatic cleanup.\nCommand: "@
    };
    let tail = "\n\nUse send_input(task_id: \""@ + id
        + "\", input: \"...\") to send input, read_output(task_id: \""@ + id
        + "\") to check output, cancel_task(task_id: \""@ + id + "\") to stop."@;
    showing::order_ends(tail);
    showing::order_grows(kind, command, tail, seq![]);
    showing::order_grows("Task "@, id, kind + command + tail, seq![command] + seq![]);
    assert(reply =~= "Task "@ + id + (kind + command + tail));
    assert(seq![id] + (seq![command] + Seq::<Seq<char>>::empty()) =~= seq![id, command]);
    reveal_strlit(" started (process, PTY mode).");
    reveal_strlit(" started (process).");
    reveal_strlit(
        " started (process, PTY mode). TTL: 5 minutes of inactivity before automatic cleanup.\nCommand: ",
    );
    reveal_strlit(
        " started (process). TTL: 5 minutes of inactivity before automatic cleanup.\nCommand: ",
    );
    let word = if pty {
        " started (process, PTY mode)."@
    } else {
        " started (process)."@
    };
    assert(kind.subrange(0, word.len() as int) =~= word);
    let head = "Task "@ + id + word;
    assert(reply.subrange(0, head.len() as int) =~= head) by {
        assert(reply =~= "Task "@ + id + kind + (command + tail));
        assert(kind =~= word + kind.skip(word.len() as int));
    }
}

/// A process that was started is kept with its identifier and its logs, open
/// for input and with nothing of its output read; it is in a terminal exactly
/// if it has no error output.
pub proof fn started_process_is_kept(plan: ProcessPlanView, running: Option<u32>)
    ensures
        ({
            let p = start_task::started_process(plan, running);
            &&& p.child_id == running
            &&& p.stdin_open
            &&& p.stdout_path == plan.stdout_path
            &&& p.stderr_path == plan.stderr_path
            &&& p.stdout_pos == 0
            &&& p.stderr_pos == (if plan.stderr_path is Some {
                Some(0u64)
            } else {
                None
            })
            &&& p.pty <==> plan.stderr_path is None
        }),
{
}

// ── Ends ──────────────────────────────────────────────────────────────

/// A process that ends with the code 0 completes its task without a summary.
/// Every other end fails it, with the code in the summary, or -1 where there is
/// none. A task that is over, or not there, stays as it is.
pub proof fn exit_code_decides(
    registry: RegistryView,
    id: Seq<char>,
    code: Option<i32>,
    now: Moment,
)
    requires
        registry.keys_distinct(),
    ensures
        ({
            let next = start_task::settled(registry, id, code, now);
            match registry.get(id) {
                None => next == registry,
                Some(t) => if registry_laws::has_ended(t) {
                    next == registry
                } else {
                    &&& registry_laws::only_differs_in(registry, next, id)
                    &&& next.get(id) matches Some(u) && match code {
                        Some(0i32) => u.state == TaskState::Completed && u.result_summary is None,
                        Some(n) => u.state == TaskState::Failed && u.result_summary == Some(
                            "exit code: "@ + text::signed_text(n as int),
                        ),
                        None => u.state == TaskState::Failed && u.result_summary == Some(
                            "exit code: "@ + text::signed_text(-1),
                        ),
                    }
                },
            }
        }),
{
    let summary = "exit code: "@ + text::signed_text(
        match code {
            Some(n) => n as int,
            None => -1,
        },
    );
    registry_laws::transition_moves_one_task(registry, id, TaskState::Completed, None, now);
    registry_laws::transition_moves_one_task(registry, id, TaskState::Failed, Some(summary), now);
}

} // verus!
