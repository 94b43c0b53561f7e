//! What holds of the output of processes that is read and shown.
use crate::arguments;
use crate::arguments::{JsonObject, MemberView};
use crate::lines;
use crate::output;
use crate::output::{PatternWatchView, ReadWaitView};
use crate::outside;
use crate::process;
use crate::process::ProcessView;
use crate::read_output;
use crate::read_output::{
    ReadArgumentsView, ReadModeView, ReadPlan, ReadPlanView, WaitVerdictView,
};
use crate::registry_laws;
use crate::send_laws;
use crate::showing;
use crate::task_client::TasksClient;
use crate::tasks::TaskRegistry;
use crate::text_laws;
use crate::time::{Moment, Span};
use vstd::prelude::*;
use vstd::string::*;
use vstd::utf8::*;

verus! {

// ── Arguments ─────────────────────────────────────────────────────────

/// Every argument of `read_output` is read from the member of its name.
pub proof fn read_arguments_are_read_by_name(object: Map<Seq<char>, MemberView>)
    ensures
        ({
            let a = ReadArgumentsView::of(object);
            &&& forall|t: Seq<char>|
                {
                    &&& a.task_id == Some(t) <==> #[trigger] send_laws::has_member(
                        object,
                        "task_id"@,
                        MemberView::Text(t),
                    )
                    &&& a.wait_for == Some(t) <==> #[trigger] send_laws::has_member(
                        object,
                        "wait_for"@,
                        MemberView::Text(t),
                    )
                }
            &&& forall|n: u64|
                {
                    &&& a.timeout_ms == Some(n) <==> #[trigger] send_laws::has_member(
                        object,
                        "timeout_ms"@,
                        MemberView::Number(Some(n)),
                    )
                    &&& a.limit_lines == Some(n) <==> #[trigger] send_laws::has_member(
                        object,
                        "limit_lines"@,
                        MemberView::Number(Some(n)),
                    )
                }
            &&& forall|b: bool|
                a.strip_ansi == Some(b) <==> #[trigger] send_laws::has_member(
                    object,
                    "strip_ansi"@,
                    MemberView::Flag(b),
                )
        }),
{
}

// ── Plans ─────────────────────────────────────────────────────────────

/// A read is planned exactly for a task with a process, from the logs of that
/// process. Escape sequences are stripped unless the call says that they are
/// not to be.
pub proof fn read_is_planned_for_the_process(
    table: Seq<(Seq<char>, ProcessView)>,
    a: ReadArgumentsView,
    now: Moment,
)
    ensures
        match a.task_id {
            None => read_output::read_planned(table, a, now) == Err::<ReadPlanView, _>(
                "Missing 'task_id' argument"@,
            ),
            Some(id) => match process::process_of(table, id) {
                None => read_output::read_planned(table, a, now) == Err::<ReadPlanView, _>(
                    "Process task '"@ + id + "' not found"@,
                ),
                Some(p) => read_output::read_planned(table, a, now) matches Ok(plan) && {
                    &&& plan.task_id == id
                    &&& plan.stdout_path == p.stdout_path
                    &&& plan.stderr_path == p.stderr_path
                    &&& a.strip_ansi is None ==> plan.strip_ansi
                    &&& a.strip_ansi matches Some(b) ==> plan.strip_ansi == b
                },
            },
        },
{
    if let Some(b) = a.strip_ansi {
        assert(!b ==> a.strip_ansi == Some(false));
    }
}

/// What a read shows, unless the call says otherwise, is its output without
/// escape sequences; a call that says so is shown the output as it is.
pub proof fn escapes_are_stripped_unless_wanted(
    table: Seq<(Seq<char>, ProcessView)>,
    a: ReadArgumentsView,
    stdout: Seq<char>,
    stderr: Seq<char>,
    now: Moment,
)
    ensures
        read_output::read_planned(table, a, now) matches Ok(plan) ==> read_output::read_reply(
            plan,
            stdout,
            stderr,
        ) == (if a.strip_ansi == Some(false) {
            output::formatted(stdout, stderr, plan.stdout_path, plan.stderr_path)
        } else {
            output::formatted(
                outside::utf8_lossy(outside::ansi_stripped(encode_utf8(stdout))),
                outside::utf8_lossy(outside::ansi_stripped(encode_utf8(stderr))),
                plan.stdout_path,
                plan.stderr_path,
            )
        }),
{
}

/// A read waits exactly if there is something to wait for, or a time to wait:
/// for that, so long or for thirty seconds, on a process that runs or not, from
/// where the last read ended or, with a limit, from the start.
pub proof fn read_waits_if_asked_to(
    table: Seq<(Seq<char>, ProcessView)>,
    a: ReadArgumentsView,
    now: Moment,
)
    requires
        a.task_id is Some,
        process::process_of(table, a.task_id.unwrap()) is Some,
        a.wait_for is Some || a.timeout_ms is Some,
    ensures
        ({
            let p = process::process_of(table, a.task_id.unwrap()).unwrap();
            let millis = if a.timeout_ms is Some {
                a.timeout_ms.unwrap()
            } else {
                30_000u64
            };
            &&& read_output::read_planned(table, a, now) matches Ok(plan)
            &&& plan.mode matches ReadModeView::Wait { wait, limit }
            &&& wait.pattern == a.wait_for
            &&& wait.running <==> p.child_id is Some
            &&& wait.deadline == now.after(Span { nanos: (millis * 1_000_000) as u128 })
            &&& wait.idle_since == now
            &&& wait.stdout.len() == 0
            &&& wait.stderr.len() == 0
            &&& a.limit_lines is None ==> limit is None && wait.stdout_pos == p.stdout_pos
                && wait.stderr_pos == p.stderr_pos
            &&& a.limit_lines matches Some(n) ==> {
                &&& limit is Some
                &&& n <= usize::MAX ==> limit == Some(n as usize)
                &&& wait.stdout_pos == 0
                &&& wait.stderr_pos is Some <==> p.stderr_pos is Some
                &&& wait.stderr_pos matches Some(pos) ==> pos == 0
            }
        }),
{
}

/// A read that does not wait gives the last lines of all the output, if their
/// number is given, else what came since the last read.
pub proof fn other_reads_are_done_at_once(
    table: Seq<(Seq<char>, ProcessView)>,
    a: ReadArgumentsView,
    now: Moment,
)
    requires
        a.task_id is Some,
        process::process_of(table, a.task_id.unwrap()) is Some,
        a.wait_for is None,
        a.timeout_ms is None,
    ensures
        ({
            let p = process::process_of(table, a.task_id.unwrap()).unwrap();
            &&& read_output::read_planned(table, a, now) matches Ok(plan)
            &&& match a.limit_lines {
                Some(n) => plan.mode matches ReadModeView::Tail(count) && (n <= usize::MAX ==> count
                    == n),
                None => plan.mode == ReadModeView::Increment {
                    stdout_pos: p.stdout_pos,
                    stderr_pos: p.stderr_pos,
                },
            }
        }),
{
}

/// A call of `read_output` is decided by its own arguments and by the processes
/// of the client; it counts as activity of the task, and does nothing else to
/// the registry.
pub proof fn read_call_is_decided_by_its_arguments(
    client: TasksClient,
    registry: TaskRegistry,
    arguments: Option<JsonObject>,
    r: Result<ReadPlan, String>,
    after: TaskRegistry,
)
    requires
        read_output::read_handled(client, registry, arguments, r, after),
        registry@.keys_distinct(),
    ensures
        match arguments {
            None => (r matches Err(e) && e@ == "Missing arguments"@) && after@ == registry@ && after.latest() == registry.latest(),
            Some(object) => {
                let a = ReadArgumentsView::of(arguments::members(object));
                let now = after.latest();
                &&& registry.shows(now)
                &&& match r {
                    Ok(plan) => read_output::read_planned(client.processes@, a, now) == Ok::<
                        _,
                        Seq<char>,
                    >(plan@),
                    Err(e) => read_output::read_planned(client.processes@, a, now) == Err::<
                        ReadPlanView,
                        _,
                    >(e@),
                }
                &&& after@.outgoing == registry@.outgoing
                &&& forall|id: Seq<char>| #[trigger] after@.get(id) == (match registry@.get(id) {
                    Some(t) if a.task_id == Some(id) => Some(registry_laws::busy(t, now)),
                    found => found,
                })
            },
        },
{
    if let Some(object) = arguments {
        let a = ReadArgumentsView::of(arguments::members(object));
        if let Some(id) = a.task_id {
            registry_laws::activity_is_counted(registry@, id, id, after.latest());
        }
    }
}

// ── Showing ───────────────────────────────────────────────────────────

/// Output that is shown as whole lines: nothing is left out, and at most the
/// end of the last line is added; no output is told in a line of its own.
pub proof fn output_is_shown_in_whole_lines(out: Seq<char>)
    ensures
        out.len() == 0 ==> output::section(out) == "(empty)\n"@,
        out.len() > 0 ==> {
            &&& out.is_prefix_of(output::section(out))
            &&& output::section(out).last() == '\n'
            &&& out.last() == '\n' ==> output::section(out) == out
            &&& output::section(out).len() <= out.len() + 1
        },
{
    if out.len() > 0 {
        assert(output::section(out).subrange(0, out.len() as int) =~= out);
    }
}

/// A reader is shown the output, then the error output, each under its
/// heading, then where the output and, if there is one, where the error output
/// is kept.
pub proof fn both_outputs_are_shown(
    stdout: Seq<char>,
    stderr: Seq<char>,
    stdout_path: Seq<char>,
    stderr_path: Option<Seq<char>>,
)
    ensures
        ({
            let out = output::section(stdout);
            let err = output::section(stderr);
            let shown = output::formatted(stdout, stderr, stdout_path, stderr_path);
            let begun = "── stdout ──\n"@ + out + "\n── stderr ──\n"@ + err
                + "\n── files ──\nstdout: "@ + stdout_path + "\n"@;
            &&& begun.is_prefix_of(shown)
            &&& stderr_path is None ==> shown == begun
            &&& stderr_path matches Some(path) ==> shown == begun + "stderr: "@ + path + "\n"@
        }),
{
    let shown = output::formatted(stdout, stderr, stdout_path, stderr_path);
    let begun = "── stdout ──\n"@ + output::section(stdout) + "\n── stderr ──\n"@
        + output::section(stderr) + "\n── files ──\nstdout: "@ + stdout_path + "\n"@;
    assert(shown.subrange(0, begun.len() as int) =~= begun);
}

/// Of all the output, the reply with a limit shows the last lines of each, and
/// nothing for the error output of a process that has none.
pub proof fn last_lines_are_shown(
    plan: ReadPlanView,
    count: usize,
    stdout: Seq<char>,
    stderr: Option<Seq<char>>,
)
    ensures
        read_output::tail_reply(plan, count, stdout, stderr) == read_output::read_reply(
            plan,
            lines::tail(stdout, count as nat),
            if stderr is Some {
                lines::tail(stderr.unwrap(), count as nat)
            } else {
                Seq::empty()
            },
        ),
{
}

/// Nothing is changed of output whose escape sequences are wanted.
pub proof fn wanted_escapes_are_kept(out: Seq<char>)
    ensures
        output::plain(out, false) == out,
        output::plain(out, true) == outside::utf8_lossy(outside::ansi_stripped(encode_utf8(out))),
{
}

// ── Waiting ───────────────────────────────────────────────────────────

/// A reader that comes has heard nothing, and waits for its pattern until its
/// time is over: as long as it was told, or thirty seconds.
pub proof fn readers_begin_with_nothing(
    pattern: Option<Seq<char>>,
    timeout_ms: Option<u64>,
    running: bool,
    stdout_pos: u64,
    stderr_pos: Option<u64>,
    now: Moment,
)
    ensures
        ReadWaitView::begun(pattern, timeout_ms, running, stdout_pos, stderr_pos, now) == (
        ReadWaitView {
            pattern,
            running,
            deadline: now.after(
                Span {
                    nanos: ((if timeout_ms is Some {
                        timeout_ms.unwrap()
                    } else {
                        30_000u64
                    }) * 1_000_000) as u128,
                },
            ),
            idle_since: now,
            stdout: Seq::empty(),
            stderr: Seq::empty(),
            stdout_pos,
            stderr_pos,
        }),
{
}

/// What comes is added to what has come, and the reader goes on from there; of
/// the other output nothing changes. Where nothing comes, nothing changes.
pub proof fn what_comes_is_added(w: ReadWaitView, chunk: Seq<char>, pos: u64, now: Moment)
    ensures
        chunk.len() == 0 ==> w.heard_stdout(chunk, pos, now) == w && w.heard_stderr(chunk, pos, now)
            == w,
        chunk.len() > 0 ==> {
            &&& w.heard_stdout(chunk, pos, now) == (ReadWaitView {
                stdout: w.stdout + chunk,
                stdout_pos: pos,
                idle_since: now,
                ..w
            })
            &&& w.heard_stderr(chunk, pos, now) == (ReadWaitView {
                stderr: w.stderr + chunk,
                stderr_pos: Some(pos),
                idle_since: now,
                ..w
            })
        },
{
}

/// A reader waits no longer exactly if what it waits for shows in either
/// output, the process does not run, its time is over or, where it waits for
/// nothing special, something has come and nothing more for three tenths of a
/// second.
pub proof fn reader_waits_until(w: ReadWaitView, now: Moment)
    ensures
        w.over(now) <==> {
            ||| w.pattern matches Some(p) && (showing::shows(w.stdout, p) || showing::shows(
                w.stderr,
                p,
            ))
            ||| !w.running
            ||| now.reached(w.deadline)
            ||| w.pattern is None && (w.stdout.len() > 0 || w.stderr.len() > 0) && now.since(
                w.idle_since,
            ).nanos >= 300_000_000
        },
{
    if let Some(p) = w.pattern {
        text_laws::occurring_is_standing_inside(w.stdout, p);
        text_laws::occurring_is_standing_inside(w.stderr, p);
    }
}

/// A round adds what it read of both outputs. While the reader waits on,
/// nothing is shown; then all that has come is shown, or the last lines.
pub proof fn rounds_end_in_a_reply(
    plan: ReadPlanView,
    wait: ReadWaitView,
    limit: Option<usize>,
    stdout: (Seq<char>, u64),
    stderr: Option<(Seq<char>, u64)>,
    now: Moment,
)
    ensures
        ({
            let next = read_output::stepped(wait, stdout, stderr, now);
            &&& next.stdout == wait.stdout + stdout.0
            &&& next.stderr == (if stderr is Some {
                wait.stderr + stderr.unwrap().0
            } else {
                wait.stderr
            })
            &&& next.pattern == wait.pattern
            &&& next.running == wait.running
            &&& next.deadline == wait.deadline
            &&& stdout.0.len() > 0 ==> next.stdout_pos == stdout.1 && next.idle_since == now
            &&& stdout.0.len() == 0 ==> next.stdout_pos == wait.stdout_pos
            &&& stderr matches Some((chunk, pos)) ==> {
                &&& chunk.len() > 0 ==> next.stderr_pos == Some(pos) && next.idle_since == now
                &&& chunk.len() == 0 ==> next.stderr_pos == wait.stderr_pos
            }
            &&& stderr is None ==> next.stderr_pos == wait.stderr_pos
        }),
        match read_output::round_verdict(plan, wait, limit, now) {
            WaitVerdictView::Waiting => !wait.over(now),
            WaitVerdictView::ShowTail(count) => wait.over(now) && limit == Some(count),
            WaitVerdictView::Shown(reply) => wait.over(now) && limit is None && reply
                == read_output::read_reply(plan, wait.stdout, wait.stderr),
        },
{
    let next = read_output::stepped(wait, stdout, stderr, now);
    assert(next.stdout =~= wait.stdout + stdout.0);
    if stderr is Some {
        assert(next.stderr =~= wait.stderr + stderr.unwrap().0);
    }
}

/// How far the output of a process was read is taken down for that process and
/// for no other, and nothing else of it changes; a process without error output
/// gets no place in it. A read with a limit takes nothing down.
pub proof fn progress_is_taken_down(
    table: Seq<(Seq<char>, ProcessView)>,
    id: Seq<char>,
    wait: ReadWaitView,
    limit: Option<usize>,
    stdout_pos: u64,
    stderr_pos: Option<u64>,
)
    requires
        process::entries_distinct(table),
    ensures
        ({
            let next = read_output::recorded(table, id, stdout_pos, stderr_pos);
            &&& process::entries_distinct(next)
            &&& forall|other: Seq<char>|
                other != id ==> #[trigger] process::process_of(next, other) == process::process_of(
                    table,
                    other,
                )
            &&& process::process_of(next, id) == (match process::process_of(table, id) {
                Some(p) => Some(
                    ProcessView {
                        stdout_pos,
                        stderr_pos: if p.stderr_pos is Some && stderr_pos is Some {
                            stderr_pos
                        } else {
                            p.stderr_pos
                        },
                        ..p
                    },
                ),
                None => None,
            })
        }),
        limit is Some ==> read_output::after_round(table, id, wait, limit) == table,
        limit is None ==> read_output::after_round(table, id, wait, limit) == read_output::recorded(
            table,
            id,
            wait.stdout_pos,
            wait.stderr_pos,
        ),
{
    if let Some(p) = process::process_of(table, id) {
        process::put_process_is_found(table, id, p.read_to(stdout_pos, stderr_pos));
    }
}

// ── Logs ──────────────────────────────────────────────────────────────

/// A read gives the bytes of a log from its place on, and the next read starts
/// at the end of the log; where the log ends before that place, nothing is
/// given and the place stays.
pub proof fn reads_go_to_the_end(log: Seq<u8>, pos: u64)
    requires
        log.len() <= u64::MAX,
    ensures
        pos <= log.len() ==> {
            &&& log.take(pos as int) + process::unread(log, pos) == log
            &&& process::next_pos(pos, log.len() as u64) == log.len()
        },
        pos > log.len() ==> {
            &&& process::unread(log, pos).len() == 0
            &&& process::next_pos(pos, log.len() as u64) == pos
        },
        process::text_read(log, pos) == (
            decode_utf8(process::unread(log, pos)),
            process::next_pos(pos, log.len() as u64),
        ),
{
    if pos <= log.len() {
        assert(log.take(pos as int) + process::unread(log, pos) =~= log);
    }
}

// ── Watching ──────────────────────────────────────────────────────────

/// A watch reacts to a line exactly if the line shows the pattern and none
/// before did.
pub proof fn watch_reacts_once(w: PatternWatchView, line: Seq<char>)
    ensures
        w.hit(line) <==> !w.fired && (w.pattern matches Some(p) && showing::shows(line, p)),
        w.after(line).fired <==> w.fired || w.hit(line),
        w.after(line).pattern == w.pattern,
{
    if let Some(p) = w.pattern {
        text_laws::occurring_is_standing_inside(line, p);
    }
}

} // verus!
