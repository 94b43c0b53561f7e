//! What the operations on processes, lines and durations promise.
use crate::duration;
use crate::duration::DurationReading;
use crate::lines;
use crate::lines::LineCutter;
use crate::output;
use crate::output::{PatternWatch, ReadWait};
use crate::output_laws;
use crate::outside;
use crate::process;
use crate::process::{ManagedProcess, ProcessTable, ProcessView};
use crate::send_input;
use crate::send_input::Signal;
use crate::send_laws;
use crate::showing;
use crate::start_task;
use crate::text;
use crate::time::{Moment, Span};
use crate::tools;
use crate::tools::ToolSpec;
use vstd::prelude::*;
use vstd::string::*;
use vstd::utf8::*;

verus! {

// ── Processes ─────────────────────────────────────────────────────────

/// No other process differs.
pub open spec fn others_stay(before: ProcessTable, after: ProcessTable, id: Seq<char>) -> bool {
    forall|other: Seq<char>|
        other != id ==> #[trigger] process::process_of(after@, other) == process::process_of(
            before@,
            other,
        )
}

/// What is put into the table is found there; what is taken out is handed out
/// and gone; no other process differs.
pub proof fn tables_keep_processes(
    table: &mut ProcessTable,
    id: String,
    p: ManagedProcess,
    name: &str,
    r: Option<ManagedProcess>,
)
    requires
        old(table).wf(),
    ensures
        call_ensures(ProcessTable::insert, (table, id, p), ()) ==> process::process_of(
            final(table)@,
            id@,
        ) == Some(p@) && others_stay(*old(table), *final(table), id@),
        call_ensures(ProcessTable::remove, (table, name), r) ==> {
            &&& process::process_of(final(table)@, name@) is None
            &&& others_stay(*old(table), *final(table), name@)
            &&& match process::process_of(old(table)@, name@) {
                Some(q) => r matches Some(found) && found@ == q,
                None => r is None,
            }
        },
{
    process::put_process_is_found(old(table)@, id@, p@);
    process::removed_process_is_gone(old(table)@, name@);
}

/// What is found in the table is what is kept there.
pub proof fn tables_find_processes(table: &ProcessTable, id: &str, r: Option<&ManagedProcess>)
    requires
        call_ensures(ProcessTable::get, (table, id), r),
    ensures
        match process::process_of(table@, id@) {
            Some(q) => r matches Some(found) && found@ == q,
            None => r is None,
        },
{
}

/// What is taken down of a process changes that of it, and no other process:
/// which process runs, how far its output was read, that its input was closed.
pub proof fn tables_take_down(
    table: &mut ProcessTable,
    id: &str,
    running: Option<u32>,
    stdout_to: u64,
    stderr_to: Option<u64>,
)
    requires
        old(table).wf(),
    ensures
        call_ensures(ProcessTable::set_child_id, (table, id, running), ()) ==> {
            &&& others_stay(*old(table), *final(table), id@)
            &&& process::process_of(final(table)@, id@) == (match process::process_of(
                old(table)@,
                id@,
            ) {
                Some(p) => Some(ProcessView { child_id: running, ..p }),
                None => None,
            })
        },
        call_ensures(ProcessTable::record_offsets, (table, id, stdout_to, stderr_to), ()) ==> {
            &&& others_stay(*old(table), *final(table), id@)
            &&& process::process_of(final(table)@, id@) == (match process::process_of(
                old(table)@,
                id@,
            ) {
                Some(p) => Some(
                    ProcessView {
                        stdout_pos: stdout_to,
                        stderr_pos: if p.stderr_pos is Some && stderr_to is Some {
                            stderr_to
                        } else {
                            p.stderr_pos
                        },
                        ..p
                    },
                ),
                None => None,
            })
        },
        call_ensures(ProcessTable::stdin_closed, (table, id), ()) ==> {
            &&& others_stay(*old(table), *final(table), id@)
            &&& match process::process_of(old(table)@, id@) {
                Some(p) => process::process_of(final(table)@, id@) matches Some(q) && {
                    &&& !p.pty ==> !q.stdin_open
                    &&& q == (ProcessView { stdin_open: q.stdin_open, ..p })
                },
                None => process::process_of(final(table)@, id@) is None,
            }
        },
{
    if let Some(p) = process::process_of(old(table)@, id@) {
        process::put_process_is_found(
            old(table)@,
            id@,
            ProcessView { child_id: running, ..p },
        );
        process::put_process_is_found(old(table)@, id@, p.read_to(stdout_to, stderr_to));
        process::put_process_is_found(old(table)@, id@, p.input_closed());
    }
}

/// All processes are handed out, in the order in which they are kept, and none
/// is kept then.
pub proof fn tables_are_drained(table: &mut ProcessTable, r: Vec<ManagedProcess>)
    requires
        call_ensures(ProcessTable::drain, (table,), r),
    ensures
        final(table)@.len() == 0,
        r@.len() == old(table)@.len(),
        forall|i: int| 0 <= i < r@.len() ==> (#[trigger] r@[i])@ == old(table)@[i].1,
{
    let seen = r@.map_values(|p: ManagedProcess| p@);
    assert(seen.len() == r@.len());
    assert forall|i: int| 0 <= i < r@.len() implies (#[trigger] r@[i])@ == old(table)@[i].1 by {
        assert(seen[i] == r@[i]@);
    }
}

/// A read of a log from a position gives the text of the rest of it, and the
/// next read starts at its end; where there is no more, nothing is given and the
/// position stays.
pub proof fn logs_are_read_on(pos: u64, size: u64, data: &[u8], r: (String, u64))
    requires
        call_ensures(process::read_from_position, (pos, size, data), r),
    ensures
        pos < size ==> r.0@ == outside::utf8_lossy(data@) && r.1 == size,
        pos < size && valid_utf8(data@) ==> r.0@ == decode_utf8(data@),
        pos >= size ==> r.0@.len() == 0 && r.1 == pos,
{
}

// ── Output ────────────────────────────────────────────────────────────

/// What is shown is both outputs and where they are kept.
pub proof fn outputs_are_formatted(
    stdout: &str,
    stderr: &str,
    stdout_path: &str,
    stderr_path: &Option<String>,
    shown: String,
    strip_ansi: bool,
    left: String,
)
    ensures
        call_ensures(output::format_output, (stdout, stderr, stdout_path, stderr_path), shown)
            ==> shown@ == output::formatted(
            stdout@,
            stderr@,
            stdout_path@,
            text::opt_text(*stderr_path),
        ),
        call_ensures(output::plain_output, (stdout, strip_ansi), left) ==> left@ == (
        if strip_ansi {
            outside::utf8_lossy(outside::ansi_stripped(encode_utf8(stdout@)))
        } else {
            stdout@
        }),
{
}

/// A reader hears what comes, and waits until it waits no longer.
pub proof fn readers_hear_and_wait(
    wait: &mut ReadWait,
    chunk: &str,
    pos: u64,
    now: Moment,
)
    ensures
        call_ensures(ReadWait::hear_stdout, (wait, chunk, pos, now), ()) ==> {
            &&& final(wait).stdout@ == old(wait).stdout@ + chunk@
            &&& final(wait).stderr@ == old(wait).stderr@
            &&& final(wait).stdout_pos == (if chunk@.len() > 0 {
                pos
            } else {
                old(wait).stdout_pos
            })
            &&& final(wait).stderr_pos == old(wait).stderr_pos
        },
        call_ensures(ReadWait::hear_stderr, (wait, chunk, pos, now), ()) ==> {
            &&& final(wait).stderr@ == old(wait).stderr@ + chunk@
            &&& final(wait).stdout@ == old(wait).stdout@
            &&& final(wait).stderr_pos == (if chunk@.len() > 0 {
                Some(pos)
            } else {
                old(wait).stderr_pos
            })
            &&& final(wait).stdout_pos == old(wait).stdout_pos
        },
{
    output_laws::what_comes_is_added(old(wait)@, chunk@, pos, now);
    assert(final(wait)@.stdout == final(wait).stdout@);
    assert(final(wait)@.stderr == final(wait).stderr@);
    if chunk@.len() == 0 {
        assert(old(wait).stdout@ + chunk@ =~= old(wait).stdout@);
        assert(old(wait).stderr@ + chunk@ =~= old(wait).stderr@);
    }
}

/// Whether a reader waits no longer.
pub proof fn readers_know_when(wait: &ReadWait, now: Moment, r: bool)
    requires
        call_ensures(ReadWait::is_over, (wait, now), r),
    ensures
        r <==> {
            ||| wait.pattern matches Some(p) && (showing::shows(wait.stdout@, p@) || showing::shows(
                wait.stderr@,
                p@,
            ))
            ||| !wait.running
            ||| now.reached(wait.deadline)
            ||| wait.pattern is None && (wait.stdout@.len() > 0 || wait.stderr@.len() > 0)
                && now.since(wait.idle_since).nanos >= 300_000_000
        },
{
    output_laws::reader_waits_until(wait@, now);
}

/// A watch gives its pattern for the first line that shows it, and for no other.
pub proof fn watches_observe(watch: &mut PatternWatch, line: &str, r: Option<String>)
    requires
        call_ensures(PatternWatch::observe, (watch, line), r),
    ensures
        r is Some <==> !old(watch).fired && (old(watch).pattern matches Some(p) && showing::shows(
            line@,
            p@,
        )),
        r matches Some(found) ==> found@ == old(watch).pattern.unwrap()@,
        final(watch).fired <==> old(watch).fired || r is Some,
        text::opt_text(final(watch).pattern) == text::opt_text(old(watch).pattern),
{
    output_laws::watch_reacts_once(old(watch)@, line@);
    assert(final(watch)@.fired == final(watch).fired);
}

// ── Lines and durations ───────────────────────────────────────────────

/// The lines of a text, and the last of them.
pub proof fn lines_are_given(content: &str, count: usize, all: Vec<String>, last: String)
    ensures
        call_ensures(lines::lines, (content,), all) ==> text::texts(all@) == lines::lines_of(
            content@,
        ),
        call_ensures(lines::tail_lines, (content, count), last) ==> last@ == lines::tail(
            content@,
            count as nat,
        ),
{
}

/// A stream is cut at its line feeds, however it comes in.
pub proof fn streams_are_cut(cutter: &mut LineCutter, chunk: &str, bytes: &[u8], r: Vec<String>)
    ensures
        call_ensures(LineCutter::feed, (cutter, chunk), r) ==> (text::texts(r@), final(cutter)@)
            == lines::cut(old(cutter)@ + chunk@, Seq::empty()),
        call_ensures(LineCutter::feed_bytes, (cutter, bytes), r) ==> (
            text::texts(r@),
            final(cutter)@,
        ) == lines::cut(old(cutter)@ + outside::utf8_lossy(bytes@), Seq::empty()),
{
}

/// Durations are read and written.
pub proof fn durations_are_read_and_written(
    s: &str,
    d: Span,
    reading: DurationReading,
    read: Result<Span, String>,
    written: String,
)
    ensures
        call_ensures(duration::examine_duration, (s,), reading) ==> reading
            == duration::duration_reading(s@),
        call_ensures(duration::parse_duration, (s,), read) ==> match read {
            Ok(span) => duration::duration_of(s@) == Ok::<_, Seq<char>>(span),
            Err(e) => duration::duration_of(s@) == Err::<Span, _>(e@),
        },
        call_ensures(duration::format_duration, (d,), written) ==> written@ == duration::span_text(
            d,
        ),
{
}

/// A command is described as it is, or by its beginning.
pub proof fn commands_are_abbreviated(command: &str, r: String)
    requires
        call_ensures(start_task::abbreviate, (command,), r),
    ensures
        encode_utf8(command@).len() <= 60 ==> r@ == command@,
        encode_utf8(command@).len() > 60 && command@.len() >= 60 ==> r@ == command@.take(60)
            + "..."@,
        encode_utf8(command@).len() > 60 && command@.len() < 60 ==> r@ == command@ + "..."@,
{
    assert(command@.take(command@.len() as int) =~= command@);
}

/// Signals are known by their names.
pub proof fn signals_are_parsed(name: &str, r: Option<Signal>, signal: Signal)
    ensures
        call_ensures(send_input::signal_named, (name,), r) ==> (r == Some(signal) <==> name@
            == send_laws::name_of(signal)),
        call_ensures(send_input::parse_signal, (name,), r) ==> (r == Some(signal)
            <==> outside::uppercased(name@) == send_laws::name_of(signal)),
{
    send_laws::signals_are_called_by_name(name@, signal);
    send_laws::signals_are_called_by_name(outside::uppercased(name@), signal);
}

/// The tools that are offered.
pub proof fn tools_are_offered(r: Vec<ToolSpec>)
    ensures
        call_ensures(tools::task_tools, (), r) ==> tools::tool_views(r@)
            == tools::task_tools_offered(),
        call_ensures(tools::process_tools, (), r) ==> tools::tool_views(r@)
            == tools::process_tools_offered(),
{
}

} // verus!
