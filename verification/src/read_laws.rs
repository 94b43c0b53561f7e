//! What reads of the output of a process give, one after the other.
use crate::output::ReadWaitView;
use crate::process;
use crate::process::ProcessView;
use crate::read_output;
use crate::read_output::{ReadArgumentsView, ReadModeView};
use crate::time::Moment;
use vstd::prelude::*;
use vstd::utf8::*;

verus! {

/// A round of reading: what the two logs hold when they are read, and when
/// that is.
#[verifier::ext_equal]
pub struct RoundView {
    pub stdout: Seq<u8>,
    pub stderr: Seq<u8>,
    pub at: Moment,
}

/// A reader after rounds of reading.
pub open spec fn after_rounds(wait: ReadWaitView, rounds: Seq<RoundView>) -> ReadWaitView
    decreases rounds.len(),
{
    if rounds.len() == 0 {
        wait
    } else {
        let before = after_rounds(wait, rounds.drop_last());
        let round = rounds.last();
        read_output::stepped(
            before,
            process::text_read(round.stdout, before.stdout_pos),
            match before.stderr_pos {
                Some(pos) => Some(process::text_read(round.stderr, pos)),
                None => None,
            },
            round.at,
        )
    }
}

/// From round to round the logs only grow.
pub open spec fn logs_grow(rounds: Seq<RoundView>) -> bool {
    forall|i: int, j: int|
        0 <= i <= j < rounds.len() ==> {
            &&& process::grown((#[trigger] rounds[i]).stdout, (#[trigger] rounds[j]).stdout)
            &&& process::grown(rounds[i].stderr, rounds[j].stderr)
        }
}

/// Whenever the logs are read, what they hold from these positions on is UTF-8
/// that ends with a whole character.
pub open spec fn whole_characters(
    rounds: Seq<RoundView>,
    stdout_pos: u64,
    stderr_pos: Option<u64>,
) -> bool {
    forall|i: int|
        0 <= i < rounds.len() ==> {
            &&& valid_utf8(process::unread((#[trigger] rounds[i]).stdout, stdout_pos))
            &&& stderr_pos matches Some(pos) ==> valid_utf8(
                process::unread(rounds[i].stderr, pos),
            )
        }
}

// ── Bytes and text ────────────────────────────────────────────────────

/// UTF-8 that follows UTF-8 is decoded on its own.
pub proof fn text_is_decoded_in_pieces(a: Seq<u8>, b: Seq<u8>)
    requires
        valid_utf8(a),
        valid_utf8(b),
    ensures
        valid_utf8(a + b),
        decode_utf8(a + b) == decode_utf8(a) + decode_utf8(b),
    decreases a.len(),
{
    valid_utf8_concat(a, b);
    if a.len() == 0 {
        assert(a + b =~= b);
    } else {
        let rest = pop_first_scalar(a);
        text_is_decoded_in_pieces(rest, b);
        assert(pop_first_scalar(a + b) =~= rest + b);
        assert(decode_first_scalar(a + b) == decode_first_scalar(a));
    }
}

/// Where all of it and a first part are UTF-8, so is the rest.
proof fn rest_is_utf8(a: Seq<u8>, b: Seq<u8>)
    requires
        valid_utf8(a),
        valid_utf8(a + b),
    ensures
        valid_utf8(b),
{
    let all = a + b;
    let i = a.len() as int;
    assert(all.subrange(0, i) =~= a);
    assert(all.subrange(i, all.len() as int) =~= b);
    if !valid_utf8(b) {
        partial_valid_partial_invalid_utf8(all, i);
    }
}

/// What a log in UTF-8 held, read on from there once it has grown, is read in
/// all.
pub proof fn texts_are_seamless(before: Seq<u8>, after: Seq<u8>, pos: u64)
    requires
        process::grown(before, after),
        valid_utf8(process::unread(before, pos)),
        valid_utf8(process::unread(after, pos)),
    ensures
        ({
            let first = process::text_read(before, pos);
            let second = process::text_read(after, first.1);
            &&& valid_utf8(process::unread(after, first.1))
            &&& (first.0 + second.0, second.1) == process::text_read(after, pos)
            &&& second.0.len() == 0 ==> second.1 == first.1
        }),
{
    let first = process::text_read(before, pos);
    let old_part = process::unread(before, pos);
    let new_part = process::unread(after, first.1);
    process::reads_are_seamless(before, after, pos);
    rest_is_utf8(old_part, new_part);
    text_is_decoded_in_pieces(old_part, new_part);
}

// ── Reads that wait ───────────────────────────────────────────────────

/// What a reader that waits has got after its rounds is what the logs held in
/// the last of them from where it started on, and it has read up to there.
pub proof fn waiting_misses_nothing(wait: ReadWaitView, rounds: Seq<RoundView>)
    requires
        wait.stdout.len() == 0,
        wait.stderr.len() == 0,
        rounds.len() > 0,
        logs_grow(rounds),
        whole_characters(rounds, wait.stdout_pos, wait.stderr_pos),
    ensures
        ({
            let done = after_rounds(wait, rounds);
            let end = rounds.last();
            &&& (done.stdout, done.stdout_pos) == process::text_read(end.stdout, wait.stdout_pos)
            &&& match wait.stderr_pos {
                Some(pos) => {
                    let (text, to) = process::text_read(end.stderr, pos);
                    done.stderr == text && done.stderr_pos == Some(to)
                },
                None => done.stderr.len() == 0 && done.stderr_pos is None,
            }
            &&& done.pattern == wait.pattern
            &&& done.running == wait.running
            &&& done.deadline == wait.deadline
        }),
    decreases rounds.len(),
{
    let earlier = rounds.drop_last();
    let end = rounds.last();
    let before = after_rounds(wait, earlier);
    assert(rounds[rounds.len() - 1] == end);
    if earlier.len() == 0 {
        assert(before == wait);
    } else {
        let last = earlier.last();
        assert(rounds[rounds.len() - 2] == last);
        assert forall|i: int| 0 <= i < earlier.len() implies earlier[i] == rounds[i] by {}
        assert(logs_grow(earlier));
        assert(whole_characters(earlier, wait.stdout_pos, wait.stderr_pos));
        waiting_misses_nothing(wait, earlier);
        texts_are_seamless(last.stdout, end.stdout, wait.stdout_pos);
        if let Some(pos) = wait.stderr_pos {
            texts_are_seamless(last.stderr, end.stderr, pos);
        }
    }
}

// ── One read after another ────────────────────────────────────────────

/// What a read gives: the two texts, and up to where it has read.
#[verifier::ext_equal]
pub struct ReadView {
    pub stdout: Seq<char>,
    pub stderr: Seq<char>,
    pub stdout_pos: u64,
    pub stderr_pos: Option<u64>,
}

/// What the logs hold from these positions on.
pub open spec fn all_from(round: RoundView, stdout_pos: u64, stderr_pos: Option<u64>) -> ReadView {
    ReadView {
        stdout: process::text_read(round.stdout, stdout_pos).0,
        stderr: match stderr_pos {
            Some(pos) => process::text_read(round.stderr, pos).0,
            None => Seq::empty(),
        },
        stdout_pos: process::text_read(round.stdout, stdout_pos).1,
        stderr_pos: match stderr_pos {
            Some(pos) => Some(process::text_read(round.stderr, pos).1),
            None => None,
        },
    }
}

/// What a read without a limit gives: one that waits, what its reader has got
/// after all the rounds; any other, what one round gives.
pub open spec fn read_in(mode: ReadModeView, rounds: Seq<RoundView>) -> ReadView {
    match mode {
        ReadModeView::Wait { wait, .. } => {
            let done = after_rounds(wait, rounds);
            ReadView {
                stdout: done.stdout,
                stderr: done.stderr,
                stdout_pos: done.stdout_pos,
                stderr_pos: done.stderr_pos,
            }
        },
        ReadModeView::Increment { stdout_pos, stderr_pos } => all_from(
            rounds.last(),
            stdout_pos,
            stderr_pos,
        ),
        ReadModeView::Tail(_) => all_from(rounds.last(), 0, None),
    }
}

/// The processes once each round of a read without a limit was recorded.
pub open spec fn rounds_recorded(
    table: Seq<(Seq<char>, ProcessView)>,
    id: Seq<char>,
    mode: ReadModeView,
    rounds: Seq<RoundView>,
) -> Seq<(Seq<char>, ProcessView)>
    decreases rounds.len(),
{
    match mode {
        ReadModeView::Wait { wait, limit } => if rounds.len() == 0 {
            table
        } else {
            read_output::after_round(
                rounds_recorded(table, id, mode, rounds.drop_last()),
                id,
                after_rounds(wait, rounds),
                limit,
            )
        },
        ReadModeView::Increment { .. } => read_output::recorded(
            table,
            id,
            read_in(mode, rounds).stdout_pos,
            read_in(mode, rounds).stderr_pos,
        ),
        ReadModeView::Tail(_) => table,
    }
}

/// How far the output was read is what was recorded last.
pub proof fn the_last_record_counts(
    table: Seq<(Seq<char>, ProcessView)>,
    id: Seq<char>,
    first: (u64, Option<u64>),
    second: (u64, Option<u64>),
)
    requires
        process::entries_distinct(table),
        first.1 is Some ==> second.1 is Some,
    ensures
        read_output::recorded(
            read_output::recorded(table, id, first.0, first.1),
            id,
            second.0,
            second.1,
        ) == read_output::recorded(table, id, second.0, second.1),
{
    if let Some(p) = process::process_of(table, id) {
        let between = read_output::recorded(table, id, first.0, first.1);
        let at = process::entry_of(table, id);
        assert(process::listed(table, id, at));
        process::put_process_is_found(table, id, p.read_to(first.0, first.1));
        assert(process::listed(between, id, at));
        process::entry_is_unique(between, id, at);
        assert(p.read_to(first.0, first.1).read_to(second.0, second.1) == p.read_to(
            second.0,
            second.1,
        ));
    }
}

/// The rounds of waiting come to one record of how far they have read.
proof fn rounds_record_where_they_end(
    table: Seq<(Seq<char>, ProcessView)>,
    id: Seq<char>,
    wait: ReadWaitView,
    rounds: Seq<RoundView>,
)
    requires
        process::entries_distinct(table),
        rounds.len() > 0,
    ensures
        ({
            let mode = ReadModeView::Wait { wait, limit: None };
            let done = after_rounds(wait, rounds);
            &&& rounds_recorded(table, id, mode, rounds) == read_output::recorded(
                table,
                id,
                done.stdout_pos,
                done.stderr_pos,
            )
            &&& done.stderr_pos is Some == wait.stderr_pos is Some
        }),
    decreases rounds.len(),
{
    let mode = ReadModeView::Wait { wait, limit: None };
    let earlier = rounds.drop_last();
    let before = after_rounds(wait, earlier);
    let done = after_rounds(wait, rounds);
    if earlier.len() > 0 {
        rounds_record_where_they_end(table, id, wait, earlier);
        the_last_record_counts(
            table,
            id,
            (before.stdout_pos, before.stderr_pos),
            (done.stdout_pos, done.stderr_pos),
        );
    } else {
        assert(rounds_recorded(table, id, mode, earlier) == table);
    }
}

/// A read without a limit, waited for or not, gives what the logs hold in its
/// last round from where the last read ended, and takes down that it has read
/// up to there. What a read that waits shows in the end is just that.
pub proof fn a_read_gives_all_since_the_last(
    table: Seq<(Seq<char>, ProcessView)>,
    a: ReadArgumentsView,
    rounds: Seq<RoundView>,
    now: Moment,
)
    requires
        process::entries_distinct(table),
        a.task_id is Some,
        a.limit_lines is None,
        process::process_of(table, a.task_id.unwrap()) is Some,
        rounds.len() > 0,
        logs_grow(rounds),
        ({
            let p = process::process_of(table, a.task_id.unwrap()).unwrap();
            whole_characters(rounds, p.stdout_pos, p.stderr_pos)
        }),
    ensures
        ({
            let id = a.task_id.unwrap();
            let p = process::process_of(table, id).unwrap();
            let all = all_from(rounds.last(), p.stdout_pos, p.stderr_pos);
            read_output::read_planned(table, a, now) matches Ok(plan) && {
                &&& read_in(plan.mode, rounds) == all
                &&& rounds_recorded(table, id, plan.mode, rounds) == read_output::recorded(
                    table,
                    id,
                    all.stdout_pos,
                    all.stderr_pos,
                )
                &&& plan.mode matches ReadModeView::Wait { wait, limit } ==> limit is None
                    && forall|later: Moment|
                    after_rounds(wait, rounds).over(later)
                        ==> #[trigger] read_output::round_verdict(
                        plan,
                        after_rounds(wait, rounds),
                        limit,
                        later,
                    ) == read_output::WaitVerdictView::Shown(
                        read_output::read_reply(plan, all.stdout, all.stderr),
                    )
            }
        }),
{
    let id = a.task_id.unwrap();
    let p = process::process_of(table, id).unwrap();
    if let ReadModeView::Wait { wait, .. } = read_output::mode_for(p, a, now) {
        waiting_misses_nothing(wait, rounds);
        rounds_record_where_they_end(table, id, wait, rounds);
        assert(read_in(read_output::mode_for(p, a, now), rounds) =~= all_from(
            rounds.last(),
            p.stdout_pos,
            p.stderr_pos,
        ));
    }
}

/// Two reads without a limit, one after the other and each waited for or not,
/// give together what the logs hold in the end from where the first started:
/// nothing is left out and nothing comes twice. How far the output was read
/// never goes back.
pub proof fn reads_follow_on(
    table: Seq<(Seq<char>, ProcessView)>,
    a: ReadArgumentsView,
    rounds: Seq<RoundView>,
    now: Moment,
    b: ReadArgumentsView,
    more: Seq<RoundView>,
    later: Moment,
)
    requires
        process::entries_distinct(table),
        a.task_id is Some,
        b.task_id == a.task_id,
        a.limit_lines is None,
        b.limit_lines is None,
        process::process_of(table, a.task_id.unwrap()) is Some,
        rounds.len() > 0,
        more.len() > 0,
        logs_grow(rounds + more),
        ({
            let p = process::process_of(table, a.task_id.unwrap()).unwrap();
            whole_characters(rounds + more, p.stdout_pos, p.stderr_pos)
        }),
    ensures
        ({
            let id = a.task_id.unwrap();
            let p = process::process_of(table, id).unwrap();
            let all = all_from(more.last(), p.stdout_pos, p.stderr_pos);
            read_output::read_planned(table, a, now) matches Ok(one) && {
                let first = read_in(one.mode, rounds);
                let between = rounds_recorded(table, id, one.mode, rounds);
                read_output::read_planned(between, b, later) matches Ok(two) && {
                    let second = read_in(two.mode, more);
                    &&& first.stdout + second.stdout == all.stdout
                    &&& first.stderr + second.stderr == all.stderr
                    &&& p.stdout_pos <= first.stdout_pos <= second.stdout_pos
                    &&& p.stderr_pos matches Some(pos) ==> pos <= first.stderr_pos.unwrap()
                        <= second.stderr_pos.unwrap()
                    &&& rounds_recorded(between, id, two.mode, more) == read_output::recorded(
                        table,
                        id,
                        all.stdout_pos,
                        all.stderr_pos,
                    )
                }
            }
        }),
{
    let id = a.task_id.unwrap();
    let p = process::process_of(table, id).unwrap();
    let both = rounds + more;
    assert forall|i: int| 0 <= i < rounds.len() implies rounds[i] == both[i] by {}
    assert forall|i: int| 0 <= i < more.len() implies more[i] == both[i + rounds.len()] by {}
    assert(logs_grow(rounds));
    assert(whole_characters(rounds, p.stdout_pos, p.stderr_pos));
    a_read_gives_all_since_the_last(table, a, rounds, now);
    let first = all_from(rounds.last(), p.stdout_pos, p.stderr_pos);
    let between = read_output::recorded(table, id, first.stdout_pos, first.stderr_pos);
    process::put_process_is_found(table, id, p.read_to(first.stdout_pos, first.stderr_pos));
    assert(rounds.last() == both[rounds.len() - 1]);
    assert forall|i: int| 0 <= i < more.len() implies {
        &&& valid_utf8(process::unread((#[trigger] more[i]).stdout, first.stdout_pos))
        &&& first.stderr_pos matches Some(pos) ==> valid_utf8(
            process::unread(more[i].stderr, pos),
        )
    } by {
        assert(more[i] == both[i + rounds.len()]);
        texts_are_seamless(rounds.last().stdout, more[i].stdout, p.stdout_pos);
        if let Some(pos) = p.stderr_pos {
            texts_are_seamless(rounds.last().stderr, more[i].stderr, pos);
        }
    }
    assert(logs_grow(more)) by {
        assert forall|i: int, j: int| 0 <= i <= j < more.len() implies {
            &&& process::grown((#[trigger] more[i]).stdout, (#[trigger] more[j]).stdout)
            &&& process::grown(more[i].stderr, more[j].stderr)
        } by {
            assert(more[i] == both[i + rounds.len()]);
            assert(more[j] == both[j + rounds.len()]);
        }
    }
    a_read_gives_all_since_the_last(between, b, more, later);
    let second = all_from(more.last(), first.stdout_pos, first.stderr_pos);
    assert(more.last() == both[both.len() - 1]);
    texts_are_seamless(rounds.last().stdout, more.last().stdout, p.stdout_pos);
    if let Some(pos) = p.stderr_pos {
        texts_are_seamless(rounds.last().stderr, more.last().stderr, pos);
    }
    the_last_record_counts(
        table,
        id,
        (first.stdout_pos, first.stderr_pos),
        (second.stdout_pos, second.stderr_pos),
    );
}

} // verus!
