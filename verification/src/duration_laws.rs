//! What holds of durations in words.
use crate::duration;
use crate::duration::DurationReading;
use crate::text;
use crate::time::Span;
use vstd::prelude::*;
use vstd::string::*;

verus! {

/// All characters are white space.
pub open spec fn is_blank(s: Seq<char>) -> bool {
    forall|i: int| 0 <= i < s.len() ==> duration::is_space(#[trigger] s[i])
}

/// White space is what Unicode calls so: the tab, the line ends, the blanks of
/// every width, and no letter, digit or dot.
pub proof fn white_space_is_known(c: char)
    ensures
        duration::is_space(c) <==> {
            ||| 0x9 <= c as u32 <= 0xd
            ||| c as u32 == 0x20
            ||| c as u32 == 0x85
            ||| c as u32 == 0xa0
            ||| c as u32 == 0x1680
            ||| 0x2000 <= c as u32 <= 0x200a
            ||| c as u32 == 0x2028
            ||| c as u32 == 0x2029
            ||| c as u32 == 0x202f
            ||| c as u32 == 0x205f
            ||| c as u32 == 0x3000
        },
        '0' <= c <= '9' || 'a' <= c <= 'z' || 'A' <= c <= 'Z' || c == '.' || c == '-'
            ==> !duration::is_space(c),
{
}

proof fn leading_is_blank(s: Seq<char>) -> (lead: Seq<char>)
    ensures
        s == lead + duration::without_leading(s),
        is_blank(lead),
        duration::without_leading(s).len() > 0 ==> !duration::is_space(
            duration::without_leading(s)[0],
        ),
    decreases s.len(),
{
    if s.len() > 0 && duration::is_space(s[0]) {
        let more = leading_is_blank(s.drop_first());
        let lead = seq![s[0]] + more;
        assert(s =~= seq![s[0]] + s.drop_first());
        assert(s =~= lead + duration::without_leading(s));
        lead
    } else {
        let none = Seq::<char>::empty();
        assert(s =~= none + s);
        none
    }
}

proof fn trailing_is_blank(s: Seq<char>) -> (trail: Seq<char>)
    ensures
        s == duration::without_trailing(s) + trail,
        is_blank(trail),
        duration::without_trailing(s).len() > 0 ==> !duration::is_space(
            duration::without_trailing(s).last(),
        ) && duration::without_trailing(s)[0] == s[0],
    decreases s.len(),
{
    if s.len() > 0 && duration::is_space(s.last()) {
        let more = trailing_is_blank(s.drop_last());
        let trail = more.push(s.last());
        assert(s =~= s.drop_last().push(s.last()));
        assert(s =~= duration::without_trailing(s) + trail);
        trail
    } else {
        let none = Seq::<char>::empty();
        assert(s =~= s + none);
        none
    }
}

/// The text is `lead`, then `inner`, then `trail`.
pub open spec fn wraps(s: Seq<char>, lead: Seq<char>, inner: Seq<char>, trail: Seq<char>) -> bool {
    s == lead + inner + trail
}

/// Trimming takes white space off both ends and nothing else: what is left
/// neither starts nor ends with any.
pub proof fn trimming_takes_white_space_off(s: Seq<char>)
    ensures
        exists|lead: Seq<char>, trail: Seq<char>|
            is_blank(lead) && is_blank(trail) && #[trigger] wraps(
                s,
                lead,
                duration::trimmed(s),
                trail,
            ),
        duration::trimmed(s).len() > 0 ==> !duration::is_space(duration::trimmed(s)[0])
            && !duration::is_space(duration::trimmed(s).last()),
{
    let lead = leading_is_blank(s);
    let trail = trailing_is_blank(duration::without_leading(s));
    assert(s =~= lead + duration::trimmed(s) + trail);
    assert(wraps(s, lead, duration::trimmed(s), trail));
}

proof fn digits_gather(s: Seq<char>, rest: Seq<char>, digits: Seq<char>, total: nat)
    requires
        forall|i: int| 0 <= i < s.len() ==> text::is_digit(#[trigger] s[i]),
    ensures
        duration::reading(s + rest, digits, total) == duration::reading(rest, digits + s, total),
    decreases s.len(),
{
    if s.len() == 0 {
        assert(s + rest =~= rest);
        assert(digits + s =~= digits);
    } else {
        assert((s + rest).drop_first() =~= s.drop_first() + rest);
        assert((s + rest)[0] == s[0]);
        digits_gather(s.drop_first(), rest, digits.push(s[0]), total);
        assert(digits.push(s[0]) + s.drop_first() =~= digits + s);
    }
}

proof fn number_is_trimmed(n: nat, unit: Seq<char>)
    requires
        unit.len() <= 1,
        unit.len() == 1 ==> !duration::is_space(unit[0]),
    ensures
        duration::trimmed(text::decimal_text(n) + unit) == text::decimal_text(n) + unit,
        duration::duration_reading(text::decimal_text(n) + unit) == duration::reading(
            unit,
            text::decimal_text(n),
            0,
        ),
{
    let digits = text::decimal_text(n);
    let s = digits + unit;
    text::decimal_reads_back(n);
    assert(text::is_digit(digits[0]));
    assert(s[0] == digits[0]);
    assert(text::is_digit(digits[digits.len() - 1]));
    if unit.len() == 0 {
        assert(s.last() == digits[digits.len() - 1]);
    }
    assert(!duration::is_space(s[0]) && !duration::is_space(s.last()));
    assert(duration::without_leading(s) == s);
    assert(duration::without_trailing(s) == s);
    digits_gather(digits, unit, Seq::empty(), 0);
    assert(Seq::<char>::empty() + digits =~= digits);
}

/// A number counts seconds, with `s` or without a unit; with `m` it counts
/// minutes of 60 seconds, with `h` hours of 3600. Where 64 bits do not hold the
/// seconds, the duration is too long.
pub proof fn units_are_seconds_minutes_and_hours(n: u64)
    ensures
        duration::duration_reading(text::decimal_text(n as nat)) == DurationReading::Seconds(n),
        duration::duration_reading(text::decimal_text(n as nat) + "s"@)
            == DurationReading::Seconds(n),
        duration::duration_reading(text::decimal_text(n as nat) + "m"@) == (if n * 60 <= u64::MAX {
            DurationReading::Seconds((n * 60) as u64)
        } else {
            DurationReading::TooLong
        }),
        duration::duration_reading(text::decimal_text(n as nat) + "h"@) == (if n * 3600
            <= u64::MAX {
            DurationReading::Seconds((n * 3600) as u64)
        } else {
            DurationReading::TooLong
        }),
{
    reveal_strlit("s");
    reveal_strlit("m");
    reveal_strlit("h");
    text::decimal_reads_back(n as nat);
    let digits = text::decimal_text(n as nat);
    assert(digits + Seq::<char>::empty() =~= digits);
    number_is_trimmed(n as nat, Seq::empty());
    number_is_trimmed(n as nat, "s"@);
    number_is_trimmed(n as nat, "m"@);
    number_is_trimmed(n as nat, "h"@);
    assert("s"@.drop_first() =~= Seq::empty());
    assert("m"@.drop_first() =~= Seq::empty());
    assert("h"@.drop_first() =~= Seq::empty());
    assert(text::number_of(digits) * 1 == n);
    assert(duration::reading("s"@, digits, 0) == duration::reading(
        Seq::empty(),
        Seq::empty(),
        n as nat,
    ));
    reveal_with_fuel(duration::reading, 3);
}

/// No other letter is a unit, a unit needs a number, and a number must fit in
/// 64 bits.
pub proof fn other_units_are_refused(n: u64, c: char)
    requires
        c != 's',
        c != 'm',
        c != 'h',
        !text::is_digit(c),
        !duration::is_space(c),
    ensures
        duration::duration_reading(text::decimal_text(n as nat) + seq![c])
            == DurationReading::UnknownUnit(c),
        duration::duration_reading(seq!['s']) == DurationReading::Malformed,
        duration::duration_reading(seq!['m']) == DurationReading::Malformed,
        duration::duration_reading(seq!['h']) == DurationReading::Malformed,
{
    text::decimal_reads_back(n as nat);
    number_is_trimmed(n as nat, seq![c]);
    reveal_with_fuel(duration::reading, 2);
    assert(duration::trimmed(seq!['s']) == seq!['s']);
    assert(duration::trimmed(seq!['m']) == seq!['m']);
    assert(duration::trimmed(seq!['h']) == seq!['h']);
}

/// A number of more than 64 bits is no duration.
pub proof fn large_numbers_are_refused(n: nat)
    requires
        n > u64::MAX,
    ensures
        duration::duration_reading(text::decimal_text(n)) == DurationReading::Malformed,
{
    text::decimal_reads_back(n);
    assert(text::decimal_text(n) + Seq::<char>::empty() =~= text::decimal_text(n));
    number_is_trimmed(n, Seq::empty());
}

/// A duration that can be read is as long as its seconds; what cannot be read
/// is refused with a complaint that shows the text and a unit that is not
/// known, and so is no text at all.
pub proof fn readable_durations_are_exact(s: Seq<char>)
    ensures
        ({
            let t = duration::trimmed(s);
            if t.len() == 0 {
                duration::duration_of(s) == Err::<Span, Seq<char>>("Empty duration string"@)
            } else {
                match duration::duration_reading(s) {
                    DurationReading::Seconds(n) => duration::duration_of(s) matches Ok(span)
                        && span.nanos == n * 1_000_000_000,
                    DurationReading::UnknownUnit(c) => duration::duration_of(s) == Err::<Span, _>(
                        "Unknown duration unit '"@ + seq![c] + "' in: "@ + t,
                    ),
                    DurationReading::Malformed => duration::duration_of(s) == Err::<Span, _>(
                        "Invalid duration: "@ + t,
                    ),
                    DurationReading::TooLong => duration::duration_of(s) is Err,
                }
            }
        }),
{
    if let DurationReading::UnknownUnit(c) = duration::duration_reading(s) {
        assert("Unknown duration unit '"@.push(c) =~= "Unknown duration unit '"@ + seq![c]);
    }
}

// ── Several numbers ───────────────────────────────────────────────────

/// What was counted before is added to what follows, as far as 64 bits hold it.
proof fn counting_goes_on(s: Seq<char>, digits: Seq<char>, total: nat, more: nat)
    requires
        total + more <= u64::MAX,
    ensures
        duration::reading(s, digits, total) matches DurationReading::Seconds(k)
            ==> duration::reading(s, digits, total + more) == (if k + more <= u64::MAX {
            DurationReading::Seconds((k + more) as u64)
        } else {
            DurationReading::TooLong
        }),
        duration::reading(s, digits, total) is Seconds ==> duration::reading(
            s,
            digits,
            total,
        )->Seconds_0 >= total,
    decreases s.len(),
{
    if s.len() > 0 {
        let n = text::number_of(digits);
        if text::is_digit(s[0]) {
            counting_goes_on(s.drop_first(), digits.push(s[0]), total, more);
        } else if duration::is_number(digits) {
            if let Some(unit) = duration::unit_seconds(s[0]) {
                let next = total + n * unit;
                assert(total + more + n * unit == next + more);
                if next + more <= u64::MAX {
                    counting_goes_on(s.drop_first(), Seq::empty(), next, more);
                } else if next <= u64::MAX {
                    reading_keeps_the_total(s.drop_first(), Seq::empty(), next);
                }
            }
        }
    }
}

/// No reading counts less than what was counted before.
proof fn reading_keeps_the_total(s: Seq<char>, digits: Seq<char>, total: nat)
    requires
        total <= u64::MAX,
    ensures
        duration::reading(s, digits, total) is Seconds ==> duration::reading(
            s,
            digits,
            total,
        )->Seconds_0 >= total,
    decreases s.len(),
{
    if s.len() > 0 {
        let n = text::number_of(digits);
        if text::is_digit(s[0]) {
            reading_keeps_the_total(s.drop_first(), digits.push(s[0]), total);
        } else if duration::is_number(digits) {
            if let Some(unit) = duration::unit_seconds(s[0]) {
                if total + n * unit <= u64::MAX {
                    reading_keeps_the_total(s.drop_first(), Seq::empty(), total + n * unit);
                }
            }
        }
    }
}

/// Numbers with units add up: what follows a number with its unit is read on
/// its own, and its seconds are added, as far as 64 bits hold the sum.
pub proof fn numbers_with_units_add_up(n: u64, c: char, rest: Seq<char>)
    requires
        c == 's' || c == 'm' || c == 'h',
        rest.len() > 0,
        !duration::is_space(rest[0]),
        !duration::is_space(rest.last()),
    ensures
        ({
            let secs = n * (if c == 's' {
                1int
            } else if c == 'm' {
                60
            } else {
                3600
            });
            duration::duration_reading(rest) matches DurationReading::Seconds(k)
                ==> duration::duration_reading(text::decimal_text(n as nat) + seq![c] + rest) == (
            if secs + k <= u64::MAX {
                DurationReading::Seconds((secs + k) as u64)
            } else {
                DurationReading::TooLong
            })
        }),
{
    let digits = text::decimal_text(n as nat);
    let none = Seq::<char>::empty();
    let all = digits + seq![c] + rest;
    let tail = seq![c] + rest;
    text::decimal_reads_back(n as nat);
    assert(text::is_digit(digits[0]));
    assert(all[0] == digits[0]);
    assert(all.last() == rest.last());
    assert(duration::without_leading(all) == all);
    assert(duration::without_trailing(all) == all);
    assert(duration::without_leading(rest) == rest);
    assert(duration::without_trailing(rest) == rest);
    assert(all =~= digits + tail);
    digits_gather(digits, tail, none, 0);
    assert(none + digits =~= digits);
    assert(tail.drop_first() =~= rest);
    assert(tail[0] == c);
    let unit: nat = if c == 's' {
        1
    } else if c == 'm' {
        60
    } else {
        3600
    };
    assert(duration::unit_seconds(c) == Some(unit));
    let secs = text::number_of(digits) * unit;
    assert(secs == n * unit);
    if secs <= u64::MAX {
        assert(duration::reading(tail, digits, 0) == duration::reading(rest, none, secs));
        counting_goes_on(rest, none, 0, secs);
    }
}

/// A duration is written by its two largest units: below a minute as seconds,
/// below an hour as minutes and seconds, else as hours and minutes.
pub proof fn durations_are_written_by_units(h: nat, m: nat, s: nat)
    requires
        m < 60,
        s < 60,
    ensures
        ({
            let written = duration::duration_text(h * 3600 + m * 60 + s);
            if h > 0 {
                written == text::decimal_text(h) + "h "@ + text::decimal_text(m) + "m"@
            } else if m > 0 {
                written == text::decimal_text(m) + "m "@ + text::decimal_text(s) + "s"@
            } else {
                written == text::decimal_text(s) + "s"@
            }
        }),
{
    let secs = h * 3600 + m * 60 + s;
    if h > 0 {
        assert(secs / 3600 == h) by (nonlinear_arith)
            requires
                secs == h * 3600 + m * 60 + s,
                m < 60,
                s < 60,
        ;
        assert(secs % 3600 == m * 60 + s) by (nonlinear_arith)
            requires
                secs == h * 3600 + m * 60 + s,
                m < 60,
                s < 60,
        ;
        assert((m * 60 + s) / 60 == m);
    }
}

/// A stretch of more whole seconds than 64 bits hold is written as the longest
/// that has not.
pub proof fn long_stretches_are_cut_off(d: Span)
    requires
        d.nanos >= 0x1_0000_0000_0000_0000 * 1_000_000_000,
    ensures
        duration::span_text(d) == duration::duration_text(u64::MAX as nat),
{
}

/// What is written of a stretch of time are its whole seconds.
pub proof fn stretches_are_written_in_whole_seconds(secs: u64, rest: u128)
    requires
        rest < 1_000_000_000,
    ensures
        duration::span_text(Span { nanos: (secs * 1_000_000_000 + rest) as u128 })
            == duration::duration_text(secs as nat),
{
}

} // verus!
