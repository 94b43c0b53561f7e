//! Durations in words: reading `1h30m` and writing `1h 30m`.
use crate::text;
use crate::time::Span;
use vstd::prelude::*;
use vstd::string::*;

verus! {

// ── White space ───────────────────────────────────────────────────────

/// The characters with Unicode's White_Space property.
pub open spec fn is_space(c: char) -> bool {
    ||| '\u{9}' <= c <= '\u{d}'
    ||| c == ' '
    ||| c == '\u{85}'
    ||| c == '\u{a0}'
    ||| c == '\u{1680}'
    ||| '\u{2000}' <= c <= '\u{200a}'
    ||| c == '\u{2028}'
    ||| c == '\u{2029}'
    ||| c == '\u{202f}'
    ||| c == '\u{205f}'
    ||| c == '\u{3000}'
}

/// The text without white space at its start.
pub open spec fn without_leading(s: Seq<char>) -> Seq<char>
    decreases s.len(),
{
    if s.len() > 0 && is_space(s[0]) {
        without_leading(s.drop_first())
    } else {
        s
    }
}

/// The text without white space at its end.
pub open spec fn without_trailing(s: Seq<char>) -> Seq<char>
    decreases s.len(),
{
    if s.len() > 0 && is_space(s.last()) {
        without_trailing(s.drop_last())
    } else {
        s
    }
}

/// The text without white space around it.
pub open spec fn trimmed(s: Seq<char>) -> Seq<char> {
    without_trailing(without_leading(s))
}

fn space(c: char) -> (r: bool)
    ensures
        r == is_space(c),
{
    ('\u{9}' <= c && c <= '\u{d}') || c == ' ' || c == '\u{85}' || c == '\u{a0}' || c == '\u{1680}'
        || ('\u{2000}' <= c && c <= '\u{200a}') || c == '\u{2028}' || c == '\u{2029}' || c
        == '\u{202f}' || c == '\u{205f}' || c == '\u{3000}'
}

/// The characters of a text without the white space around it.
pub fn trim(s: &str) -> (r: Vec<char>)
    ensures
        r@ == trimmed(s@),
{
    let cs = text::chars_of(s);
    let mut from: usize = 0;
    assert(cs@.skip(0) =~= cs@);
    while from < cs.len() && space(cs[from])
        invariant
            from <= cs@.len(),
            without_leading(cs@) == without_leading(cs@.skip(from as int)),
        decreases cs.len() - from,
    {
        assert(cs@.skip(from as int).drop_first() =~= cs@.skip(from + 1));
        from += 1;
    }
    let ghost rest = cs@.skip(from as int);
    let mut to: usize = cs.len();
    assert(cs@.subrange(from as int, to as int) =~= rest);
    while from < to && space(cs[to - 1])
        invariant
            from <= to <= cs@.len(),
            without_trailing(rest) == without_trailing(cs@.subrange(from as int, to as int)),
        decreases to - from,
    {
        assert(cs@.subrange(from as int, to as int).drop_last() =~= cs@.subrange(
            from as int,
            to - 1,
        ));
        to -= 1;
    }
    let mut r: Vec<char> = Vec::new();
    let mut i: usize = from;
    while i < to
        invariant
            from <= i <= to <= cs@.len(),
            r@ == cs@.subrange(from as int, i as int),
        decreases to - i,
    {
        r.push(cs[i]);
        i += 1;
        assert(cs@.subrange(from as int, i as int) =~= cs@.subrange(from as int, i - 1).push(
            cs@[i - 1],
        ));
    }
    r
}

// ── Reading ───────────────────────────────────────────────────────────

/// What a duration in words says.
#[derive(Debug, Clone, Copy, PartialEq, Eq, Structural)]
pub enum DurationReading {
    /// So many seconds.
    Seconds(u64),
    /// A unit stands without a number, or with one that is too large.
    Malformed,
    /// This is no unit.
    UnknownUnit(char),
    /// The seconds add up to more than 64 bits hold.
    TooLong,
}

/// The seconds in a unit.
pub open spec fn unit_seconds(c: char) -> Option<nat> {
    if c == 's' {
        Some(1)
    } else if c == 'm' {
        Some(60)
    } else if c == 'h' {
        Some(3600)
    } else {
        None
    }
}

/// The digits denote a number of 64 bits.
pub open spec fn is_number(digits: Seq<char>) -> bool {
    digits.len() > 0 && text::number_of(digits) <= u64::MAX
}

/// The reading of numbers with units, one after another. The last number may
/// stand without a unit and then counts seconds. `digits` is the number under
/// way, `total` the seconds so far.
pub open spec fn reading(s: Seq<char>, digits: Seq<char>, total: nat) -> DurationReading
    decreases s.len(),
{
    if s.len() == 0 {
        if digits.len() == 0 {
            DurationReading::Seconds(total as u64)
        } else if !is_number(digits) {
            DurationReading::Malformed
        } else if total + text::number_of(digits) > u64::MAX {
            DurationReading::TooLong
        } else {
            DurationReading::Seconds((total + text::number_of(digits)) as u64)
        }
    } else if text::is_digit(s[0]) {
        reading(s.drop_first(), digits.push(s[0]), total)
    } else if !is_number(digits) {
        DurationReading::Malformed
    } else {
        match unit_seconds(s[0]) {
            Some(unit) => if total + text::number_of(digits) * unit > u64::MAX {
                DurationReading::TooLong
            } else {
                reading(s.drop_first(), Seq::empty(), total + text::number_of(digits) * unit)
            },
            None => DurationReading::UnknownUnit(s[0]),
        }
    }
}

/// What a duration in words says, white space around it aside.
pub open spec fn duration_reading(s: Seq<char>) -> DurationReading {
    reading(trimmed(s), Seq::empty(), 0)
}

/// Adds a digit to a number, as long as 64 bits hold it.
fn append_digit(n: Option<u64>, c: char, Ghost(digits): Ghost<Seq<char>>) -> (r: Option<u64>)
    requires
        text::is_digit(c),
        match n {
            Some(v) => v == text::number_of(digits),
            None => text::number_of(digits) > u64::MAX,
        },
    ensures
        match r {
            Some(v) => v == text::number_of(digits.push(c)),
            None => text::number_of(digits.push(c)) > u64::MAX,
        },
{
    assert(digits.push(c).drop_last() =~= digits);
    let d: u64 = (c as u64) - 48;
    match n {
        Some(v) => {
            if v <= (u64::MAX - d) / 10 {
                Some(v * 10 + d)
            } else {
                None
            }
        },
        None => None,
    }
}

/// Reads a duration in words. The text has no white space around it.
fn read_duration(cs: &Vec<char>) -> (r: DurationReading)
    ensures
        r == reading(cs@, Seq::empty(), 0),
{
    let mut total: u64 = 0;
    let ghost mut digits: Seq<char> = Seq::empty();
    let mut any = false;
    let mut number: Option<u64> = Some(0);
    let mut i: usize = 0;
    assert(cs@.skip(0) =~= cs@);
    while i < cs.len()
        invariant
            i <= cs@.len(),
            any == (digits.len() > 0),
            match number {
                Some(v) => v == text::number_of(digits),
                None => text::number_of(digits) > u64::MAX,
            },
            reading(cs@, Seq::empty(), 0) == reading(cs@.skip(i as int), digits, total as nat),
        decreases cs.len() - i,
    {
        let c = cs[i];
        proof {
            assert(cs@.skip(i as int).drop_first() =~= cs@.skip(i + 1));
            assert(cs@.skip(i as int)[0] == c);
        }
        if '0' <= c && c <= '9' {
            number = append_digit(number, c, Ghost(digits));
            any = true;
            proof {
                digits = digits.push(c);
            }
        } else {
            let value: u64 = match number {
                Some(v) => v,
                None => {
                    return DurationReading::Malformed;
                },
            };
            if !any {
                return DurationReading::Malformed;
            }
            let unit: u64 = if c == 's' {
                1
            } else if c == 'm' {
                60
            } else if c == 'h' {
                3600
            } else {
                return DurationReading::UnknownUnit(c);
            };
            proof {
                assert(unit_seconds(c) == Some(unit as nat));
                assert(0 <= value * unit <= u64::MAX * 3600) by (nonlinear_arith)
                    requires
                        0 <= value <= u64::MAX,
                        0 <= unit <= 3600,
                ;
            }
            let sum: u128 = (total as u128) + (value as u128) * (unit as u128);
            if sum > 0xffff_ffff_ffff_ffff {
                return DurationReading::TooLong;
            }
            total = sum as u64;
            number = Some(0);
            any = false;
            proof {
                digits = Seq::empty();
            }
        }
        i += 1;
    }
    if !any {
        return DurationReading::Seconds(total);
    }
    match number {
        Some(v) => {
            if v > u64::MAX - total {
                DurationReading::TooLong
            } else {
                DurationReading::Seconds(total + v)
            }
        },
        None => DurationReading::Malformed,
    }
}

/// What a duration in words says, before it is taken as one.
pub fn examine_duration(s: &str) -> (r: DurationReading)
    ensures
        r == duration_reading(s@),
{
    read_duration(&trim(s))
}

/// What is made of a duration in words: its length, or what is wrong with it.
pub open spec fn duration_of(s: Seq<char>) -> Result<Span, Seq<char>> {
    if trimmed(s).len() == 0 {
        Err("Empty duration string"@)
    } else {
        match duration_reading(s) {
            DurationReading::Seconds(n) => Ok(
                Span { nanos: (n * crate::time::NANOS_PER_SEC) as u128 },
            ),
            DurationReading::UnknownUnit(c) => Err(
                ("Unknown duration unit '"@).push(c) + "' in: "@ + trimmed(s),
            ),
            _ => Err("Invalid duration: "@ + trimmed(s)),
        }
    }
}

/// Reads a duration such as `30s`, `5m`, `2h` or `1h30m`.
pub fn parse_duration(s: &str) -> (r: Result<Span, String>)
    requires
        duration_reading(s@) !is TooLong,
    ensures
        match r {
            Ok(span) => duration_of(s@) == Ok::<Span, Seq<char>>(span),
            Err(e) => duration_of(s@) == Err::<Span, Seq<char>>(e@),
        },
{
    let cs = trim(s);
    if cs.len() == 0 {
        return Err("Empty duration string".to_owned());
    }
    assert(cs@.subrange(0, cs@.len() as int) =~= cs@);
    match read_duration(&cs) {
        DurationReading::Seconds(n) => Ok(Span::from_secs(n)),
        DurationReading::UnknownUnit(c) => {
            let mut e = "Unknown duration unit '".to_owned();
            e.push(c);
            e.append("' in: ");
            e.append(text::string_of(&cs, 0, cs.len()).as_str());
            Err(e)
        },
        _ => {
            let e = "Invalid duration: ".to_owned();
            Err(e.concat(text::string_of(&cs, 0, cs.len()).as_str()))
        },
    }
}

// ── Writing ───────────────────────────────────────────────────────────

/// The duration in whole seconds, as seconds below a minute, as minutes and
/// seconds below an hour, else as hours and minutes.
pub open spec fn duration_text(secs: nat) -> Seq<char> {
    if secs < 60 {
        text::decimal_text(secs) + "s"@
    } else if secs < 3600 {
        text::decimal_text(secs / 60) + "m "@ + text::decimal_text(secs % 60) + "s"@
    } else {
        text::decimal_text(secs / 3600) + "h "@ + text::decimal_text((secs % 3600) / 60) + "m"@
    }
}

/// A duration in words. One that has more whole seconds than 64 bits hold is
/// written as the longest that has not.
pub open spec fn span_text(d: Span) -> Seq<char> {
    duration_text(
        if d.whole_secs() <= u64::MAX {
            d.whole_secs()
        } else {
            u64::MAX as nat
        },
    )
}

/// Writes a duration in words.
pub fn format_duration(d: Span) -> (r: String)
    ensures
        r@ == span_text(d),
{
    let whole: u128 = d.secs();
    let secs: u64 = if whole <= 0xffff_ffff_ffff_ffff {
        whole as u64
    } else {
        u64::MAX
    };
    if secs < 60 {
        let r = text::decimal(secs);
        r.concat("s")
    } else if secs < 3600 {
        let mut r = text::decimal(secs / 60);
        r.append("m ");
        r.append(text::decimal(secs % 60).as_str());
        r.append("s");
        r
    } else {
        let mut r = text::decimal(secs / 3600);
        r.append("h ");
        r.append(text::decimal((secs % 3600) / 60).as_str());
        r.append("m");
        r
    }
}

// ── Laws ──────────────────────────────────────────────────────────────

/// Digits are gathered into the number under way.
proof fn digits_gather(s: Seq<char>, rest: Seq<char>, digits: Seq<char>, total: nat)
    requires
        forall|i: int| 0 <= i < s.len() ==> text::is_digit(#[trigger] s[i]),
    ensures
        reading(s + rest, digits, total) == reading(rest, digits + s, total),
    decreases s.len(),
{
    if s.len() == 0 {
        assert(s + rest =~= rest);
        assert(digits + s =~= digits);
    } else {
        assert((s + rest).drop_first() =~= s.drop_first() + rest);
        assert((s + rest)[0] == s[0]);
        digits_gather(s.drop_first(), rest, digits.push(s[0]), total);
        assert(digits.push(s[0]) + s.drop_first() =~= digits + s);
    }
}

/// A text that neither starts nor ends with white space is trimmed already.
proof fn nothing_to_trim(s: Seq<char>)
    requires
        s.len() == 0 || (!is_space(s[0]) && !is_space(s.last())),
    ensures
        trimmed(s) == s,
{
}

/// A number with a unit reads as that many of the unit, if 64 bits hold the
/// seconds.
pub proof fn number_with_unit_reads_back(n: u64, unit: char)
    requires
        unit_seconds(unit) is Some,
        n * unit_seconds(unit)->0 <= u64::MAX,
    ensures
        duration_reading(text::decimal_text(n as nat).push(unit)) == DurationReading::Seconds(
            (n * unit_seconds(unit)->0) as u64,
        ),
{
    let digits = text::decimal_text(n as nat);
    text::decimal_reads_back(n as nat);
    assert(text::is_digit(digits[0]));
    assert(digits.push(unit)[0] == digits[0]);
    nothing_to_trim(digits.push(unit));
    digits_gather(digits, seq![unit], Seq::empty(), 0);
    assert(digits + seq![unit] =~= digits.push(unit));
    assert(Seq::<char>::empty() + digits =~= digits);
    assert(seq![unit].drop_first() =~= Seq::empty());
    reveal_with_fuel(reading, 3);
}

/// A reading goes on where another left off.
proof fn reading_goes_on(a: Seq<char>, b: Seq<char>, digits: Seq<char>, total: nat)
    requires
        total <= u64::MAX,
        a.len() > 0,
        unit_seconds(a.last()) is Some,
        reading(a, digits, total) is Seconds,
    ensures
        reading(a + b, digits, total) == reading(
            b,
            Seq::empty(),
            reading(a, digits, total)->Seconds_0 as nat,
        ),
    decreases a.len(),
{
    assert((a + b).drop_first() =~= a.drop_first() + b);
    assert((a + b)[0] == a[0]);
    let rest = a.drop_first();
    if rest.len() == 0 {
        assert(a.last() == a[0]);
        assert(rest + b =~= b);
        reveal_with_fuel(reading, 2);
    } else {
        assert(rest.last() == a.last());
        if text::is_digit(a[0]) {
            reading_goes_on(rest, b, digits.push(a[0]), total);
        } else {
            reading_goes_on(
                rest,
                b,
                Seq::empty(),
                total + text::number_of(digits) * unit_seconds(a[0])->0,
            );
        }
    }
}

/// Seconds counted from a start are the start plus the seconds counted from
/// nothing.
proof fn reading_is_additive(s: Seq<char>, digits: Seq<char>, start: nat, total: nat)
    requires
        reading(s, digits, total) is Seconds,
        total <= u64::MAX,
        start + reading(s, digits, total)->Seconds_0 <= u64::MAX,
    ensures
        total <= reading(s, digits, total)->Seconds_0,
        reading(s, digits, start + total) == DurationReading::Seconds(
            (start + reading(s, digits, total)->Seconds_0) as u64,
        ),
    decreases s.len(),
{
    if s.len() > 0 {
        if text::is_digit(s[0]) {
            reading_is_additive(s.drop_first(), digits.push(s[0]), start, total);
        } else {
            let more = text::number_of(digits) * unit_seconds(s[0])->0;
            reading_is_additive(s.drop_first(), Seq::empty(), start, total + more);
            assert(start + (total + more) == start + total + more);
        }
    }
}

/// White space at the start is dropped from the first of two texts alone, if
/// anything is left of it.
proof fn leading_is_dropped_from_the_first(a: Seq<char>, b: Seq<char>)
    requires
        a.len() > 0,
        !is_space(a.last()),
    ensures
        without_leading(a).len() > 0,
        without_leading(a).last() == a.last(),
        without_leading(a + b) == without_leading(a) + b,
    decreases a.len(),
{
    assert((a + b)[0] == a[0]);
    if is_space(a[0]) {
        assert((a + b).drop_first() =~= a.drop_first() + b);
        assert(a.drop_first().len() > 0);
        assert(a.drop_first().last() == a.last());
        leading_is_dropped_from_the_first(a.drop_first(), b);
    }
}

/// White space at the end is dropped from the second of two texts alone, if
/// the first does not end in any.
proof fn trailing_is_dropped_from_the_second(a: Seq<char>, b: Seq<char>)
    requires
        a.len() > 0,
        !is_space(a.last()),
    ensures
        without_trailing(a + b) == a + without_trailing(b),
    decreases b.len(),
{
    if b.len() == 0 {
        assert(a + b =~= a);
        assert(a + without_trailing(b) =~= a);
    } else {
        assert((a + b).last() == b.last());
        if is_space(b.last()) {
            assert((a + b).drop_last() =~= a + b.drop_last());
            trailing_is_dropped_from_the_second(a, b.drop_last());
        }
    }
}

/// Durations written one after another add up: `1h30m` is `1h` and `30m`.
pub proof fn durations_add_up(a: Seq<char>, b: Seq<char>)
    requires
        a.len() > 0,
        unit_seconds(a.last()) is Some,
        without_leading(b) == b,
        duration_reading(a) is Seconds,
        duration_reading(b) is Seconds,
        duration_reading(a)->Seconds_0 + duration_reading(b)->Seconds_0 <= u64::MAX,
    ensures
        duration_reading(a + b) == DurationReading::Seconds(
            (duration_reading(a)->Seconds_0 + duration_reading(b)->Seconds_0) as u64,
        ),
{
    let first = without_leading(a);
    leading_is_dropped_from_the_first(a, b);
    trailing_is_dropped_from_the_second(first, b);
    assert(trimmed(a) == first);
    assert(trimmed(a + b) == first + trimmed(b));
    reading_goes_on(first, trimmed(b), Seq::empty(), 0);
    reading_is_additive(trimmed(b), Seq::empty(), duration_reading(a)->Seconds_0 as nat, 0);
}

} // verus!
