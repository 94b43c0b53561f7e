//! What holds of the bound on delays.
use crate::outside;
use crate::text;
use vstd::prelude::*;

verus! {

/// The text is made of letters only.
pub open spec fn is_word(s: Seq<char>) -> bool {
    s.len() > 0 && forall|i: int|
        0 <= i < s.len() ==> {
            ||| 'a' <= #[trigger] s[i] <= 'z'
            ||| 'A' <= s[i] <= 'Z'
            ||| s[i] == 'µ'
        }
}

/// The seconds that a unit of time has at most, by how its name begins.
pub open spec fn most_seconds(unit: Seq<char>) -> nat {
    if unit[0] == 'y' {
        31_557_600
    } else if unit[0] == 'M' || (unit[0] == 'm' && unit.len() > 1 && unit[1] == 'o') {
        2_630_016
    } else if unit[0] == 'w' {
        604_800
    } else if unit[0] == 'd' {
        86_400
    } else if unit[0] == 'h' {
        3_600
    } else if unit[0] == 'm' && !(unit.len() > 1 && unit[1] == 's') {
        60
    } else {
        1
    }
}

proof fn digits_are_gathered(s: Seq<char>, rest: Seq<char>, before: Seq<char>, total: nat)
    requires
        forall|i: int| 0 <= i < s.len() ==> text::is_digit(#[trigger] s[i]),
    ensures
        outside::seconds_bound(s + rest, text::number_of(before), total) == outside::seconds_bound(
            rest,
            text::number_of(before + s),
            total,
        ),
    decreases s.len(),
{
    if s.len() == 0 {
        assert(s + rest =~= rest);
        assert(before + s =~= before);
    } else {
        assert((s + rest).drop_first() =~= s.drop_first() + rest);
        assert((s + rest)[0] == s[0]);
        assert(text::is_digit(s[0]));
        assert(before.push(s[0]).drop_last() =~= before);
        digits_are_gathered(s.drop_first(), rest, before.push(s[0]), total);
        assert(before.push(s[0]) + s.drop_first() =~= before + s);
    }
}

proof fn letters_alone_count_nothing(s: Seq<char>, rest: Seq<char>, total: nat)
    requires
        s.len() > 0 ==> is_word(s),
    ensures
        outside::seconds_bound(s + rest, 0, total) == outside::seconds_bound(rest, 0, total),
    decreases s.len(),
{
    if s.len() == 0 {
        assert(s + rest =~= rest);
    } else {
        let tail = s.drop_first();
        assert((s + rest).drop_first() =~= tail + rest);
        assert((s + rest)[0] == s[0]);
        assert forall|i: int| 0 <= i < tail.len() implies {
            ||| 'a' <= #[trigger] tail[i] <= 'z'
            ||| 'A' <= tail[i] <= 'Z'
            ||| tail[i] == 'µ'
        } by {
            assert(tail[i] == s[i + 1]);
        }
        letters_alone_count_nothing(tail, rest, total);
        assert(0 * outside::unit_bound(s + rest) == 0);
    }
}

proof fn counting_goes_on(s: Seq<char>, digits: nat, total: nat, more: nat)
    ensures
        outside::seconds_bound(s, digits, total + more) == outside::seconds_bound(s, digits, total)
            + more,
    decreases s.len(),
{
    if s.len() > 0 {
        if '0' <= s[0] <= '9' {
            counting_goes_on(
                s.drop_first(),
                digits * 10 + (s[0] as u32 - '0' as u32) as nat,
                total,
                more,
            );
        } else if outside::is_unit_letter(s[0]) {
            counting_goes_on(s.drop_first(), 0, total + digits * outside::unit_bound(s), more);
        } else {
            counting_goes_on(s.drop_first(), digits, total, more);
        }
    }
}

/// A delay of numbers with units is counted number by number: each by its
/// unit, and all together. It is in range exactly if 64 bits hold the sum.
pub proof fn delays_are_counted_by_units(n: nat, unit: Seq<char>, rest: Seq<char>)
    requires
        is_word(unit),
        rest.len() > 0 ==> !outside::is_unit_letter(rest[0]),
    ensures
        outside::seconds_bound(text::decimal_text(n) + unit + rest, 0, 0) == n * most_seconds(unit)
            + outside::seconds_bound(rest, 0, 0),
        outside::seconds_bound(Seq::empty(), 0, 0) == 0,
        outside::in_range(text::decimal_text(n) + unit + rest) <==> n * most_seconds(unit)
            + outside::seconds_bound(rest, 0, 0) < 0x1_0000_0000_0000_0000,
{
    let digits = text::decimal_text(n);
    let none = Seq::<char>::empty();
    let word = unit + rest;
    let tail = unit.drop_first();
    text::decimal_reads_back(n);
    assert(digits + unit + rest =~= digits + word);
    assert(none + digits =~= digits);
    digits_are_gathered(digits, word, none, 0);
    assert(word[0] == unit[0]);
    assert(is_word(unit));
    assert(unit.len() > 1 ==> word[1] == unit[1]);
    assert(unit.len() == 1 && rest.len() > 0 ==> word[1] == rest[0]);
    assert(outside::unit_bound(word) == most_seconds(unit));
    assert(word.drop_first() =~= tail + rest);
    assert forall|i: int| 0 <= i < tail.len() implies {
        ||| 'a' <= #[trigger] tail[i] <= 'z'
        ||| 'A' <= tail[i] <= 'Z'
        ||| tail[i] == 'µ'
    } by {
        assert(tail[i] == unit[i + 1]);
    }
    let secs = n * most_seconds(unit);
    assert(outside::seconds_bound(word, n, 0) == outside::seconds_bound(tail + rest, 0, 0 + secs));
    letters_alone_count_nothing(tail, rest, secs);
    counting_goes_on(rest, 0, 0, secs);
}

/// What is neither a digit nor a letter counts nothing.
pub proof fn blanks_count_nothing(c: char, rest: Seq<char>)
    requires
        !text::is_digit(c),
        !outside::is_unit_letter(c),
    ensures
        outside::seconds_bound(seq![c] + rest, 0, 0) == outside::seconds_bound(rest, 0, 0),
        !('a' <= c <= 'z' || 'A' <= c <= 'Z'),
{
    assert((seq![c] + rest).drop_first() =~= rest);
}

} // verus!
