//! Texts that show other texts.
use vstd::prelude::*;

verus! {

/// A text with another before and after it.
pub open spec fn around(before: Seq<char>, part: Seq<char>, after: Seq<char>) -> Seq<char> {
    before + part + after
}

/// `part` stands somewhere in `s`.
pub open spec fn shows(s: Seq<char>, part: Seq<char>) -> bool {
    exists|before: Seq<char>, after: Seq<char>| s == #[trigger] around(before, part, after)
}

/// The parts stand in `s` one after another.
pub open spec fn shows_in_order(s: Seq<char>, parts: Seq<Seq<char>>) -> bool
    decreases parts.len(),
{
    parts.len() == 0 || exists|before: Seq<char>, after: Seq<char>|
        s == #[trigger] around(before, parts[0], after) && shows_in_order(after, parts.skip(1))
}

/// A text stands in what is made of it.
pub proof fn stands_in(before: Seq<char>, part: Seq<char>, after: Seq<char>)
    ensures
        shows(before + part + after, part),
        shows(part + after, part),
        shows(before + part, part),
        shows(part, part),
{
    let none = Seq::<char>::empty();
    assert(before + part + after == around(before, part, after));
    assert(part + after =~= around(none, part, after));
    assert(before + part =~= around(before, part, none));
    assert(part =~= around(none, part, none));
}

/// What stands in a part of a text stands in the text.
pub proof fn stands_in_more(s: Seq<char>, part: Seq<char>, before: Seq<char>, after: Seq<char>)
    requires
        shows(s, part),
    ensures
        shows(before + s + after, part),
        shows(s + after, part),
        shows(before + s, part),
{
    let (x, y) = choose|x: Seq<char>, y: Seq<char>| s == #[trigger] around(x, part, y);
    assert(before + s + after =~= around(before + x, part, y + after));
    assert(s + after =~= around(x, part, y + after));
    assert(before + s =~= around(before + x, part, y));
}

/// Nothing more has to follow.
pub proof fn order_ends(s: Seq<char>)
    ensures
        shows_in_order(s, Seq::empty()),
{
}

/// One more part goes before those that stand in the rest.
pub proof fn order_grows(before: Seq<char>, part: Seq<char>, rest: Seq<char>, parts: Seq<Seq<char>>)
    requires
        shows_in_order(rest, parts),
    ensures
        shows_in_order(before + part + rest, seq![part] + parts),
{
    let all = seq![part] + parts;
    assert(all[0] == part);
    assert(all.skip(1) =~= parts);
    assert(before + part + rest == around(before, all[0], rest));
}

} // verus!
