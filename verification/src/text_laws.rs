//! What holds of searching, joining and writing numbers.
use crate::showing;
use crate::text;
use vstd::prelude::*;

verus! {

/// A text occurs in another exactly if the other is it with something before
/// and after.
pub proof fn occurring_is_standing_inside(hay: Seq<char>, needle: Seq<char>)
    ensures
        text::occurs_in(hay, needle) <==> showing::shows(hay, needle),
{
    if text::occurs_in(hay, needle) {
        let at = choose|at: int| text::stands_at(hay, needle, at);
        let end = at + needle.len();
        assert(hay =~= showing::around(
            hay.take(at),
            hay.subrange(at, end),
            hay.skip(end),
        ));
    }
    if showing::shows(hay, needle) {
        let (a, b) = choose|a: Seq<char>, b: Seq<char>| hay == #[trigger] showing::around(
            a,
            needle,
            b,
        );
        let at = a.len() as int;
        assert(hay.subrange(at, at + needle.len()) =~= needle);
        assert(text::stands_at(hay, needle, at));
    }
}

/// Joining puts the separator between parts and nowhere else, and keeps their
/// order: it can be done in two goes.
pub proof fn joining_goes_on(a: Seq<Seq<char>>, b: Seq<Seq<char>>, sep: Seq<char>)
    ensures
        a.len() > 0 && b.len() > 0 ==> text::joined(a + b, sep) == text::joined(a, sep) + sep
            + text::joined(b, sep),
        text::joined(Seq::empty(), sep).len() == 0,
    decreases b.len(),
{
    if a.len() > 0 && b.len() > 0 {
        assert((a + b).drop_last() =~= a + b.drop_last());
        assert((a + b).last() == b.last());
        if b.len() == 1 {
            assert(a + b.drop_last() =~= a);
            assert(text::joined(a + b, sep) == text::joined(a, sep) + sep + b[0]);
        } else {
            joining_goes_on(a, b.drop_last(), sep);
            assert(text::joined(a + b, sep) =~= text::joined(a, sep) + sep + text::joined(b, sep));
        }
    }
}

/// Joining one part gives the part.
pub proof fn joining_one(part: Seq<char>, sep: Seq<char>)
    ensures
        text::joined(seq![part], sep) == part,
{
}

/// Every part shows in the joint text.
pub proof fn joined_shows_its_parts(parts: Seq<Seq<char>>, sep: Seq<char>, i: int)
    requires
        0 <= i < parts.len(),
    ensures
        showing::shows(text::joined(parts, sep), parts[i]),
    decreases parts.len(),
{
    let none = Seq::<char>::empty();
    if parts.len() == 1 {
        showing::stands_in(none, parts[0], none);
    } else {
        let front = parts.drop_last();
        if i == parts.len() - 1 {
            showing::stands_in(text::joined(front, sep) + sep, parts[i], none);
        } else {
            joined_shows_its_parts(front, sep, i);
            showing::stands_in_more(text::joined(front, sep), parts[i], none, sep);
            showing::stands_in_more(
                text::joined(front, sep) + sep,
                parts[i],
                none,
                parts.last(),
            );
        }
    }
}

/// A number in decimal: its last digit is the remainder by ten, what stands
/// before is the number of tens, and no zero stands in front.
pub proof fn decimal_is_written_by_digits(n: nat)
    ensures
        text::decimal_text(n).last() as u32 == 48 + n % 10,
        n < 10 ==> text::decimal_text(n).len() == 1,
        n >= 10 ==> text::decimal_text(n).drop_last() == text::decimal_text(n / 10),
        n > 0 ==> text::decimal_text(n)[0] != '0',
    decreases n,
{
    if n >= 10 {
        decimal_is_written_by_digits(n / 10);
        assert(text::decimal_text(n).drop_last() =~= text::decimal_text(n / 10));
        text::decimal_reads_back(n / 10);
    }
}

/// A number with a sign: a minus stands before the digits of a negative number,
/// and nothing before those of another.
pub proof fn sign_is_written_first(n: int)
    ensures
        n >= 0 ==> text::number_of(text::signed_text(n)) == n && text::signed_text(n)[0] != '-',
        n < 0 ==> text::signed_text(n)[0] == '-' && text::number_of(text::signed_text(n).skip(1))
            == -n,
{
    if n >= 0 {
        text::decimal_reads_back(n as nat);
        assert(text::is_digit(text::decimal_text(n as nat)[0]));
    } else {
        text::decimal_reads_back((-n) as nat);
        assert(text::signed_text(n).skip(1) =~= text::decimal_text((-n) as nat));
    }
}

} // verus!
