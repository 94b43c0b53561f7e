//! What holds of the lines of a text and of a stream.
use crate::lines;
use crate::showing;
use crate::text;
use crate::text_laws;
use vstd::prelude::*;

verus! {

/// No line ends in the text.
pub open spec fn is_one_line(s: Seq<char>) -> bool {
    forall|i: int| 0 <= i < s.len() ==> #[trigger] s[i] != '\n'
}

proof fn gathers(s: Seq<char>, rest: Seq<char>, line: Seq<char>)
    requires
        is_one_line(s),
    ensures
        lines::lines_from(s + rest, line) == lines::lines_from(rest, line + s),
        lines::cut(s + rest, line) == lines::cut(rest, line + s),
    decreases s.len(),
{
    if s.len() == 0 {
        assert(s + rest =~= rest);
        assert(line + s =~= line);
    } else {
        assert((s + rest).drop_first() =~= s.drop_first() + rest);
        assert((s + rest)[0] == s[0]);
        gathers(s.drop_first(), rest, line.push(s[0]));
        assert(line.push(s[0]) + s.drop_first() =~= line + s);
    }
}

/// A line ends with a line feed, or with a carriage return and a line feed,
/// and neither is part of it; what follows makes the next lines.
pub proof fn lines_end_at_line_feeds(line: Seq<char>, rest: Seq<char>)
    requires
        is_one_line(line),
        line.len() > 0 ==> line.last() != '\r',
    ensures
        lines::lines_of(line + seq!['\n'] + rest) == seq![line] + lines::lines_of(rest),
        lines::lines_of(line + seq!['\r', '\n'] + rest) == seq![line] + lines::lines_of(rest),
{
    let none = Seq::<char>::empty();
    let tail = seq!['\n'] + rest;
    assert(tail.drop_first() =~= rest);
    assert(line + seq!['\n'] + rest =~= line + tail);
    gathers(line, tail, none);
    assert(none + line =~= line);
    let returned = line.push('\r');
    assert(line + seq!['\r', '\n'] + rest =~= returned + tail);
    gathers(returned, tail, none);
    assert(none + returned =~= returned);
    assert(returned.drop_last() =~= line);
}

/// Of the carriage returns before a line feed only the last belongs to the end
/// of the line.
pub proof fn one_return_goes_with_a_line_feed(line: Seq<char>, rest: Seq<char>)
    requires
        is_one_line(line),
    ensures
        lines::lines_of(line + seq!['\r', '\n'] + rest) == seq![line] + lines::lines_of(rest),
{
    let none = Seq::<char>::empty();
    let tail = seq!['\n'] + rest;
    assert(tail.drop_first() =~= rest);
    let returned = line.push('\r');
    assert(line + seq!['\r', '\n'] + rest =~= returned + tail);
    gathers(returned, tail, none);
    assert(none + returned =~= returned);
    assert(returned.drop_last() =~= line);
}

/// The last line may lack its end; nothing at all is no line.
pub proof fn last_line_may_lack_its_end(line: Seq<char>)
    requires
        is_one_line(line),
    ensures
        lines::lines_of(line) == (if line.len() == 0 {
            Seq::<Seq<char>>::empty()
        } else {
            seq![line]
        }),
{
    let none = Seq::<char>::empty();
    assert(line + none =~= line);
    gathers(line, none, none);
    assert(none + line =~= line);
}

/// The tail of a text with no more lines than asked for is the text; else it
/// shows each of the last lines, and is as long as these and the line feeds
/// between them.
pub proof fn tail_is_all_or_the_last_lines(s: Seq<char>, count: nat)
    ensures
        lines::lines_of(s).len() <= count ==> lines::tail(s, count) == s,
        lines::lines_of(s).len() > count ==> {
            let all = lines::lines_of(s);
            &&& lines::tail(s, count) == text::joined(all.skip(all.len() - count), "\n"@)
            &&& count == 0 ==> lines::tail(s, count).len() == 0
            &&& forall|i: int|
                all.len() - count <= i < all.len() ==> showing::shows(
                    lines::tail(s, count),
                    #[trigger] all[i],
                )
        },
{
    let all = lines::lines_of(s);
    if all.len() > count {
        let last = all.skip(all.len() - count);
        assert forall|i: int| all.len() - count <= i < all.len() implies showing::shows(
            lines::tail(s, count),
            #[trigger] all[i],
        ) by {
            let k = i - (all.len() - count);
            assert(last[k] == all[i]);
            text_laws::joined_shows_its_parts(last, "\n"@, k);
        }
    }
}

/// A line of a stream comes out once its line feed has come, without carriage
/// returns, and what follows is cut in the same way. Without a line feed
/// nothing comes out, and all is kept.
pub proof fn stream_is_cut_at_line_feeds(line: Seq<char>, rest: Seq<char>)
    requires
        is_one_line(line),
    ensures
        ({
            let none = Seq::<char>::empty();
            let (ended, left) = lines::cut(line + seq!['\n'] + rest, none);
            &&& ended == seq![lines::without_returns(line)] + lines::cut(rest, none).0
            &&& left == lines::cut(rest, none).1
            &&& lines::cut(line, none) == (Seq::<Seq<char>>::empty(), line)
        }),
{
    let none = Seq::<char>::empty();
    let tail = seq!['\n'] + rest;
    assert(tail.drop_first() =~= rest);
    assert(line + seq!['\n'] + rest =~= line + tail);
    gathers(line, tail, none);
    assert(none + line =~= line);
    assert(line + none =~= line);
    gathers(line, none, none);
}

/// Carriage returns are dropped wherever they stand, and nothing else is.
pub proof fn only_returns_are_dropped(a: Seq<char>, b: Seq<char>, c: char)
    ensures
        lines::without_returns(a + b) == lines::without_returns(a) + lines::without_returns(b),
        lines::without_returns(seq![c]) == (if c == '\r' {
            Seq::<char>::empty()
        } else {
            seq![c]
        }),
        lines::without_returns(Seq::empty()).len() == 0,
    decreases b.len(),
{
    assert(seq![c].drop_last() =~= Seq::empty());
    assert(lines::without_returns(Seq::empty()) =~= Seq::empty());
    assert(lines::without_returns(seq![c].drop_last()) =~= Seq::empty());
    assert(Seq::<char>::empty().push(c) =~= seq![c]);
    if b.len() == 0 {
        assert(a + b =~= a);
        assert(lines::without_returns(a) + lines::without_returns(b) =~= lines::without_returns(a));
    } else {
        assert((a + b).drop_last() =~= a + b.drop_last());
        assert((a + b).last() == b.last());
        only_returns_are_dropped(a, b.drop_last(), c);
        assert(lines::without_returns(a + b) =~= lines::without_returns(a)
            + lines::without_returns(b));
    }
}

} // verus!
