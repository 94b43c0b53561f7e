//! Output cut into lines.
use crate::outside;
use crate::text;
use vstd::prelude::*;
use vstd::string::*;
use vstd::utf8::*;

verus! {

// ── Lines of a whole text ─────────────────────────────────────────────

/// A line without the carriage return before its line feed.
pub open spec fn without_return(line: Seq<char>) -> Seq<char> {
    if line.len() > 0 && line.last() == '\r' {
        line.drop_last()
    } else {
        line
    }
}

/// The lines that follow while `line` is under way. A line ends with a line
/// feed or with a carriage return and a line feed; the last line may lack its
/// end.
pub open spec fn lines_from(s: Seq<char>, line: Seq<char>) -> Seq<Seq<char>>
    decreases s.len(),
{
    if s.len() == 0 {
        if line.len() == 0 {
            Seq::empty()
        } else {
            seq![line]
        }
    } else if s[0] == '\n' {
        seq![without_return(line)] + lines_from(s.drop_first(), Seq::empty())
    } else {
        lines_from(s.drop_first(), line.push(s[0]))
    }
}

/// The lines of a text, without their ends.
pub open spec fn lines_of(s: Seq<char>) -> Seq<Seq<char>> {
    lines_from(s, Seq::empty())
}

/// The lines of a text, without their ends.
pub fn lines(content: &str) -> (r: Vec<String>)
    ensures
        text::texts(r@) == lines_of(content@),
{
    let cs = text::chars_of(content);
    let mut r: Vec<String> = Vec::new();
    let mut start: usize = 0;
    let mut i: usize = 0;
    assert(cs@.skip(0) =~= cs@);
    assert(cs@.subrange(0, 0) =~= Seq::empty());
    assert(text::texts(r@) + lines_of(content@) =~= lines_of(content@));
    while i < cs.len()
        invariant
            cs@ == content@,
            start <= i <= cs@.len(),
            lines_of(content@) == text::texts(r@) + lines_from(
                cs@.skip(i as int),
                cs@.subrange(start as int, i as int),
            ),
        decreases cs.len() - i,
    {
        let ghost line = cs@.subrange(start as int, i as int);
        let ghost told = text::texts(r@);
        proof {
            assert(cs@.skip(i as int).drop_first() =~= cs@.skip(i + 1));
            assert(cs@.skip(i as int)[0] == cs@[i as int]);
        }
        if cs[i] == '\n' {
            let to: usize = if start < i && cs[i - 1] == '\r' {
                i - 1
            } else {
                i
            };
            let ended = text::string_of(&cs, start, to);
            r.push(ended);
            proof {
                assert(cs@.subrange(start as int, to as int) =~= without_return(line));
                assert(text::texts(r@) =~= told.push(without_return(line)));
                assert(cs@.subrange(i + 1, i + 1) =~= Seq::empty());
                let rest = lines_from(cs@.skip(i + 1), Seq::empty());
                assert(told + (seq![without_return(line)] + rest) =~= told.push(
                    without_return(line),
                ) + rest);
            }
            start = i + 1;
        } else {
            assert(cs@.subrange(start as int, i + 1) =~= line.push(cs@[i as int]));
        }
        i += 1;
    }
    if start < i {
        let ghost told = text::texts(r@);
        r.push(text::string_of(&cs, start, i));
        assert(text::texts(r@) =~= told.push(cs@.subrange(start as int, i as int)));
        assert(told + seq![cs@.subrange(start as int, i as int)] =~= text::texts(r@));
    } else {
        assert(text::texts(r@) + Seq::<Seq<char>>::empty() =~= text::texts(r@));
    }
    r
}

/// The last lines of a text: all of it if it has no more lines.
pub open spec fn tail(s: Seq<char>, count: nat) -> Seq<char> {
    let all = lines_of(s);
    if all.len() > count {
        text::joined(all.skip(all.len() - count), "\n"@)
    } else {
        s
    }
}

/// The last `count` lines of a text: all of it if it has no more lines.
pub fn tail_lines(content: &str, count: usize) -> (r: String)
    ensures
        r@ == tail(content@, count as nat),
{
    let all = lines(content);
    if all.len() > count {
        let from: usize = all.len() - count;
        text::join_from(&all, from, "\n")
    } else {
        content.to_owned()
    }
}

// ── Lines of a stream ─────────────────────────────────────────────────

/// The text without carriage returns.
pub open spec fn without_returns(s: Seq<char>) -> Seq<char>
    decreases s.len(),
{
    if s.len() == 0 {
        s
    } else if s.last() == '\r' {
        without_returns(s.drop_last())
    } else {
        without_returns(s.drop_last()).push(s.last())
    }
}

/// The ended lines of a stream, without carriage returns, and what is left of
/// it; `line` is the line under way.
pub open spec fn cut(s: Seq<char>, line: Seq<char>) -> (Seq<Seq<char>>, Seq<char>)
    decreases s.len(),
{
    if s.len() == 0 {
        (Seq::empty(), line)
    } else if s[0] == '\n' {
        let (more, left) = cut(s.drop_first(), Seq::empty());
        (seq![without_returns(line)] + more, left)
    } else {
        cut(s.drop_first(), line.push(s[0]))
    }
}

/// Cuts the output of a terminal into lines as it comes in.
#[derive(Debug, Clone)]
pub struct LineCutter {
    left: Vec<char>,
}

impl View for LineCutter {
    type V = Seq<char>;

    closed spec fn view(&self) -> Seq<char> {
        self.left@
    }
}

impl LineCutter {
    pub fn new() -> (r: LineCutter)
        ensures
            r@ == Seq::<char>::empty(),
    {
        LineCutter { left: Vec::new() }
    }

    /// Takes in a chunk of bytes, read as text, and gives the lines that it
    /// ended.
    pub fn feed_bytes(&mut self, chunk: &[u8]) -> (r: Vec<String>)
        ensures
            text::texts(r@) == cut(old(self)@ + outside::utf8_lossy(chunk@), Seq::empty()).0,
            final(self)@ == cut(old(self)@ + outside::utf8_lossy(chunk@), Seq::empty()).1,
            valid_utf8(chunk@) ==> text::texts(r@) == cut(
                old(self)@ + decode_utf8(chunk@),
                Seq::empty(),
            ).0,
    {
        let read = outside::decode_lossy(chunk);
        self.feed(read.as_str())
    }

    /// Takes in a chunk and gives the lines that it ended.
    pub fn feed(&mut self, chunk: &str) -> (r: Vec<String>)
        ensures
            text::texts(r@) == cut(old(self)@ + chunk@, Seq::empty()).0,
            final(self)@ == cut(old(self)@ + chunk@, Seq::empty()).1,
    {
        let ghost held = self@;
        let more = text::chars_of(chunk);
        let mut all: Vec<char> = Vec::new();
        std::mem::swap(&mut all, &mut self.left);
        let mut k: usize = 0;
        while k < more.len()
            invariant
                k <= more@.len(),
                all@ == held + more@.take(k as int),
            decreases more.len() - k,
        {
            all.push(more[k]);
            k += 1;
            assert(more@.take(k as int) =~= more@.take(k - 1).push(more@[k - 1]));
            assert(all@ =~= held + more@.take(k as int));
        }
        assert(more@.take(more@.len() as int) =~= chunk@);
        let ghost s = held + chunk@;
        let mut r: Vec<String> = Vec::new();
        let mut line: Vec<char> = Vec::new();
        let mut i: usize = 0;
        proof {
            assert(s.skip(0) =~= s);
            assert(text::texts(r@) + cut(s, Seq::empty()).0 =~= cut(s, Seq::empty()).0);
        }
        while i < all.len()
            invariant
                all@ == s,
                i <= s.len(),
                cut(s, Seq::empty()).0 == text::texts(r@) + cut(s.skip(i as int), line@).0,
                cut(s, Seq::empty()).1 == cut(s.skip(i as int), line@).1,
            decreases all.len() - i,
        {
            let ghost told = text::texts(r@);
            proof {
                assert(s.skip(i as int).drop_first() =~= s.skip(i + 1));
                assert(s.skip(i as int)[0] == s[i as int]);
            }
            if all[i] == '\n' {
                let clean = clean_line(&line);
                r.push(clean);
                proof {
                    let rest = cut(s.skip(i + 1), Seq::empty()).0;
                    assert(text::texts(r@) =~= told.push(without_returns(line@)));
                    assert(told + (seq![without_returns(line@)] + rest) =~= told.push(
                        without_returns(line@),
                    ) + rest);
                }
                line = Vec::new();
                assert(line@ =~= Seq::empty());
            } else {
                line.push(all[i]);
            }
            i += 1;
        }
        assert(text::texts(r@) + Seq::<Seq<char>>::empty() =~= text::texts(r@));
        self.left = line;
        r
    }
}

fn clean_line(line: &Vec<char>) -> (r: String)
    ensures
        r@ == without_returns(line@),
{
    let mut r = String::new();
    let mut i: usize = 0;
    while i < line.len()
        invariant
            i <= line@.len(),
            r@ == without_returns(line@.take(i as int)),
        decreases line.len() - i,
    {
        assert(line@.take(i + 1).drop_last() =~= line@.take(i as int));
        assert(line@.take(i + 1).last() == line@[i as int]);
        if line[i] != '\r' {
            r.push(line[i]);
        }
        i += 1;
    }
    assert(line@.take(line@.len() as int) =~= line@);
    r
}

// ── Laws ──────────────────────────────────────────────────────────────

proof fn cutting_goes_on(a: Seq<char>, b: Seq<char>, line: Seq<char>)
    ensures
        cut(a + b, line).0 == cut(a, line).0 + cut(b, cut(a, line).1).0,
        cut(a + b, line).1 == cut(b, cut(a, line).1).1,
    decreases a.len(),
{
    if a.len() == 0 {
        assert(a + b =~= b);
        assert(Seq::<Seq<char>>::empty() + cut(b, line).0 =~= cut(b, line).0);
    } else {
        assert((a + b).drop_first() =~= a.drop_first() + b);
        assert((a + b)[0] == a[0]);
        if a[0] == '\n' {
            cutting_goes_on(a.drop_first(), b, Seq::empty());
            let first = seq![without_returns(line)];
            let more = cut(a.drop_first(), Seq::empty()).0;
            let rest = cut(b, cut(a, line).1).0;
            assert(first + (more + rest) =~= (first + more) + rest);
        } else {
            cutting_goes_on(a.drop_first(), b, line.push(a[0]));
        }
    }
}

proof fn left_over_has_no_end(s: Seq<char>, line: Seq<char>)
    requires
        forall|i: int| 0 <= i < line.len() ==> #[trigger] line[i] != '\n',
    ensures
        forall|i: int| 0 <= i < cut(s, line).1.len() ==> #[trigger] cut(s, line).1[i] != '\n',
    decreases s.len(),
{
    if s.len() > 0 {
        if s[0] == '\n' {
            left_over_has_no_end(s.drop_first(), Seq::empty());
            assert(cut(s, line).1 == cut(s.drop_first(), Seq::empty()).1);
        } else {
            left_over_has_no_end(s.drop_first(), line.push(s[0]));
            assert(cut(s, line) == cut(s.drop_first(), line.push(s[0])));
        }
    }
}

proof fn unended_line_is_kept(s: Seq<char>, line: Seq<char>)
    requires
        forall|i: int| 0 <= i < s.len() ==> #[trigger] s[i] != '\n',
    ensures
        cut(s, line) == (Seq::<Seq<char>>::empty(), line + s),
    decreases s.len(),
{
    if s.len() == 0 {
        assert(line + s =~= line);
    } else {
        unended_line_is_kept(s.drop_first(), line.push(s[0]));
        assert(line.push(s[0]) + s.drop_first() =~= line + s);
    }
}

/// How a stream is chunked does not matter: two chunks in a row end the same
/// lines, and leave the same rest, as the two in one.
pub proof fn chunking_does_not_matter(held: Seq<char>, a: Seq<char>, b: Seq<char>)
    ensures
        cut(held + (a + b), Seq::empty()).0 == cut(held + a, Seq::empty()).0 + cut(
            cut(held + a, Seq::empty()).1 + b,
            Seq::empty(),
        ).0,
        cut(held + (a + b), Seq::empty()).1 == cut(
            cut(held + a, Seq::empty()).1 + b,
            Seq::empty(),
        ).1,
{
    let none = Seq::<char>::empty();
    let left = cut(held + a, none).1;
    assert(held + (a + b) =~= (held + a) + b);
    cutting_goes_on(held + a, b, none);
    left_over_has_no_end(held + a, none);
    cutting_goes_on(left, b, none);
    unended_line_is_kept(left, none);
    assert(none + left =~= left);
    assert(Seq::<Seq<char>>::empty() + cut(b, left).0 =~= cut(b, left).0);
}

/// A line that can stand among others: no line feed in it, no carriage return
/// at its end.
pub open spec fn is_plain_line(line: Seq<char>) -> bool {
    &&& forall|i: int| 0 <= i < line.len() ==> #[trigger] line[i] != '\n'
    &&& (line.len() > 0 ==> line.last() != '\r')
}

proof fn line_is_gathered(s: Seq<char>, rest: Seq<char>, line: Seq<char>)
    requires
        forall|i: int| 0 <= i < s.len() ==> #[trigger] s[i] != '\n',
    ensures
        lines_from(s + rest, line) == lines_from(rest, line + s),
    decreases s.len(),
{
    if s.len() == 0 {
        assert(s + rest =~= rest);
        assert(line + s =~= line);
    } else {
        assert((s + rest).drop_first() =~= s.drop_first() + rest);
        assert((s + rest)[0] == s[0]);
        line_is_gathered(s.drop_first(), rest, line.push(s[0]));
        assert(line.push(s[0]) + s.drop_first() =~= line + s);
    }
}

proof fn joined_from_front(parts: Seq<Seq<char>>, sep: Seq<char>)
    requires
        parts.len() > 1,
    ensures
        text::joined(parts, sep) == parts[0] + sep + text::joined(parts.drop_first(), sep),
    decreases parts.len(),
{
    let front = parts.drop_last();
    if parts.len() == 2 {
        reveal_with_fuel(text::joined, 2);
        assert(front =~= seq![parts[0]]);
        assert(parts.drop_first() =~= seq![parts[1]]);
    } else {
        joined_from_front(front, sep);
        assert(front.drop_first() =~= parts.drop_first().drop_last());
        assert(parts.drop_first().last() == parts.last());
        assert(text::joined(parts, sep) =~= parts[0] + sep + text::joined(
            parts.drop_first(),
            sep,
        ));
    }
}

/// Lines joined with line feeds are the lines of the joint text, if each can
/// stand among others and the last is not empty.
pub proof fn joined_lines_read_back(parts: Seq<Seq<char>>)
    requires
        parts.len() > 0,
        forall|i: int| 0 <= i < parts.len() ==> is_plain_line(#[trigger] parts[i]),
        parts.last().len() > 0,
    ensures
        lines_of(text::joined(parts, "\n"@)) == parts,
    decreases parts.len(),
{
    reveal_strlit("\n");
    let sep = "\n"@;
    let none = Seq::<char>::empty();
    assert(sep =~= seq!['\n']);
    assert(is_plain_line(parts[0]));
    if parts.len() == 1 {
        assert(parts[0] + none =~= parts[0]);
        line_is_gathered(parts[0], none, none);
        assert(none + parts[0] =~= parts[0]);
        assert(seq![parts[0]] =~= parts);
    } else {
        let rest = parts.drop_first();
        assert forall|i: int| 0 <= i < rest.len() implies is_plain_line(#[trigger] rest[i]) by {
            assert(rest[i] == parts[i + 1]);
        }
        joined_lines_read_back(rest);
        joined_from_front(parts, sep);
        let after = text::joined(rest, sep);
        assert(parts[0] + sep + after =~= parts[0] + (sep + after));
        line_is_gathered(parts[0], sep + after, none);
        assert(none + parts[0] =~= parts[0]);
        assert((sep + after).drop_first() =~= after);
        assert((sep + after)[0] == '\n');
        assert(seq![parts[0]] + rest =~= parts);
    }
}

/// The tail of a text has exactly its last lines, if these can stand among
/// others and the last is not empty.
pub proof fn tail_has_the_last_lines(s: Seq<char>, count: nat)
    requires
        0 < count < lines_of(s).len(),
        forall|i: int|
            lines_of(s).len() - count <= i < lines_of(s).len() ==> is_plain_line(
                #[trigger] lines_of(s)[i],
            ),
        lines_of(s).last().len() > 0,
    ensures
        lines_of(tail(s, count)) == lines_of(s).skip(lines_of(s).len() - count),
{
    let all = lines_of(s);
    let last = all.skip(all.len() - count);
    assert forall|i: int| 0 <= i < last.len() implies is_plain_line(#[trigger] last[i]) by {
        assert(last[i] == all[all.len() - count + i]);
    }
    assert(last.last() == all.last());
    joined_lines_read_back(last);
}

} // verus!
