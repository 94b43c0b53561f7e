//! Output of processes: how it is shown, and how long a reader waits for it.
use crate::outside;
use crate::tasks::TaskRegistry;
use crate::text;
use crate::time::{Moment, Span};
use vstd::prelude::*;
use vstd::string::*;
use vstd::utf8::*;

verus! {

// ── Showing ───────────────────────────────────────────────────────────

/// A piece of output as it is shown: whole lines, or a remark that there is
/// nothing.
pub open spec fn section(output: Seq<char>) -> Seq<char> {
    if output.len() == 0 {
        "(empty)\n"@
    } else if output.last() == '\n' {
        output
    } else {
        output.push('\n')
    }
}

/// What a reader is shown: both outputs and where they are kept.
pub open spec fn formatted(
    stdout: Seq<char>,
    stderr: Seq<char>,
    stdout_path: Seq<char>,
    stderr_path: Option<Seq<char>>,
) -> Seq<char> {
    let shown = "── stdout ──\n"@ + section(stdout) + "\n── stderr ──\n"@ + section(stderr)
        + "\n── files ──\nstdout: "@ + stdout_path + "\n"@;
    match stderr_path {
        Some(path) => shown + "stderr: "@ + path + "\n"@,
        None => shown,
    }
}

fn add_section(shown: &mut String, output: &str)
    ensures
        final(shown)@ == old(shown)@ + section(output@),
{
    let cs = text::chars_of(output);
    if cs.len() == 0 {
        shown.append("(empty)\n");
    } else {
        shown.append(output);
        if cs[cs.len() - 1] != '\n' {
            shown.push('\n');
            assert(shown@ =~= old(shown)@ + output@.push('\n'));
        }
    }
}

/// What a reader is shown: both outputs and where they are kept.
pub fn format_output(
    stdout: &str,
    stderr: &str,
    stdout_path: &str,
    stderr_path: &Option<String>,
) -> (r: String)
    ensures
        r@ == formatted(stdout@, stderr@, stdout_path@, text::opt_text(*stderr_path)),
{
    let mut r = "── stdout ──\n".to_owned();
    add_section(&mut r, stdout);
    r.append("\n── stderr ──\n");
    add_section(&mut r, stderr);
    r.append("\n── files ──\nstdout: ");
    r.append(stdout_path);
    r.append("\n");
    if let Some(path) = stderr_path {
        r.append("stderr: ");
        r.append(path.as_str());
        r.append("\n");
    }
    r
}

/// Output without the escape sequences of a terminal, if they are not wanted.
pub open spec fn plain(output: Seq<char>, strip_ansi: bool) -> Seq<char> {
    if strip_ansi {
        outside::utf8_lossy(outside::ansi_stripped(encode_utf8(output)))
    } else {
        output
    }
}

/// Output without the escape sequences of a terminal, if they are not wanted.
pub fn plain_output(output: &str, strip_ansi: bool) -> (r: String)
    ensures
        r@ == plain(output@, strip_ansi),
{
    if strip_ansi {
        let stripped = outside::strip_escapes(output.as_bytes());
        outside::decode_lossy(stripped.as_slice())
    } else {
        output.to_owned()
    }
}

// ── Waiting ───────────────────────────────────────────────────────────

/// How long a reader waits unless told otherwise, in milliseconds.
pub const DEFAULT_WAIT_MS: u64 = 30_000;

/// How long output must pause for a reader without a pattern to stop, in
/// milliseconds.
pub const IDLE_MS: u64 = 300;

/// A reader that waits for output.
#[derive(Debug)]
pub struct ReadWait {
    /// What the reader waits for; any output if none is given.
    pub pattern: Option<String>,
    /// Whether the process ran when the reader came.
    pub running: bool,
    pub deadline: Moment,
    /// When output last came.
    pub idle_since: Moment,
    pub stdout: String,
    pub stderr: String,
    pub stdout_pos: u64,
    pub stderr_pos: Option<u64>,
}

#[verifier::ext_equal]
pub struct ReadWaitView {
    pub pattern: Option<Seq<char>>,
    pub running: bool,
    pub deadline: Moment,
    pub idle_since: Moment,
    pub stdout: Seq<char>,
    pub stderr: Seq<char>,
    pub stdout_pos: u64,
    pub stderr_pos: Option<u64>,
}

impl View for ReadWait {
    type V = ReadWaitView;

    open spec fn view(&self) -> ReadWaitView {
        ReadWaitView {
            pattern: text::opt_text(self.pattern),
            running: self.running,
            deadline: self.deadline,
            idle_since: self.idle_since,
            stdout: self.stdout@,
            stderr: self.stderr@,
            stdout_pos: self.stdout_pos,
            stderr_pos: self.stderr_pos,
        }
    }
}

/// A stretch of milliseconds.
pub open spec fn millis(n: u64) -> Span {
    Span { nanos: (n * crate::time::NANOS_PER_MILLI) as u128 }
}

impl ReadWaitView {
    /// A reader that comes at `now` and has read up to the positions.
    pub open spec fn begun(
        pattern: Option<Seq<char>>,
        timeout_ms: Option<u64>,
        running: bool,
        stdout_pos: u64,
        stderr_pos: Option<u64>,
        now: Moment,
    ) -> ReadWaitView {
        ReadWaitView {
            pattern,
            running,
            deadline: now.after(
                millis(
                    match timeout_ms {
                        Some(n) => n,
                        None => DEFAULT_WAIT_MS,
                    },
                ),
            ),
            idle_since: now,
            stdout: Seq::empty(),
            stderr: Seq::empty(),
            stdout_pos,
            stderr_pos,
        }
    }

    /// The reader once a chunk of output, read at `now`, has come.
    pub open spec fn heard_stdout(self, chunk: Seq<char>, pos: u64, now: Moment) -> ReadWaitView {
        if chunk.len() > 0 {
            ReadWaitView { stdout: self.stdout + chunk, stdout_pos: pos, idle_since: now, ..self }
        } else {
            self
        }
    }

    /// The reader once a chunk of error output, read at `now`, has come.
    pub open spec fn heard_stderr(self, chunk: Seq<char>, pos: u64, now: Moment) -> ReadWaitView {
        if chunk.len() > 0 {
            ReadWaitView {
                stderr: self.stderr + chunk,
                stderr_pos: Some(pos),
                idle_since: now,
                ..self
            }
        } else {
            self
        }
    }

    /// The pattern has appeared.
    pub open spec fn satisfied(self) -> bool {
        match self.pattern {
            Some(p) => text::occurs_in(self.stdout, p) || text::occurs_in(self.stderr, p),
            None => false,
        }
    }

    /// Output has come and has paused.
    pub open spec fn idle(self, now: Moment) -> bool {
        &&& self.pattern is None
        &&& self.stdout.len() > 0 || self.stderr.len() > 0
        &&& now.since(self.idle_since).nanos >= millis(IDLE_MS).nanos
    }

    /// The reader waits no longer.
    pub open spec fn over(self, now: Moment) -> bool {
        self.satisfied() || !self.running || now.reached(self.deadline) || self.idle(now)
    }
}

impl ReadWait {
    pub fn begin(
        pattern: Option<String>,
        timeout_ms: Option<u64>,
        running: bool,
        stdout_pos: u64,
        stderr_pos: Option<u64>,
        now: Moment,
    ) -> (r: ReadWait)
        ensures
            r@ == ReadWaitView::begun(
                text::opt_text(pattern),
                timeout_ms,
                running,
                stdout_pos,
                stderr_pos,
                now,
            ),
    {
        let wait: u64 = match timeout_ms {
            Some(n) => n,
            None => DEFAULT_WAIT_MS,
        };
        let r = ReadWait {
            pattern,
            running,
            deadline: now.plus(Span::from_millis(wait)),
            idle_since: now,
            stdout: String::new(),
            stderr: String::new(),
            stdout_pos,
            stderr_pos,
        };
        assert(r@.stdout =~= Seq::empty());
        assert(r@.stderr =~= Seq::empty());
        r
    }

    pub fn hear_stdout(&mut self, chunk: &str, pos: u64, now: Moment)
        ensures
            final(self)@ == old(self)@.heard_stdout(chunk@, pos, now),
    {
        if !is_blank(chunk) {
            self.stdout.append(chunk);
            self.stdout_pos = pos;
            self.idle_since = now;
        }
    }

    pub fn hear_stderr(&mut self, chunk: &str, pos: u64, now: Moment)
        ensures
            final(self)@ == old(self)@.heard_stderr(chunk@, pos, now),
    {
        if !is_blank(chunk) {
            self.stderr.append(chunk);
            self.stderr_pos = Some(pos);
            self.idle_since = now;
        }
    }

    /// Whether the reader waits no longer.
    pub fn is_over(&self, now: Moment) -> (r: bool)
        ensures
            r == self@.over(now),
    {
        if let Some(p) = &self.pattern {
            if text::contains_text(self.stdout.as_str(), p.as_str()) || text::contains_text(
                self.stderr.as_str(),
                p.as_str(),
            ) {
                return true;
            }
        }
        if !self.running {
            return true;
        }
        if now.has_reached(self.deadline) {
            return true;
        }
        let heard = !is_blank(self.stdout.as_str()) || !is_blank(self.stderr.as_str());
        self.pattern.is_none() && heard && now.duration_since(self.idle_since).nanos
            >= Span::from_millis(IDLE_MS).nanos
    }
}

fn is_blank(s: &str) -> (r: bool)
    ensures
        r == (s@.len() == 0),
{
    text::chars_of(s).len() == 0
}

/// A reader with a pattern, on a running process and before the deadline,
/// waits exactly until the pattern appears, however the output is cut.
pub proof fn waits_for_the_pattern(w: ReadWaitView, now: Moment)
    requires
        w.pattern is Some,
        w.running,
        !now.reached(w.deadline),
    ensures
        w.over(now) <==> text::occurs_in(w.stdout, w.pattern.unwrap()) || text::occurs_in(
            w.stderr,
            w.pattern.unwrap(),
        ),
        forall|chunk: Seq<char>, pos: u64|
            text::occurs_in(w.stdout + chunk, w.pattern.unwrap()) ==> #[trigger] w.heard_stdout(
                chunk,
                pos,
                now,
            ).over(now),
{
    assert forall|chunk: Seq<char>, pos: u64|
        text::occurs_in(w.stdout + chunk, w.pattern.unwrap()) implies #[trigger] w.heard_stdout(
        chunk,
        pos,
        now,
    ).over(now) by {
        if chunk.len() == 0 {
            assert(w.stdout + chunk =~= w.stdout);
        }
    }
}

/// No reader waits past its deadline, and none waits for a process that does
/// not run.
pub proof fn waiting_ends(w: ReadWaitView, now: Moment)
    ensures
        now.reached(w.deadline) ==> w.over(now),
        !w.running ==> w.over(now),
{
}

// ── Watching for a pattern ────────────────────────────────────────────

/// Watches the lines of a process for a pattern and tells of its first
/// appearance only.
#[derive(Debug)]
pub struct PatternWatch {
    pub pattern: Option<String>,
    pub fired: bool,
}

#[verifier::ext_equal]
pub struct PatternWatchView {
    pub pattern: Option<Seq<char>>,
    pub fired: bool,
}

impl View for PatternWatch {
    type V = PatternWatchView;

    open spec fn view(&self) -> PatternWatchView {
        PatternWatchView { pattern: text::opt_text(self.pattern), fired: self.fired }
    }
}

impl PatternWatchView {
    /// The line holds the pattern, for the first time.
    pub open spec fn hit(self, line: Seq<char>) -> bool {
        !self.fired && self.pattern is Some && text::occurs_in(line, self.pattern.unwrap())
    }

    /// The watch once it has seen a line.
    pub open spec fn after(self, line: Seq<char>) -> PatternWatchView {
        PatternWatchView { fired: self.fired || self.hit(line), ..self }
    }

    /// The lines that are told of, out of those that come one after another.
    pub open spec fn told(self, lines: Seq<Seq<char>>) -> Seq<Seq<char>>
        decreases lines.len(),
    {
        if lines.len() == 0 {
            Seq::empty()
        } else {
            let rest = self.after(lines[0]).told(lines.skip(1));
            if self.hit(lines[0]) {
                seq![lines[0]] + rest
            } else {
                rest
            }
        }
    }
}

impl PatternWatch {
    pub fn new(pattern: Option<String>) -> (r: PatternWatch)
        ensures
            r@ == (PatternWatchView { pattern: text::opt_text(pattern), fired: false }),
    {
        PatternWatch { pattern, fired: false }
    }

    /// Sees a line, and gives the pattern if it is to be told of.
    pub fn observe(&mut self, line: &str) -> (r: Option<String>)
        ensures
            final(self)@ == old(self)@.after(line@),
            text::opt_text(r) == (if old(self)@.hit(line@) {
                old(self)@.pattern
            } else {
                None
            }),
    {
        if self.fired {
            return None;
        }
        match &self.pattern {
            Some(p) => {
                if text::contains_text(line, p.as_str()) {
                    let found = p.clone();
                    self.fired = true;
                    Some(found)
                } else {
                    None
                }
            },
            None => None,
        }
    }

    /// Sees a line of a task at `now`, and tells the registry of the pattern.
    pub fn watch_line_at(
        &mut self,
        registry: &mut TaskRegistry,
        task_id: &str,
        line: &str,
        now: Moment,
    )
        requires
            old(registry).wf(),
        ensures
            final(registry).wf(),
            final(registry).latest() == old(registry).latest(),
            final(self)@ == old(self)@.after(line@),
            final(registry)@ == (if old(self)@.hit(line@) {
                old(registry)@.matched(task_id@, old(self)@.pattern.unwrap(), line@, now)
            } else {
                old(registry)@
            }),
    {
        if let Some(found) = self.observe(line) {
            registry.pattern_matched_at(task_id, found, line.to_owned(), now);
        }
    }
}

/// A watch that has told of its pattern tells of nothing more.
proof fn fired_is_silent(w: PatternWatchView, lines: Seq<Seq<char>>)
    requires
        w.fired,
    ensures
        w.told(lines) == Seq::<Seq<char>>::empty(),
    decreases lines.len(),
{
    if lines.len() > 0 {
        fired_is_silent(w.after(lines[0]), lines.skip(1));
    }
}

/// Of all the lines that come, a new watch tells of the first one that holds
/// the pattern, and of no other.
pub proof fn pattern_is_told_once(pattern: Seq<char>, lines: Seq<Seq<char>>, first: int)
    requires
        0 <= first < lines.len(),
        text::occurs_in(lines[first], pattern),
        forall|i: int| 0 <= i < first ==> !text::occurs_in(#[trigger] lines[i], pattern),
    ensures
        (PatternWatchView { pattern: Some(pattern), fired: false }).told(lines) == seq![
            lines[first],
        ],
    decreases lines.len(),
{
    let w = PatternWatchView { pattern: Some(pattern), fired: false };
    if first == 0 {
        fired_is_silent(w.after(lines[0]), lines.skip(1));
        assert(seq![lines[0]] + Seq::<Seq<char>>::empty() =~= seq![lines[0]]);
    } else {
        let rest = lines.skip(1);
        assert(!text::occurs_in(lines[0], pattern));
        assert(w.after(lines[0]) == w);
        assert(rest[first - 1] == lines[first]);
        assert forall|i: int| 0 <= i < first - 1 implies !text::occurs_in(
            #[trigger] rest[i],
            pattern,
        ) by {
            assert(rest[i] == lines[i + 1]);
        }
        pattern_is_told_once(pattern, rest, first - 1);
    }
}

/// A watch tells of nothing where the pattern does not appear.
pub proof fn nothing_is_told_without_the_pattern(pattern: Seq<char>, lines: Seq<Seq<char>>)
    requires
        forall|i: int| 0 <= i < lines.len() ==> !text::occurs_in(#[trigger] lines[i], pattern),
    ensures
        (PatternWatchView { pattern: Some(pattern), fired: false }).told(lines)
            == Seq::<Seq<char>>::empty(),
    decreases lines.len(),
{
    let w = PatternWatchView { pattern: Some(pattern), fired: false };
    if lines.len() > 0 {
        let rest = lines.skip(1);
        assert(!text::occurs_in(lines[0], pattern));
        assert(w.after(lines[0]) == w);
        assert forall|i: int| 0 <= i < rest.len() implies !text::occurs_in(
            #[trigger] rest[i],
            pattern,
        ) by {
            assert(rest[i] == lines[i + 1]);
        }
        nothing_is_told_without_the_pattern(pattern, rest);
    }
}

} // verus!
