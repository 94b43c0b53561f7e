//! Processes run by the tools: what is known of each, and how input reaches
//! them.
use crate::outside;
use crate::text;
use vstd::prelude::*;
use vstd::string::*;

verus! {

/// A process started by a tool. Its output goes to log files, which are read
/// from where the last read ended.
#[derive(Debug)]
pub enum ManagedProcess {
    /// Runs behind pipes.
    Pipe {
        /// The process, as long as it runs.
        child_id: Option<u32>,
        /// Whether its standard input can still be written to.
        stdin_open: bool,
        stdout_path: String,
        stderr_path: String,
        stdout_pos: u64,
        stderr_pos: u64,
    },
    /// Runs in a terminal of its own, which has one output.
    Pty { child_id: Option<u32>, stdout_path: String, stdout_pos: u64 },
}

#[verifier::ext_equal]
pub struct ProcessView {
    pub pty: bool,
    pub child_id: Option<u32>,
    pub stdin_open: bool,
    pub stdout_path: Seq<char>,
    pub stderr_path: Option<Seq<char>>,
    pub stdout_pos: u64,
    pub stderr_pos: Option<u64>,
}

impl View for ManagedProcess {
    type V = ProcessView;

    open spec fn view(&self) -> ProcessView {
        match *self {
            ManagedProcess::Pipe {
                child_id,
                stdin_open,
                stdout_path,
                stderr_path,
                stdout_pos,
                stderr_pos,
            } => ProcessView {
                pty: false,
                child_id,
                stdin_open,
                stdout_path: stdout_path@,
                stderr_path: Some(stderr_path@),
                stdout_pos,
                stderr_pos: Some(stderr_pos),
            },
            ManagedProcess::Pty { child_id, stdout_path, stdout_pos } => ProcessView {
                pty: true,
                child_id,
                stdin_open: true,
                stdout_path: stdout_path@,
                stderr_path: None,
                stdout_pos,
                stderr_pos: None,
            },
        }
    }
}

impl ManagedProcess {
    pub fn child_id(&self) -> (r: Option<u32>)
        ensures
            r == self@.child_id,
    {
        match self {
            ManagedProcess::Pipe { child_id, .. } => *child_id,
            ManagedProcess::Pty { child_id, .. } => *child_id,
        }
    }

    pub fn stdout_path(&self) -> (r: &str)
        ensures
            r@ == self@.stdout_path,
    {
        match self {
            ManagedProcess::Pipe { stdout_path, .. } => stdout_path.as_str(),
            ManagedProcess::Pty { stdout_path, .. } => stdout_path.as_str(),
        }
    }

    pub fn stderr_path(&self) -> (r: Option<&str>)
        ensures
            match r {
                Some(path) => self@.stderr_path == Some(path@),
                None => self@.stderr_path is None,
            },
    {
        match self {
            ManagedProcess::Pipe { stderr_path, .. } => Some(stderr_path.as_str()),
            ManagedProcess::Pty { .. } => None,
        }
    }

    /// Where the next read of the output starts.
    pub fn stdout_pos(&self) -> (r: u64)
        ensures
            r == self@.stdout_pos,
    {
        match self {
            ManagedProcess::Pipe { stdout_pos, .. } => *stdout_pos,
            ManagedProcess::Pty { stdout_pos, .. } => *stdout_pos,
        }
    }

    /// Where the next read of the error output starts.
    pub fn stderr_pos(&self) -> (r: Option<u64>)
        ensures
            r == self@.stderr_pos,
    {
        match self {
            ManagedProcess::Pipe { stderr_pos, .. } => Some(*stderr_pos),
            ManagedProcess::Pty { .. } => None,
        }
    }
}

impl ProcessView {
    /// The process once its output was read up to these positions.
    pub open spec fn read_to(self, stdout_pos: u64, stderr_pos: Option<u64>) -> ProcessView {
        ProcessView {
            stdout_pos,
            stderr_pos: if self.stderr_pos is Some && stderr_pos is Some {
                stderr_pos
            } else {
                self.stderr_pos
            },
            ..self
        }
    }

    /// The process once its standard input was closed.
    pub open spec fn input_closed(self) -> ProcessView {
        ProcessView { stdin_open: self.pty, ..self }
    }
}

/// What is found of a process that was started.
#[derive(Debug, Clone, Copy, PartialEq, Eq, Structural)]
pub enum ChildState {
    /// It runs.
    Running,
    /// It ended, with an exit code unless a signal ended it.
    Ended(Option<i32>),
    /// It cannot be found out.
    Unknown,
    /// It is no longer kept.
    Gone,
}

// ── Input ─────────────────────────────────────────────────────────────

/// One step of writing to a process.
#[derive(Debug, Clone)]
pub enum WriteAction {
    Write(Vec<u8>),
    Flush,
    /// Wait this many milliseconds.
    Pause(u64),
    /// Close the standard input.
    CloseStdin,
}

/// A step, with how its failure is reported: the text goes before the cause.
#[derive(Debug, Clone)]
pub struct WriteStep {
    pub action: WriteAction,
    pub failure: &'static str,
}

#[verifier::ext_equal]
pub enum WriteActionView {
    Write(Seq<u8>),
    Flush,
    Pause(u64),
    CloseStdin,
}

#[verifier::ext_equal]
pub struct WriteStepView {
    pub action: WriteActionView,
    pub failure: Seq<char>,
}

impl View for WriteStep {
    type V = WriteStepView;

    open spec fn view(&self) -> WriteStepView {
        WriteStepView {
            action: match self.action {
                WriteAction::Write(bytes) => WriteActionView::Write(bytes@),
                WriteAction::Flush => WriteActionView::Flush,
                WriteAction::Pause(millis) => WriteActionView::Pause(millis),
                WriteAction::CloseStdin => WriteActionView::CloseStdin,
            },
            failure: self.failure@,
        }
    }
}

/// The steps, by what they do.
pub open spec fn step_views(steps: Seq<WriteStep>) -> Seq<WriteStepView> {
    steps.map_values(|s: WriteStep| s@)
}

impl WriteStep {
    /// What is reported when the step fails.
    pub fn failure_text(&self, cause: &str) -> (r: String)
        ensures
            r@ == self@.failure + cause@,
    {
        self.failure.to_owned().concat(cause)
    }
}

/// What ends a line of input.
pub open spec fn enter_bytes(pty: bool) -> Seq<u8> {
    if pty {
        seq![13u8, 10u8]
    } else {
        seq![10u8]
    }
}

/// Writing the bytes and flushing them.
pub open spec fn put_steps(
    bytes: Seq<u8>,
    write_failure: Seq<char>,
    flush_failure: Seq<char>,
) -> Seq<WriteStepView> {
    seq![
        WriteStepView { action: WriteActionView::Write(bytes), failure: write_failure },
        WriteStepView { action: WriteActionView::Flush, failure: flush_failure },
    ]
}

/// A step that cannot fail.
pub open spec fn sure_step(action: WriteActionView) -> WriteStepView {
    WriteStepView { action, failure: ""@ }
}

/// The steps that bring input to a process: the input, then the end of the
/// line unless it is not wanted, then the closing of the standard input if it
/// is.
pub open spec fn write_steps(
    p: ProcessView,
    input: Seq<u8>,
    no_enter: bool,
    close_stdin: bool,
) -> Seq<WriteStepView> {
    let first = if p.pty {
        put_steps(input, "Failed to write to PTY: "@, "Failed to flush PTY: "@)
    } else {
        put_steps(input, "Failed to write to stdin: "@, "Failed to flush stdin: "@)
    };
    let enter = if no_enter {
        Seq::empty()
    } else {
        seq![sure_step(WriteActionView::Pause(50))] + (if p.pty {
            put_steps(
                enter_bytes(true),
                "Failed to write PTY newline: "@,
                "Failed to flush PTY: "@,
            )
        } else {
            put_steps(enter_bytes(false), "Failed to write newline: "@, "Failed to flush stdin: "@)
        })
    };
    let close = if close_stdin && !p.pty {
        seq![sure_step(WriteActionView::CloseStdin)]
    } else {
        Seq::empty()
    };
    first + enter + close
}

fn add_sure(steps: &mut Vec<WriteStep>, action: WriteAction)
    requires
        action !is Write,
    ensures
        step_views(final(steps)@) == step_views(old(steps)@) + seq![
            sure_step((WriteStep { action, failure: "" })@.action),
        ],
{
    steps.push(WriteStep { action, failure: "" });
    assert(step_views(steps@) =~= step_views(old(steps)@) + seq![
        sure_step((WriteStep { action, failure: "" })@.action),
    ]);
}

fn put(
    steps: &mut Vec<WriteStep>,
    bytes: Vec<u8>,
    write_failure: &'static str,
    flush_failure: &'static str,
)
    ensures
        step_views(final(steps)@) == step_views(old(steps)@)
            + put_steps(bytes@, write_failure@, flush_failure@),
{
    steps.push(WriteStep { action: WriteAction::Write(bytes), failure: write_failure });
    steps.push(WriteStep { action: WriteAction::Flush, failure: flush_failure });
    assert(step_views(steps@) =~= step_views(old(steps)@)
        + put_steps(bytes@, write_failure@, flush_failure@));
}

/// The steps that bring input to a process.
pub fn write_input_to_process(
    proc: &ManagedProcess,
    input_bytes: &[u8],
    no_enter: bool,
    close_stdin: bool,
) -> (r: Result<Vec<WriteStep>, String>)
    ensures
        match r {
            Ok(steps) => proc@.stdin_open && step_views(steps@) == write_steps(
                proc@,
                input_bytes@,
                no_enter,
                close_stdin,
            ),
            Err(e) => !proc@.stdin_open && e@ == "Process stdin not available (already closed)"@,
        },
{
    let input = vstd::slice::slice_to_vec(input_bytes);
    let mut steps: Vec<WriteStep> = Vec::new();
    assert(step_views(steps@) =~= Seq::empty());
    match proc {
        ManagedProcess::Pipe { stdin_open, .. } => {
            if !*stdin_open {
                return Err("Process stdin not available (already closed)".to_owned());
            }
            put(&mut steps, input, "Failed to write to stdin: ", "Failed to flush stdin: ");
            if !no_enter {
                add_sure(&mut steps, WriteAction::Pause(50));
                let mut enter: Vec<u8> = Vec::new();
                enter.push(10u8);
                assert(enter@ =~= enter_bytes(false));
                put(&mut steps, enter, "Failed to write newline: ", "Failed to flush stdin: ");
            }
            if close_stdin {
                add_sure(&mut steps, WriteAction::CloseStdin);
            }
        },
        ManagedProcess::Pty { .. } => {
            put(&mut steps, input, "Failed to write to PTY: ", "Failed to flush PTY: ");
            if !no_enter {
                add_sure(&mut steps, WriteAction::Pause(50));
                let mut enter: Vec<u8> = Vec::new();
                enter.push(13u8);
                enter.push(10u8);
                assert(enter@ =~= enter_bytes(true));
                put(&mut steps, enter, "Failed to write PTY newline: ", "Failed to flush PTY: ");
            }
        },
    }
    assert(step_views(steps@) =~= write_steps(proc@, input_bytes@, no_enter, close_stdin));
    Ok(steps)
}

/// The bytes that the steps write, in their order.
pub open spec fn written(steps: Seq<WriteStepView>) -> Seq<u8>
    decreases steps.len(),
{
    if steps.len() == 0 {
        Seq::empty()
    } else {
        match steps.last().action {
            WriteActionView::Write(bytes) => written(steps.drop_last()) + bytes,
            _ => written(steps.drop_last()),
        }
    }
}

proof fn writing_goes_on(a: Seq<WriteStepView>, b: Seq<WriteStepView>)
    ensures
        written(a + b) == written(a) + written(b),
    decreases b.len(),
{
    if b.len() == 0 {
        assert(a + b =~= a);
        assert(written(a) + written(b) =~= written(a));
    } else {
        assert((a + b).drop_last() =~= a + b.drop_last());
        assert((a + b).last() == b.last());
        writing_goes_on(a, b.drop_last());
        if let WriteActionView::Write(bytes) = b.last().action {
            assert((written(a) + written(b.drop_last())) + bytes =~= written(a) + (written(
                b.drop_last(),
            ) + bytes));
        }
    }
}

proof fn putting_writes(bytes: Seq<u8>, write_failure: Seq<char>, flush_failure: Seq<char>)
    ensures
        written(put_steps(bytes, write_failure, flush_failure)) == bytes,
{
    let steps = put_steps(bytes, write_failure, flush_failure);
    let one = steps.drop_last();
    assert(one.last().action == WriteActionView::Write(bytes));
    assert(one.drop_last() =~= Seq::empty());
    assert(written(one.drop_last()) =~= Seq::empty());
    assert(written(one) =~= bytes);
    assert(steps.last().action == WriteActionView::Flush);
}

proof fn sure_step_writes_nothing(action: WriteActionView)
    requires
        action !is Write,
    ensures
        written(seq![sure_step(action)]) == Seq::<u8>::empty(),
{
    let steps = seq![sure_step(action)];
    assert(steps.drop_last() =~= Seq::empty());
    assert(steps.last() == sure_step(action));
    assert(written(steps.drop_last()) =~= Seq::empty());
}

/// What reaches a process is the input and, unless it is not wanted, the end
/// of a line, and nothing else.
pub proof fn input_arrives_whole(p: ProcessView, input: Seq<u8>, no_enter: bool, close_stdin: bool)
    ensures
        written(write_steps(p, input, no_enter, close_stdin)) == input + (if no_enter {
            Seq::empty()
        } else {
            enter_bytes(p.pty)
        }),
{
    let none = Seq::<WriteStepView>::empty();
    assert(written(none) =~= Seq::empty());
    let first = if p.pty {
        put_steps(input, "Failed to write to PTY: "@, "Failed to flush PTY: "@)
    } else {
        put_steps(input, "Failed to write to stdin: "@, "Failed to flush stdin: "@)
    };
    let newline = if p.pty {
        put_steps(enter_bytes(true), "Failed to write PTY newline: "@, "Failed to flush PTY: "@)
    } else {
        put_steps(enter_bytes(false), "Failed to write newline: "@, "Failed to flush stdin: "@)
    };
    let pause = seq![sure_step(WriteActionView::Pause(50))];
    let enter = if no_enter {
        none
    } else {
        pause + newline
    };
    let close = if close_stdin && !p.pty {
        seq![sure_step(WriteActionView::CloseStdin)]
    } else {
        none
    };
    if p.pty {
        putting_writes(input, "Failed to write to PTY: "@, "Failed to flush PTY: "@);
        putting_writes(
            enter_bytes(true),
            "Failed to write PTY newline: "@,
            "Failed to flush PTY: "@,
        );
    } else {
        putting_writes(input, "Failed to write to stdin: "@, "Failed to flush stdin: "@);
        putting_writes(
            enter_bytes(false),
            "Failed to write newline: "@,
            "Failed to flush stdin: "@,
        );
    }
    sure_step_writes_nothing(WriteActionView::Pause(50));
    sure_step_writes_nothing(WriteActionView::CloseStdin);
    writing_goes_on(pause, newline);
    assert(written(pause + newline) =~= enter_bytes(p.pty));
    writing_goes_on(first, enter);
    writing_goes_on(first + enter, close);
    assert(written(first + enter + close) =~= input + written(enter));
}

// ── Output ────────────────────────────────────────────────────────────

/// The bytes of a log from a position on.
pub open spec fn unread(log: Seq<u8>, pos: u64) -> Seq<u8> {
    if pos < log.len() {
        log.skip(pos as int)
    } else {
        Seq::empty()
    }
}

/// Where the next read starts after a read of a log of this size.
pub open spec fn next_pos(pos: u64, size: u64) -> u64 {
    if pos < size {
        size
    } else {
        pos
    }
}

/// What a read of a log file from a position gives, and where the next read
/// starts. `data` is what the file of `file_size` bytes holds from the
/// position on.
pub fn read_from_position(pos: u64, file_size: u64, data: &[u8]) -> (r: (String, u64))
    ensures
        pos >= file_size ==> r.0@.len() == 0,
        pos < file_size ==> r.0@ == outside::utf8_lossy(data@),
        pos < file_size && vstd::utf8::valid_utf8(data@) ==> r.0@ == vstd::utf8::decode_utf8(data@),
        r.1 == next_pos(pos, file_size),
        forall|log: Seq<u8>|
            log.len() == file_size && data@ == #[trigger] unread(log, pos)
                && vstd::utf8::valid_utf8(data@) ==> (r.0@, r.1) == text_read(log, pos),
{
    if pos >= file_size {
        (String::new(), pos)
    } else {
        (outside::decode_lossy(data), file_size)
    }
}

/// What a read of a log in UTF-8 from a position gives, and where the next
/// read starts.
pub open spec fn text_read(log: Seq<u8>, pos: u64) -> (Seq<char>, u64) {
    (vstd::utf8::decode_utf8(unread(log, pos)), next_pos(pos, log.len() as u64))
}

/// A log has grown from what it held before.
pub open spec fn grown(before: Seq<u8>, after: Seq<u8>) -> bool {
    before.len() <= after.len() <= u64::MAX && after.take(before.len() as int) == before
}

/// Reads of a growing log, one after the other, give every byte once.
pub proof fn reads_are_seamless(before: Seq<u8>, after: Seq<u8>, pos: u64)
    requires
        grown(before, after),
    ensures
        unread(before, pos) + unread(after, next_pos(pos, before.len() as u64)) == unread(
            after,
            pos,
        ),
{
    let next = next_pos(pos, before.len() as u64);
    assert forall|i: int| 0 <= i < before.len() implies before[i] == #[trigger] after[i] by {
        assert(after.take(before.len() as int)[i] == after[i]);
    }
    assert(unread(before, pos) + unread(after, next) =~= unread(after, pos));
}

// ── Table ─────────────────────────────────────────────────────────────

/// The entry `i` of the table is kept under `id`.
pub open spec fn listed<P>(table: Seq<(Seq<char>, P)>, id: Seq<char>, i: int) -> bool {
    0 <= i < table.len() && table[i].0 == id
}

/// The process kept under a key.
pub open spec fn process_of<P>(
    table: Seq<(Seq<char>, P)>,
    id: Seq<char>,
) -> Option<P> {
    if exists|i: int| listed(table, id, i) {
        Some(table[entry_of(table, id)].1)
    } else {
        None
    }
}

/// The entry of a key that is there.
pub open spec fn entry_of<P>(table: Seq<(Seq<char>, P)>, id: Seq<char>) -> int {
    choose|i: int| listed(table, id, i)
}

/// The table with another process under a key that is there.
pub open spec fn with_process<P>(
    table: Seq<(Seq<char>, P)>,
    id: Seq<char>,
    p: P,
) -> Seq<(Seq<char>, P)> {
    if process_of(table, id) is Some {
        table.update(entry_of(table, id), (id, p))
    } else {
        table
    }
}

/// The table with a process added under a key, or put in the place of the one
/// under it.
pub open spec fn with_new_process<P>(
    table: Seq<(Seq<char>, P)>,
    id: Seq<char>,
    p: P,
) -> Seq<(Seq<char>, P)> {
    if process_of(table, id) is Some {
        with_process(table, id, p)
    } else {
        table.push((id, p))
    }
}

/// The table without the process under a key.
pub open spec fn without_process<P>(
    table: Seq<(Seq<char>, P)>,
    id: Seq<char>,
) -> Seq<(Seq<char>, P)> {
    if process_of(table, id) is Some {
        table.remove(entry_of(table, id))
    } else {
        table
    }
}

/// No two entries have the same key.
pub open spec fn entries_distinct<P>(table: Seq<(Seq<char>, P)>) -> bool {
    forall|i: int, j: int|
        0 <= i < j < table.len() ==> (#[trigger] table[i]).0 != (#[trigger] table[j]).0
}

/// With distinct keys, the entry that has a key is its entry.
pub proof fn entry_is_unique<P>(table: Seq<(Seq<char>, P)>, id: Seq<char>, i: int)
    requires
        entries_distinct(table),
        listed(table, id, i),
    ensures
        entry_of(table, id) == i,
        process_of(table, id) == Some(table[i].1),
{
    let e = entry_of(table, id);
    assert(listed(table, id, e));
    if e < i {
        assert(table[e].0 != table[i].0);
    } else if i < e {
        assert(table[i].0 != table[e].0);
    }
}

/// What is put under a key is found there, and every other key keeps its
/// process.
pub proof fn put_process_is_found<P>(
    table: Seq<(Seq<char>, P)>,
    id: Seq<char>,
    p: P,
)
    requires
        entries_distinct(table),
    ensures
        entries_distinct(with_new_process(table, id, p)),
        process_of(with_new_process(table, id, p), id) == Some(p),
        forall|other: Seq<char>|
            other != id ==> #[trigger] process_of(with_new_process(table, id, p), other)
                == process_of(table, other),
{
    let next = with_new_process(table, id, p);
    let at: int = if process_of(table, id) is Some {
        entry_of(table, id)
    } else {
        table.len() as int
    };
    if process_of(table, id) is Some {
        assert(listed(table, id, at));
    }
    assert forall|i: int| 0 <= i < table.len() implies (#[trigger] next[i]).0 == table[i].0 by {}
    assert(entries_distinct(next)) by {
        assert forall|i: int, j: int| 0 <= i < j < next.len() implies (#[trigger] next[i]).0 != (
        #[trigger] next[j]).0 by {
            if j == table.len() {
                if table[i].0 == id {
                    assert(listed(table, id, i));
                }
            }
        }
    }
    assert(listed(next, id, at));
    entry_is_unique(next, id, at);
    assert forall|other: Seq<char>| other != id implies #[trigger] process_of(next, other)
        == process_of(table, other) by {
        if process_of(table, other) is Some {
            let o = entry_of(table, other);
            assert(listed(table, other, o));
            assert(listed(next, other, o));
            entry_is_unique(next, other, o);
        }
        if process_of(next, other) is Some {
            let o = entry_of(next, other);
            assert(listed(next, other, o));
            assert(listed(table, other, o));
        }
    }
}

/// What is taken out of the table is gone, and every other key keeps its
/// process.
pub proof fn removed_process_is_gone<P>(table: Seq<(Seq<char>, P)>, id: Seq<char>)
    requires
        entries_distinct(table),
    ensures
        entries_distinct(without_process(table, id)),
        process_of(without_process(table, id), id) is None,
        forall|other: Seq<char>|
            other != id ==> #[trigger] process_of(without_process(table, id), other) == process_of(
                table,
                other,
            ),
{
    let next = without_process(table, id);
    if process_of(table, id) is Some {
        let at = entry_of(table, id);
        assert(listed(table, id, at));
        assert forall|i: int| 0 <= i < next.len() implies (#[trigger] next[i]) == table[if i < at {
            i
        } else {
            i + 1
        }] by {}
        if exists|i: int| listed(next, id, i) {
            let i = entry_of(next, id);
            assert(listed(next, id, i));
            let o = if i < at {
                i
            } else {
                i + 1
            };
            assert(listed(table, id, o));
            entry_is_unique(table, id, o);
        }
        assert forall|other: Seq<char>| other != id implies #[trigger] process_of(next, other)
            == process_of(table, other) by {
            if process_of(table, other) is Some {
                let o = entry_of(table, other);
                assert(listed(table, other, o));
                let i = if o < at {
                    o
                } else {
                    o - 1
                };
                assert(listed(next, other, i));
                entry_is_unique(next, other, i);
            }
            if process_of(next, other) is Some {
                let i = entry_of(next, other);
                assert(listed(next, other, i));
                let o = if i < at {
                    i
                } else {
                    i + 1
                };
                assert(listed(table, other, o));
            }
        }
    }
}

/// The processes that the tools have started, by task.
#[derive(Debug)]
pub struct ProcessTable {
    entries: Vec<(String, ManagedProcess)>,
}

impl View for ProcessTable {
    type V = Seq<(Seq<char>, ProcessView)>;

    closed spec fn view(&self) -> Seq<(Seq<char>, ProcessView)> {
        self.entries@.map_values(|e: (String, ManagedProcess)| (e.0@, e.1@))
    }
}

impl ProcessTable {
    /// The invariant of every table.
    pub open spec fn wf(&self) -> bool {
        entries_distinct(self@)
    }

    pub fn new() -> (r: ProcessTable)
        ensures
            r.wf(),
            r@ == Seq::<(Seq<char>, ProcessView)>::empty(),
    {
        let r = ProcessTable { entries: Vec::new() };
        assert(r@ =~= Seq::<(Seq<char>, ProcessView)>::empty());
        r
    }

    fn position(&self, id: &str) -> (r: Option<usize>)
        requires
            self.wf(),
        ensures
            match r {
                Some(i) => process_of(self@, id@) is Some && i == entry_of(self@, id@) && i
                    < self.entries@.len(),
                None => process_of(self@, id@) is None,
            },
    {
        let mut i: usize = 0;
        while i < self.entries.len()
            invariant
                i <= self.entries@.len(),
                self.wf(),
                forall|j: int| 0 <= j < i ==> self@[j].0 != id@,
            decreases self.entries.len() - i,
        {
            if text::same_text(self.entries[i].0.as_str(), id) {
                assert(listed(self@, id@, i as int));
                proof {
                    entry_is_unique(self@, id@, i as int);
                }
                return Some(i);
            }
            i += 1;
        }
        None
    }

    pub fn insert(&mut self, id: String, process: ManagedProcess)
        requires
            old(self).wf(),
        ensures
            final(self).wf(),
            final(self)@ == with_new_process(old(self)@, id@, process@),
    {
        proof {
            put_process_is_found(self@, id@, process@);
        }
        match self.position(id.as_str()) {
            Some(i) => {
                self.entries.set(i, (id, process));
            },
            None => {
                self.entries.push((id, process));
            },
        }
        assert(self@ =~= with_new_process(old(self)@, id@, process@));
    }

    pub fn get(&self, id: &str) -> (r: Option<&ManagedProcess>)
        requires
            self.wf(),
        ensures
            match r {
                Some(p) => process_of(self@, id@) == Some(p@),
                None => process_of(self@, id@) is None,
            },
    {
        match self.position(id) {
            Some(i) => Some(&self.entries[i].1),
            None => None,
        }
    }

    pub fn remove(&mut self, id: &str) -> (r: Option<ManagedProcess>)
        requires
            old(self).wf(),
        ensures
            final(self).wf(),
            final(self)@ == without_process(old(self)@, id@),
            match r {
                Some(p) => process_of(old(self)@, id@) == Some(p@),
                None => process_of(old(self)@, id@) is None,
            },
    {
        proof {
            removed_process_is_gone(self@, id@);
        }
        match self.position(id) {
            Some(i) => {
                let (_key, process) = self.entries.remove(i);
                assert(self@ =~= without_process(old(self)@, id@));
                Some(process)
            },
            None => None,
        }
    }

    /// Takes all processes out of the table.
    pub fn drain(&mut self) -> (r: Vec<ManagedProcess>)
        ensures
            final(self).wf(),
            final(self)@ == Seq::<(Seq<char>, ProcessView)>::empty(),
            r@.map_values(|p: ManagedProcess| p@) == old(self)@.map_values(
                |e: (Seq<char>, ProcessView)| e.1,
            ),
    {
        let mut r: Vec<ManagedProcess> = Vec::new();
        let ghost all = self@;
        while self.entries.len() > 0
            invariant
                self@.len() + r@.len() == all.len(),
                self@ == all.skip(r@.len() as int),
                forall|k: int| 0 <= k < r@.len() ==> (#[trigger] r@[k])@ == all[k].1,
            decreases self.entries.len(),
        {
            let ghost before = self@;
            let (_key, process) = self.entries.remove(0);
            assert(before[0] == all[r@.len() as int]);
            r.push(process);
            assert(self@ =~= before.remove(0));
            assert(self@ =~= all.skip(r@.len() as int));
        }
        assert(self@ =~= Seq::<(Seq<char>, ProcessView)>::empty());
        assert(r@.map_values(|p: ManagedProcess| p@) =~= all.map_values(
            |e: (Seq<char>, ProcessView)| e.1,
        ));
        r
    }

    /// Takes down which process is running, or that none is.
    pub fn set_child_id(&mut self, id: &str, running: Option<u32>)
        requires
            old(self).wf(),
        ensures
            final(self).wf(),
            match process_of(old(self)@, id@) {
                Some(p) => final(self)@ == with_process(
                    old(self)@,
                    id@,
                    ProcessView { child_id: running, ..p },
                ),
                None => final(self)@ == old(self)@,
            },
    {
        if let Some(i) = self.position(id) {
            let ghost p = self@[i as int].1;
            proof {
                put_process_is_found(self@, id@, ProcessView { child_id: running, ..p });
            }
            match &mut self.entries[i].1 {
                ManagedProcess::Pipe { child_id, .. } => {
                    *child_id = running;
                },
                ManagedProcess::Pty { child_id, .. } => {
                    *child_id = running;
                },
            }
            assert(self@ =~= with_process(
                old(self)@,
                id@,
                ProcessView { child_id: running, ..p },
            ));
        }
    }

    /// Takes down how far the output was read.
    pub fn record_offsets(&mut self, id: &str, stdout_to: u64, stderr_to: Option<u64>)
        requires
            old(self).wf(),
        ensures
            final(self).wf(),
            match process_of(old(self)@, id@) {
                Some(p) => final(self)@ == with_process(
                    old(self)@,
                    id@,
                    p.read_to(stdout_to, stderr_to),
                ),
                None => final(self)@ == old(self)@,
            },
    {
        if let Some(i) = self.position(id) {
            let ghost p = self@[i as int].1;
            proof {
                put_process_is_found(self@, id@, p.read_to(stdout_to, stderr_to));
            }
            match &mut self.entries[i].1 {
                ManagedProcess::Pipe { stdout_pos, stderr_pos, .. } => {
                    *stdout_pos = stdout_to;
                    if let Some(pos) = stderr_to {
                        *stderr_pos = pos;
                    }
                },
                ManagedProcess::Pty { stdout_pos, .. } => {
                    *stdout_pos = stdout_to;
                },
            }
            assert(self@ =~= with_process(old(self)@, id@, p.read_to(stdout_to, stderr_to)));
        }
    }

    /// Takes down that the standard input of a process was closed.
    pub fn stdin_closed(&mut self, id: &str)
        requires
            old(self).wf(),
        ensures
            final(self).wf(),
            match process_of(old(self)@, id@) {
                Some(p) => final(self)@ == with_process(old(self)@, id@, p.input_closed()),
                None => final(self)@ == old(self)@,
            },
    {
        if let Some(i) = self.position(id) {
            let ghost p = self@[i as int].1;
            proof {
                put_process_is_found(self@, id@, p.input_closed());
            }
            match &mut self.entries[i].1 {
                ManagedProcess::Pipe { stdin_open, .. } => {
                    *stdin_open = false;
                },
                ManagedProcess::Pty { .. } => {},
            }
            assert(self@ =~= with_process(old(self)@, id@, p.input_closed()));
        }
    }
}

} // verus!
