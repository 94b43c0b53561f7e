//! Reading the output of process tasks.
use crate::arguments;
use crate::arguments::{JsonObject, MemberView};
use crate::lines;
use crate::output;
use crate::output::{ReadWait, ReadWaitView};
use crate::process;
use crate::process::ProcessView;
use crate::send_input;
use crate::task_client::TasksClient;
use crate::tasks::{RegistryView, TaskRegistry};
use crate::text;
use crate::time::Moment;
use vstd::prelude::*;
use vstd::string::*;

verus! {

// ── Arguments ─────────────────────────────────────────────────────────

/// The arguments of `read_output`, as far as they are of the right type.
#[derive(Debug)]
pub struct ReadArguments {
    pub task_id: Option<String>,
    pub wait_for: Option<String>,
    pub timeout_ms: Option<u64>,
    pub strip_ansi: Option<bool>,
    pub limit_lines: Option<u64>,
}

#[verifier::ext_equal]
pub struct ReadArgumentsView {
    pub task_id: Option<Seq<char>>,
    pub wait_for: Option<Seq<char>>,
    pub timeout_ms: Option<u64>,
    pub strip_ansi: Option<bool>,
    pub limit_lines: Option<u64>,
}

impl View for ReadArguments {
    type V = ReadArgumentsView;

    open spec fn view(&self) -> ReadArgumentsView {
        ReadArgumentsView {
            task_id: text::opt_text(self.task_id),
            wait_for: text::opt_text(self.wait_for),
            timeout_ms: self.timeout_ms,
            strip_ansi: self.strip_ansi,
            limit_lines: self.limit_lines,
        }
    }
}

impl ReadArgumentsView {
    /// What the members of an object say.
    pub open spec fn of(object: Map<Seq<char>, MemberView>) -> ReadArgumentsView {
        ReadArgumentsView {
            task_id: arguments::text_in(object, "task_id"@),
            wait_for: arguments::text_in(object, "wait_for"@),
            timeout_ms: arguments::number_in(object, "timeout_ms"@),
            strip_ansi: arguments::flag_in(object, "strip_ansi"@),
            limit_lines: arguments::number_in(object, "limit_lines"@),
        }
    }
}

impl ReadArguments {
    pub fn read(object: &JsonObject) -> (r: ReadArguments)
        ensures
            r@ == ReadArgumentsView::of(arguments::members(*object)),
    {
        ReadArguments {
            task_id: arguments::get_text(object, "task_id"),
            wait_for: arguments::get_text(object, "wait_for"),
            timeout_ms: arguments::get_number(object, "timeout_ms"),
            strip_ansi: arguments::get_flag(object, "strip_ansi"),
            limit_lines: arguments::get_number(object, "limit_lines"),
        }
    }
}

// ── Plans ─────────────────────────────────────────────────────────────

/// How the output is read.
#[derive(Debug)]
pub enum ReadMode {
    /// In rounds, until the reader waits no longer. If a limit is given, the
    /// last lines of all the output are shown then.
    Wait { wait: ReadWait, limit: Option<usize> },
    /// All of it, of which the last lines are shown.
    Tail(usize),
    /// Once, from where the last read ended.
    Increment { stdout_pos: u64, stderr_pos: Option<u64> },
}

#[verifier::ext_equal]
pub enum ReadModeView {
    Wait { wait: ReadWaitView, limit: Option<usize> },
    Tail(usize),
    Increment { stdout_pos: u64, stderr_pos: Option<u64> },
}

/// A read to be done.
#[derive(Debug)]
pub struct ReadPlan {
    pub task_id: String,
    pub stdout_path: String,
    pub stderr_path: Option<String>,
    pub strip_ansi: bool,
    pub mode: ReadMode,
}

#[verifier::ext_equal]
pub struct ReadPlanView {
    pub task_id: Seq<char>,
    pub stdout_path: Seq<char>,
    pub stderr_path: Option<Seq<char>>,
    pub strip_ansi: bool,
    pub mode: ReadModeView,
}

impl View for ReadPlan {
    type V = ReadPlanView;

    open spec fn view(&self) -> ReadPlanView {
        ReadPlanView {
            task_id: self.task_id@,
            stdout_path: self.stdout_path@,
            stderr_path: text::opt_text(self.stderr_path),
            strip_ansi: self.strip_ansi,
            mode: match self.mode {
                ReadMode::Wait { wait, limit } => ReadModeView::Wait { wait: wait@, limit },
                ReadMode::Tail(count) => ReadModeView::Tail(count),
                ReadMode::Increment { stdout_pos, stderr_pos } => ReadModeView::Increment {
                    stdout_pos,
                    stderr_pos,
                },
            },
        }
    }
}

/// What a round of waiting comes to.
#[derive(Debug)]
pub enum WaitVerdict {
    /// The reader waits on.
    Waiting,
    /// The reader waits no longer; this is the reply.
    Shown(String),
    /// The reader waits no longer; all the output is to be read, and so many
    /// of its last lines are shown.
    ShowTail(usize),
}

#[verifier::ext_equal]
pub enum WaitVerdictView {
    Waiting,
    Shown(Seq<char>),
    ShowTail(usize),
}

impl View for WaitVerdict {
    type V = WaitVerdictView;

    open spec fn view(&self) -> WaitVerdictView {
        match *self {
            WaitVerdict::Waiting => WaitVerdictView::Waiting,
            WaitVerdict::Shown(reply) => WaitVerdictView::Shown(reply@),
            WaitVerdict::ShowTail(count) => WaitVerdictView::ShowTail(count),
        }
    }
}

/// A plan or a complaint, as texts.
pub open spec fn read_outcome(r: Result<ReadPlan, String>) -> Result<ReadPlanView, Seq<char>> {
    match r {
        Ok(plan) => Ok(plan@),
        Err(e) => Err(e@),
    }
}

// ── Model ─────────────────────────────────────────────────────────────

/// The number of lines that are shown at most, if there is a limit.
pub open spec fn line_limit(a: ReadArgumentsView) -> Option<usize> {
    match a.limit_lines {
        Some(limit) => Some(limit as usize),
        None => None,
    }
}

/// Where a read of the output starts: where the last read ended or, if only
/// the last lines are wanted, at the start.
pub open spec fn start_of_read(p: ProcessView, a: ReadArgumentsView) -> (u64, Option<u64>) {
    if a.limit_lines is None {
        (p.stdout_pos, p.stderr_pos)
    } else {
        (
            0,
            match p.stderr_pos {
                Some(_) => Some(0),
                None => None,
            },
        )
    }
}

/// How the output of a process is read: if it is waited for, in rounds; else
/// once, by its last lines if there is a limit, or from where the last read
/// ended.
pub open spec fn mode_for(p: ProcessView, a: ReadArgumentsView, now: Moment) -> ReadModeView {
    if a.wait_for is Some || a.timeout_ms is Some {
        ReadModeView::Wait {
            wait: ReadWaitView::begun(
                a.wait_for,
                a.timeout_ms,
                p.child_id is Some,
                start_of_read(p, a).0,
                start_of_read(p, a).1,
                now,
            ),
            limit: line_limit(a),
        }
    } else {
        match a.limit_lines {
            Some(limit) => ReadModeView::Tail(limit as usize),
            None => ReadModeView::Increment { stdout_pos: p.stdout_pos, stderr_pos: p.stderr_pos },
        }
    }
}

/// What a call of `read_output` comes to at `now`.
pub open spec fn read_planned(
    table: Seq<(Seq<char>, ProcessView)>,
    a: ReadArgumentsView,
    now: Moment,
) -> Result<ReadPlanView, Seq<char>> {
    match a.task_id {
        None => Err("Missing 'task_id' argument"@),
        Some(id) => match process::process_of(table, id) {
            None => Err(send_input::no_process(id)),
            Some(p) => Ok(
                ReadPlanView {
                    task_id: id,
                    stdout_path: p.stdout_path,
                    stderr_path: p.stderr_path,
                    strip_ansi: a.strip_ansi != Some(false),
                    mode: mode_for(p, a, now),
                },
            ),
        },
    }
}

/// The registry once output was asked for at `now`.
pub open spec fn after_reading(
    registry: RegistryView,
    a: ReadArgumentsView,
    now: Moment,
) -> RegistryView {
    match a.task_id {
        None => registry,
        Some(id) => registry.touched(id, now),
    }
}

/// A piece of output and where the next read starts, as texts.
pub open spec fn piece(chunk: Option<(String, u64)>) -> Option<(Seq<char>, u64)> {
    match chunk {
        Some((s, pos)) => Some((s@, pos)),
        None => None,
    }
}

/// A reader after one round, in which these pieces were read at `now`.
pub open spec fn stepped(
    wait: ReadWaitView,
    stdout: (Seq<char>, u64),
    stderr: Option<(Seq<char>, u64)>,
    now: Moment,
) -> ReadWaitView {
    let heard = wait.heard_stdout(stdout.0, stdout.1, now);
    match stderr {
        Some((chunk, pos)) => heard.heard_stderr(chunk, pos, now),
        None => heard,
    }
}

/// The processes once the output of one was read up to these positions.
pub open spec fn recorded(
    table: Seq<(Seq<char>, ProcessView)>,
    id: Seq<char>,
    stdout_pos: u64,
    stderr_pos: Option<u64>,
) -> Seq<(Seq<char>, ProcessView)> {
    match process::process_of(table, id) {
        Some(p) => process::with_process(table, id, p.read_to(stdout_pos, stderr_pos)),
        None => table,
    }
}

/// The processes after a round of waiting. A read with a limit leaves them as
/// they are.
pub open spec fn after_round(
    table: Seq<(Seq<char>, ProcessView)>,
    id: Seq<char>,
    wait: ReadWaitView,
    limit: Option<usize>,
) -> Seq<(Seq<char>, ProcessView)> {
    if limit is Some {
        table
    } else {
        recorded(table, id, wait.stdout_pos, wait.stderr_pos)
    }
}

/// What a round of waiting comes to at `now`.
pub open spec fn round_verdict(
    plan: ReadPlanView,
    wait: ReadWaitView,
    limit: Option<usize>,
    now: Moment,
) -> WaitVerdictView {
    if !wait.over(now) {
        WaitVerdictView::Waiting
    } else {
        match limit {
            Some(count) => WaitVerdictView::ShowTail(count),
            None => WaitVerdictView::Shown(read_reply(plan, wait.stdout, wait.stderr)),
        }
    }
}

/// The reply with the last lines of all the output.
pub open spec fn tail_reply(
    plan: ReadPlanView,
    count: usize,
    stdout: Seq<char>,
    stderr: Option<Seq<char>>,
) -> Seq<char> {
    read_reply(
        plan,
        lines::tail(stdout, count as nat),
        match stderr {
            Some(s) => lines::tail(s, count as nat),
            None => Seq::empty(),
        },
    )
}

/// The reply of a read that gave these outputs.
pub open spec fn read_reply(plan: ReadPlanView, stdout: Seq<char>, stderr: Seq<char>) -> Seq<
    char,
> {
    output::formatted(
        output::plain(stdout, plan.strip_ansi),
        output::plain(stderr, plan.strip_ansi),
        plan.stdout_path,
        plan.stderr_path,
    )
}

/// A call of `read_output` was decided on: this is what came of it, and this
/// what became of the registry.
pub open spec fn read_handled(
    client: TasksClient,
    registry: TaskRegistry,
    arguments: Option<JsonObject>,
    r: Result<ReadPlan, String>,
    registry_after: TaskRegistry,
) -> bool {
    match arguments {
        None => {
            &&& read_outcome(r) == Err::<ReadPlanView, Seq<char>>("Missing arguments"@)
            &&& registry_after@ == registry@
            &&& registry_after.latest() == registry.latest()
        },
        Some(object) => {
            let a = ReadArgumentsView::of(arguments::members(object));
            let now = registry_after.latest();
            &&& registry.shows(now)
            &&& read_outcome(r) == read_planned(client.processes@, a, now)
            &&& registry_after@ == after_reading(registry@, a, now)
        },
    }
}

// ── Execution ─────────────────────────────────────────────────────────

fn path_of(path: Option<&str>) -> (r: Option<String>)
    ensures
        match path {
            Some(p) => text::opt_text(r) == Some(p@),
            None => r is None,
        },
{
    match path {
        Some(p) => Some(p.to_owned()),
        None => None,
    }
}

impl ReadPlan {
    /// The reply of a read that gave these outputs.
    pub fn reply(&self, stdout: &str, stderr: &str) -> (r: String)
        ensures
            r@ == read_reply(self@, stdout@, stderr@),
    {
        let out = output::plain_output(stdout, self.strip_ansi);
        let err = output::plain_output(stderr, self.strip_ansi);
        output::format_output(
            out.as_str(),
            err.as_str(),
            self.stdout_path.as_str(),
            &self.stderr_path,
        )
    }

    /// The reply with the last lines of all the output.
    pub fn tail_reply(&self, count: usize, stdout: &str, stderr: &Option<String>) -> (r: String)
        ensures
            r@ == tail_reply(self@, count, stdout@, text::opt_text(*stderr)),
    {
        let out = lines::tail_lines(stdout, count);
        let err = match stderr {
            Some(s) => lines::tail_lines(s.as_str(), count),
            None => String::new(),
        };
        assert(stderr is None ==> err@ =~= Seq::empty());
        self.reply(out.as_str(), err.as_str())
    }
}

impl TasksClient {
    /// Decides at `now` on a call of `read_output`.
    pub fn plan_read_at(&self, registry: &mut TaskRegistry, a: ReadArguments, now: Moment) -> (r:
        Result<ReadPlan, String>)
        requires
            self.wf(),
            old(registry).wf(),
        ensures
            final(registry).wf(),
            final(registry).latest() == old(registry).latest(),
            final(registry)@ == after_reading(old(registry)@, a@, now),
            read_outcome(r) == read_planned(self.processes@, a@, now),
    {
        let id = match a.task_id {
            Some(id) => id,
            None => {
                return Err("Missing 'task_id' argument".to_owned());
            },
        };
        registry.touch_at(id.as_str(), now);
        let strip_ansi = match a.strip_ansi {
            Some(flag) => flag,
            None => true,
        };
        match self.processes.get(id.as_str()) {
            None => Err(
                "Process task '".to_owned().concat(id.as_str()).concat("' not found"),
            ),
            Some(p) => {
                let stdout_path = p.stdout_path().to_owned();
                let stderr_path = path_of(p.stderr_path());
                let limit: Option<usize> = match a.limit_lines {
                    Some(limit) => {
                        #[verifier::truncate]
                        let count: usize = limit as usize;
                        Some(count)
                    },
                    None => None,
                };
                let mode = if a.wait_for.is_some() || a.timeout_ms.is_some() {
                    let (stdout_pos, stderr_pos) = if limit.is_none() {
                        (p.stdout_pos(), p.stderr_pos())
                    } else {
                        (
                            0,
                            match p.stderr_pos() {
                                Some(_) => Some(0),
                                None => None,
                            },
                        )
                    };
                    let wait = ReadWait::begin(
                        a.wait_for,
                        a.timeout_ms,
                        p.child_id().is_some(),
                        stdout_pos,
                        stderr_pos,
                        now,
                    );
                    ReadMode::Wait { wait, limit }
                } else {
                    match limit {
                        Some(count) => ReadMode::Tail(count),
                        None => ReadMode::Increment {
                            stdout_pos: p.stdout_pos(),
                            stderr_pos: p.stderr_pos(),
                        },
                    }
                };
                Ok(ReadPlan { task_id: id, stdout_path, stderr_path, strip_ansi, mode })
            },
        }
    }

    /// Decides on a call of `read_output`.
    pub fn handle_read_output(
        &self,
        registry: &mut TaskRegistry,
        arguments: &Option<JsonObject>,
    ) -> (r: Result<ReadPlan, String>)
        requires
            self.wf(),
            old(registry).wf(),
        ensures
            final(registry).wf(),
            read_handled(*self, *old(registry), *arguments, r, *final(registry)),
    {
        match arguments {
            None => Err("Missing arguments".to_owned()),
            Some(object) => {
                let now = registry.tick();
                self.plan_read_at(registry, ReadArguments::read(object), now)
            },
        }
    }

    /// Takes in at `now` what a round of waiting read, and decides what comes
    /// of it.
    pub fn wait_step_at(
        &mut self,
        plan: &ReadPlan,
        wait: &mut ReadWait,
        limit: Option<usize>,
        stdout: (String, u64),
        stderr: Option<(String, u64)>,
        now: Moment,
    ) -> (r: WaitVerdict)
        requires
            old(self).wf(),
        ensures
            final(self).wf(),
            final(self).next_id == old(self).next_id,
            final(self).client == old(self).client,
            final(wait)@ == stepped(old(wait)@, (stdout.0@, stdout.1), piece(stderr), now),
            final(self).processes@ == after_round(
                old(self).processes@,
                plan@.task_id,
                final(wait)@,
                limit,
            ),
            r@ == round_verdict(plan@, final(wait)@, limit, now),
    {
        wait.hear_stdout(stdout.0.as_str(), stdout.1, now);
        if let Some((chunk, pos)) = stderr {
            wait.hear_stderr(chunk.as_str(), pos, now);
        }
        if limit.is_none() {
            self.processes.record_offsets(
                plan.task_id.as_str(),
                wait.stdout_pos,
                wait.stderr_pos,
            );
        }
        if !wait.is_over(now) {
            return WaitVerdict::Waiting;
        }
        match limit {
            Some(count) => WaitVerdict::ShowTail(count),
            None => WaitVerdict::Shown(plan.reply(wait.stdout.as_str(), wait.stderr.as_str())),
        }
    }

    /// Takes in what was read since the last read, and gives the reply.
    pub fn take_increment(
        &mut self,
        plan: &ReadPlan,
        stdout: (String, u64),
        stderr: Option<(String, u64)>,
    ) -> (r: String)
        requires
            old(self).wf(),
        ensures
            final(self).wf(),
            final(self).next_id == old(self).next_id,
            final(self).client == old(self).client,
            final(self).processes@ == recorded(
                old(self).processes@,
                plan@.task_id,
                stdout.1,
                match piece(stderr) {
                    Some((_, pos)) => Some(pos),
                    None => None,
                },
            ),
            r@ == read_reply(
                plan@,
                stdout.0@,
                match piece(stderr) {
                    Some((chunk, _)) => chunk,
                    None => Seq::empty(),
                },
            ),
    {
        match stderr {
            Some((chunk, pos)) => {
                self.processes.record_offsets(plan.task_id.as_str(), stdout.1, Some(pos));
                plan.reply(stdout.0.as_str(), chunk.as_str())
            },
            None => {
                self.processes.record_offsets(plan.task_id.as_str(), stdout.1, None);
                let nothing = String::new();
                assert(nothing@ =~= Seq::empty());
                plan.reply(stdout.0.as_str(), nothing.as_str())
            },
        }
    }
}

// ── Laws ──────────────────────────────────────────────────────────────

/// A read with a limit, waited for or not, neither uses how far the output was
/// read nor changes it, and what it shows in the end are the last lines of all
/// the output.
pub proof fn limited_reads_ignore_offsets(
    table: Seq<(Seq<char>, ProcessView)>,
    a: ReadArgumentsView,
    stdout_pos: u64,
    stderr_pos: Option<u64>,
    now: Moment,
)
    requires
        process::entries_distinct(table),
        a.task_id is Some,
        a.limit_lines is Some,
    ensures
        read_planned(recorded(table, a.task_id.unwrap(), stdout_pos, stderr_pos), a, now)
            == read_planned(table, a, now),
        read_planned(table, a, now) matches Ok(plan) ==> {
            let count = a.limit_lines.unwrap() as usize;
            ||| plan.mode == ReadModeView::Tail(count)
            ||| plan.mode matches ReadModeView::Wait { limit, .. } && limit == Some(count)
                && forall|wait: ReadWaitView, later: Moment|
                {
                    &&& #[trigger] after_round(table, plan.task_id, wait, limit) == table
                    &&& #[trigger] round_verdict(plan, wait, limit, later)
                        == (if wait.over(later) {
                        WaitVerdictView::ShowTail(count)
                    } else {
                        WaitVerdictView::Waiting
                    })
                }
        },
{
    let id = a.task_id.unwrap();
    if let Some(p) = process::process_of(table, id) {
        process::put_process_is_found(table, id, p.read_to(stdout_pos, stderr_pos));
    }
}

/// A read that follows another, waited for or not, starts where that one
/// ended.
pub proof fn next_read_starts_where_the_last_ended(
    table: Seq<(Seq<char>, ProcessView)>,
    a: ReadArgumentsView,
    stdout_pos: u64,
    stderr_pos: u64,
    now: Moment,
)
    requires
        process::entries_distinct(table),
        a.task_id is Some,
        a.limit_lines is None,
        process::process_of(table, a.task_id.unwrap()) is Some,
    ensures
        ({
            let id = a.task_id.unwrap();
            let p = process::process_of(table, id).unwrap();
            let stderr_from = if p.stderr_pos is Some {
                Some(stderr_pos)
            } else {
                None
            };
            read_planned(recorded(table, id, stdout_pos, Some(stderr_pos)), a, now) matches Ok(
                plan,
            ) && plan.mode == (if a.wait_for is Some || a.timeout_ms is Some {
                ReadModeView::Wait {
                    wait: ReadWaitView::begun(
                        a.wait_for,
                        a.timeout_ms,
                        p.child_id is Some,
                        stdout_pos,
                        stderr_from,
                        now,
                    ),
                    limit: None,
                }
            } else {
                ReadModeView::Increment { stdout_pos, stderr_pos: stderr_from }
            })
        }),
{
    let id = a.task_id.unwrap();
    let p = process::process_of(table, id).unwrap();
    process::put_process_is_found(table, id, p.read_to(stdout_pos, Some(stderr_pos)));
}

} // verus!
