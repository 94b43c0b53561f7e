//! Processes run as jobs: their output is kept line by line.
use crate::process;
use crate::text;
use vstd::prelude::*;
use vstd::string::*;

verus! {

/// A process run as a job.
#[derive(Debug)]
pub struct JobProcess {
    /// Whether it has not exited yet.
    pub running: bool,
    /// Whether its standard input can still be written to.
    pub stdin_open: bool,
    /// Its output, oldest line first.
    pub output_lines: Vec<String>,
    pub description: String,
}

#[verifier::ext_equal]
pub struct JobProcessView {
    pub running: bool,
    pub stdin_open: bool,
    pub output_lines: Seq<Seq<char>>,
    pub description: Seq<char>,
}

impl View for JobProcess {
    type V = JobProcessView;

    open spec fn view(&self) -> JobProcessView {
        JobProcessView {
            running: self.running,
            stdin_open: self.stdin_open,
            output_lines: text::texts(self.output_lines@),
            description: self.description@,
        }
    }
}

impl JobProcessView {
    /// A process that was just started.
    pub open spec fn started(description: Seq<char>) -> JobProcessView {
        JobProcessView {
            running: true,
            stdin_open: true,
            output_lines: Seq::empty(),
            description,
        }
    }

    /// The process with one more line of output.
    pub open spec fn with_line(self, line: Seq<char>) -> JobProcessView {
        JobProcessView { output_lines: self.output_lines.push(line), ..self }
    }
}

impl JobProcess {
    pub fn start(description: String) -> (r: JobProcess)
        ensures
            r@ == JobProcessView::started(description@),
    {
        let r = JobProcess {
            running: true,
            stdin_open: true,
            output_lines: Vec::new(),
            description,
        };
        assert(r@.output_lines =~= Seq::empty());
        r
    }
}

/// The processes run as jobs, by job.
#[derive(Debug)]
pub struct JobProcessTable {
    entries: Vec<(String, JobProcess)>,
}

impl View for JobProcessTable {
    type V = Seq<(Seq<char>, JobProcessView)>;

    closed spec fn view(&self) -> Seq<(Seq<char>, JobProcessView)> {
        self.entries@.map_values(|e: (String, JobProcess)| (e.0@, e.1@))
    }
}

impl JobProcessTable {
    /// The invariant of every table.
    pub open spec fn wf(&self) -> bool {
        process::entries_distinct(self@)
    }

    pub fn new() -> (r: JobProcessTable)
        ensures
            r.wf(),
            r@ == Seq::<(Seq<char>, JobProcessView)>::empty(),
    {
        let r = JobProcessTable { entries: Vec::new() };
        assert(r@ =~= Seq::<(Seq<char>, JobProcessView)>::empty());
        r
    }

    fn position(&self, id: &str) -> (r: Option<usize>)
        requires
            self.wf(),
        ensures
            match r {
                Some(i) => process::process_of(self@, id@) is Some && i == process::entry_of(
                    self@,
                    id@,
                ) && i < self.entries@.len(),
                None => process::process_of(self@, id@) is None,
            },
    {
        let mut i: usize = 0;
        while i < self.entries.len()
            invariant
                i <= self.entries@.len(),
                self.wf(),
                forall|j: int| 0 <= j < i ==> self@[j].0 != id@,
            decreases self.entries.len() - i,
        {
            if text::same_text(self.entries[i].0.as_str(), id) {
                assert(process::listed(self@, id@, i as int));
                proof {
                    process::entry_is_unique(self@, id@, i as int);
                }
                return Some(i);
            }
            i += 1;
        }
        None
    }

    pub fn insert(&mut self, id: String, started: JobProcess)
        requires
            old(self).wf(),
        ensures
            final(self).wf(),
            final(self)@ == process::with_new_process(old(self)@, id@, started@),
    {
        proof {
            process::put_process_is_found(self@, id@, started@);
        }
        match self.position(id.as_str()) {
            Some(i) => {
                self.entries.set(i, (id, started));
            },
            None => {
                self.entries.push((id, started));
            },
        }
        assert(self@ =~= process::with_new_process(old(self)@, id@, started@));
    }

    pub fn get(&self, id: &str) -> (r: Option<&JobProcess>)
        requires
            self.wf(),
        ensures
            match r {
                Some(p) => process::process_of(self@, id@) == Some(p@),
                None => process::process_of(self@, id@) is None,
            },
    {
        match self.position(id) {
            Some(i) => Some(&self.entries[i].1),
            None => None,
        }
    }

    pub fn remove(&mut self, id: &str) -> (r: Option<JobProcess>)
        requires
            old(self).wf(),
        ensures
            final(self).wf(),
            final(self)@ == process::without_process(old(self)@, id@),
            match r {
                Some(p) => process::process_of(old(self)@, id@) == Some(p@),
                None => process::process_of(old(self)@, id@) is None,
            },
    {
        proof {
            process::removed_process_is_gone(self@, id@);
        }
        match self.position(id) {
            Some(i) => {
                let (_key, removed) = self.entries.remove(i);
                assert(self@ =~= process::without_process(old(self)@, id@));
                Some(removed)
            },
            None => None,
        }
    }

    /// Takes down a line of output.
    pub fn push_line(&mut self, id: &str, line: String)
        requires
            old(self).wf(),
        ensures
            final(self).wf(),
            match process::process_of(old(self)@, id@) {
                Some(p) => final(self)@ == process::with_process(
                    old(self)@,
                    id@,
                    p.with_line(line@),
                ),
                None => final(self)@ == old(self)@,
            },
    {
        if let Some(i) = self.position(id) {
            let ghost p = self@[i as int].1;
            proof {
                process::put_process_is_found(self@, id@, p.with_line(line@));
            }
            let kept = &mut self.entries[i].1;
            kept.output_lines.push(line);
            assert(self@[i as int].1.output_lines =~= p.with_line(line@).output_lines);
            assert(self@ =~= process::with_process(old(self)@, id@, p.with_line(line@)));
        }
    }

    /// Takes down whether a process runs.
    pub fn set_running(&mut self, id: &str, running: bool)
        requires
            old(self).wf(),
        ensures
            final(self).wf(),
            match process::process_of(old(self)@, id@) {
                Some(p) => final(self)@ == process::with_process(
                    old(self)@,
                    id@,
                    JobProcessView { running, ..p },
                ),
                None => final(self)@ == old(self)@,
            },
    {
        if let Some(i) = self.position(id) {
            let ghost p = self@[i as int].1;
            proof {
                process::put_process_is_found(self@, id@, JobProcessView { running, ..p });
            }
            let kept = &mut self.entries[i].1;
            kept.running = running;
            assert(self@ =~= process::with_process(
                old(self)@,
                id@,
                JobProcessView { running, ..p },
            ));
        }
    }
}

} // verus!
