//! The client behind the task tools: the processes it runs and the
//! identifiers it gives out.
use crate::process::ProcessTable;
use crate::text;
use vstd::prelude::*;
use vstd::string::*;

verus! {

/// What tells a client from every other that runs at the same time: the
/// process that it runs in, and its number there.
#[derive(Debug, Clone, Copy, PartialEq, Eq, Structural)]
pub struct ClientId {
    pub process: u32,
    pub number: u64,
}

/// What the task tools share.
#[derive(Debug)]
pub struct TasksClient {
    pub client: ClientId,
    pub processes: ProcessTable,
    /// The number that the next task gets.
    pub next_id: u64,
}

/// The identifier of the task with a number.
pub open spec fn task_id(number: u64) -> Seq<char> {
    "task_"@ + text::decimal_text(number as nat)
}

/// The directory in which a client keeps the output of its tasks.
pub open spec fn log_dir(client: ClientId) -> Seq<char> {
    "/tmp/goose_task_"@ + text::decimal_text(client.process as nat) + "_"@ + text::decimal_text(
        client.number as nat,
    )
}

/// The number after this one; after the last comes the first.
pub open spec fn following(number: u64) -> u64 {
    if number == u64::MAX {
        0
    } else {
        (number + 1) as u64
    }
}

impl TasksClient {
    /// The invariant of every client.
    pub open spec fn wf(&self) -> bool {
        self.processes.wf()
    }

    pub fn new(client: ClientId) -> (r: TasksClient)
        ensures
            r.wf(),
            r.client == client,
            r.processes@.len() == 0,
            r.next_id == 1,
    {
        TasksClient { client, processes: ProcessTable::new(), next_id: 1 }
    }

    /// The directory in which the client keeps the output of its tasks.
    pub fn log_dir(&self) -> (r: String)
        ensures
            r@ == log_dir(self.client),
    {
        let mut r = "/tmp/goose_task_".to_owned();
        r.append(text::decimal(self.client.process as u64).as_str());
        r.append("_");
        r.append(text::decimal(self.client.number).as_str());
        r
    }

    /// Gives out an identifier.
    pub fn next_task_id(&mut self) -> (r: String)
        ensures
            r@ == task_id(old(self).next_id),
            final(self).next_id == following(old(self).next_id),
            final(self).processes == old(self).processes,
            final(self).client == old(self).client,
    {
        let number: u64 = self.next_id;
        self.next_id = if number == u64::MAX {
            0
        } else {
            number + 1
        };
        "task_".to_owned().concat(text::decimal(number).as_str())
    }
}

/// Different numbers make different identifiers.
pub proof fn task_ids_are_distinct(m: u64, n: u64)
    requires
        task_id(m) == task_id(n),
    ensures
        m == n,
{
    let prefix = "task_"@;
    assert(task_id(m).skip(prefix.len() as int) =~= text::decimal_text(m as nat));
    assert(task_id(n).skip(prefix.len() as int) =~= text::decimal_text(n as nat));
    text::decimal_is_injective(m as nat, n as nat);
}

} // verus!
