//! Finished tasks that the model is told of between two turns.
use crate::task_laws;
use crate::task_laws::Operation;
use crate::tasks;
use crate::tasks::{RegistryView, Task, TaskRegistry, TaskState, TaskView};
use crate::time::Moment;
use vstd::prelude::*;
use vstd::string::*;

verus! {

/// What is told of a finished task.
#[derive(Debug)]
pub struct FinishedTask {
    pub id: String,
    pub description: String,
    pub summary: String,
    pub state: TaskState,
}

#[verifier::ext_equal]
pub struct FinishedTaskView {
    pub id: Seq<char>,
    pub description: Seq<char>,
    pub summary: Seq<char>,
    pub state: TaskState,
}

impl View for FinishedTask {
    type V = FinishedTaskView;

    open spec fn view(&self) -> FinishedTaskView {
        FinishedTaskView {
            id: self.id@,
            description: self.description@,
            summary: self.summary@,
            state: self.state,
        }
    }
}

// ── Model ─────────────────────────────────────────────────────────────

/// What is told of a finished task.
pub open spec fn told_of(t: TaskView) -> FinishedTaskView {
    FinishedTaskView {
        id: t.id,
        description: t.description,
        summary: match t.result_summary {
            Some(s) => s,
            None => Seq::empty(),
        },
        state: t.state,
    }
}

/// What is told of the finished tasks, in their order.
pub open spec fn all_told_of(registry: RegistryView) -> Seq<FinishedTaskView> {
    registry.over().map_values(|t: TaskView| told_of(t))
}

/// Finished tasks, by what is told of them.
pub open spec fn finished_views(done: Seq<FinishedTask>) -> Seq<FinishedTaskView> {
    done.map_values(|f: FinishedTask| f@)
}

/// The registry without these tasks.
pub open spec fn without(registry: RegistryView, done: Seq<FinishedTaskView>) -> RegistryView
    decreases done.len(),
{
    if done.len() == 0 {
        registry
    } else {
        without(registry, done.drop_last()).removed(done.last().id)
    }
}

/// The registry once the finished tasks were told of.
pub open spec fn drained(registry: RegistryView) -> RegistryView {
    without(registry, all_told_of(registry))
}

/// Every task is kept under its own identifier.
pub open spec fn keyed_by_id(registry: RegistryView) -> bool {
    forall|i: int|
        0 <= i < registry.tasks.len() ==> (#[trigger] registry.tasks[i]).0 == registry.tasks[i].1.id
}

/// The agent has just ended its turn, or a tool has just answered it.
pub open spec fn between_turns(ends_turn: bool, last_is_tool: bool) -> bool {
    ends_turn || last_is_tool
}

// ── Execution ─────────────────────────────────────────────────────────

fn tell_of(t: &Task) -> (r: FinishedTask)
    ensures
        r@ == told_of(t@),
{
    let summary = match &t.result_summary {
        Some(s) => s.clone(),
        None => String::new(),
    };
    assert(t.result_summary is None ==> summary@ =~= Seq::empty());
    FinishedTask {
        id: t.id.clone(),
        description: t.description.clone(),
        summary,
        state: t.state,
    }
}

/// Takes the finished tasks out of the registry.
pub fn drain_finished(registry: &mut TaskRegistry) -> (r: Vec<FinishedTask>)
    requires
        old(registry).wf(),
    ensures
        final(registry).wf(),
        final(registry).latest() == old(registry).latest(),
        finished_views(r@) == all_told_of(old(registry)@),
        final(registry)@ == drained(old(registry)@),
{
    let ghost first = registry@;
    let mut done: Vec<FinishedTask> = Vec::new();
    let tasks = registry.finished();
    let mut i: usize = 0;
    while i < tasks.len()
        invariant
            i <= tasks@.len(),
            tasks@.map_values(|t: &Task| t@) == first.over(),
            done@.len() == i,
            forall|k: int| 0 <= k < i ==> (#[trigger] done@[k])@ == told_of(first.over()[k]),
        decreases tasks.len() - i,
    {
        assert(tasks@.map_values(|t: &Task| t@)[i as int] == tasks@[i as int]@);
        done.push(tell_of(tasks[i]));
        i += 1;
    }
    assert(tasks@.map_values(|t: &Task| t@).len() == first.over().len());
    assert(finished_views(done@) =~= all_told_of(first));
    let mut k: usize = 0;
    assert(finished_views(done@).take(0) =~= Seq::empty());
    while k < done.len()
        invariant
            k <= done@.len(),
            registry.wf(),
            registry.latest() == old(registry).latest(),
            registry@ == without(first, finished_views(done@).take(k as int)),
        decreases done.len() - k,
    {
        proof {
            let told = finished_views(done@);
            assert(told.take(k + 1).drop_last() =~= told.take(k as int));
            assert(told.take(k + 1).last() == done@[k as int]@);
        }
        registry.remove(done[k].id.as_str());
        k += 1;
    }
    assert(finished_views(done@).take(k as int) =~= finished_views(done@));
    done
}

// ── Laws ──────────────────────────────────────────────────────────────

proof fn without_is_gone(registry: RegistryView, done: Seq<FinishedTaskView>)
    requires
        registry.keys_distinct(),
    ensures
        without(registry, done).keys_distinct(),
        forall|id: Seq<char>|
            #[trigger] without(registry, done).get(id) == (if exists|i: int|
                0 <= i < done.len() && (#[trigger] done[i]).id == id {
                None
            } else {
                registry.get(id)
            }),
    decreases done.len(),
{
    if done.len() > 0 {
        let front = done.drop_last();
        without_is_gone(registry, front);
        tasks::removed_is_gone(without(registry, front), done.last().id);
        let next = without(registry, done);
        assert forall|id: Seq<char>| #[trigger] next.get(id) == (if exists|i: int|
            0 <= i < done.len() && (#[trigger] done[i]).id == id {
            None
        } else {
            registry.get(id)
        }) by {
            if id == done.last().id {
                assert(done[done.len() - 1].id == id);
            } else {
                assert(next.get(id) == without(registry, front).get(id));
                if exists|i: int| 0 <= i < front.len() && (#[trigger] front[i]).id == id {
                    let i = choose|i: int| 0 <= i < front.len() && (#[trigger] front[i]).id == id;
                    assert(done[i].id == id);
                }
                if exists|i: int| 0 <= i < done.len() && (#[trigger] done[i]).id == id {
                    let i = choose|i: int| 0 <= i < done.len() && (#[trigger] done[i]).id == id;
                    assert(front[i].id == id);
                }
            }
        }
    }
}

/// With distinct keys, a registry whose every key finds a task of that
/// identifier keeps every task under its identifier.
proof fn found_by_id(registry: RegistryView)
    requires
        registry.keys_distinct(),
        forall|id: Seq<char>|
            (#[trigger] registry.get(id)) is Some ==> registry.get(id)->0.id == id,
    ensures
        keyed_by_id(registry),
{
    assert forall|i: int| 0 <= i < registry.tasks.len() implies (#[trigger] registry.tasks[i]).0
        == registry.tasks[i].1.id by {
        let id = registry.tasks[i].0;
        assert(tasks::keyed(registry.tasks, id, i));
        tasks::slot_is_unique(registry, id, i);
        assert(registry.get(id) == Some(registry.tasks[i].1));
    }
}

/// With every task under its identifier, a key finds a task of that
/// identifier.
proof fn finds_by_id(registry: RegistryView, id: Seq<char>)
    requires
        keyed_by_id(registry),
    ensures
        registry.get(id) matches Some(t) ==> t.id == id,
{
    if registry.has(id) {
        assert(tasks::keyed(registry.tasks, id, registry.slot(id)));
    }
}

/// Registering, removing and every operation on a task leave every task under
/// its own identifier.
pub proof fn tasks_stay_under_their_ids(
    registry: RegistryView,
    task: TaskView,
    id: Seq<char>,
    op: Operation,
    now: Moment,
)
    requires
        registry.keys_distinct(),
        keyed_by_id(registry),
    ensures
        keyed_by_id(registry.registered(task)),
        keyed_by_id(registry.removed(id)),
        keyed_by_id(task_laws::after(registry, id, op, now)),
        keyed_by_id(registry.collected(now)),
{
    assert forall|key: Seq<char>| (#[trigger] registry.get(key)) is Some implies registry.get(key)->0.id
        == key by {
        finds_by_id(registry, key);
    }
    tasks::registered_is_found(registry, task);
    let with = registry.registered(task);
    assert forall|key: Seq<char>| (#[trigger] with.get(key)) is Some implies with.get(key)->0.id
        == key by {
        if key != task.id {
            assert(with.get(key) == registry.get(key));
        }
    }
    found_by_id(with);
    tasks::removed_is_gone(registry, id);
    let less = registry.removed(id);
    assert forall|key: Seq<char>| (#[trigger] less.get(key)) is Some implies less.get(key)->0.id
        == key by {
        if key != id {
            assert(less.get(key) == registry.get(key));
        }
    }
    found_by_id(less);
    task_laws::operations_are_local(registry, id, op, now);
    let next = task_laws::after(registry, id, op, now);
    if registry.get(id) is Some {
        task_laws::lifecycle(registry, id, op, now);
    }
    assert forall|key: Seq<char>| (#[trigger] next.get(key)) is Some implies next.get(key)->0.id
        == key by {
        if key != id {
            assert(next.get(key) == registry.get(key));
        }
    }
    found_by_id(next);
    let keep = |e: (Seq<char>, TaskView)| tasks::retained(e.1, now);
    let left = registry.collected(now).tasks;
    assert(left == registry.tasks.filter(keep));
    assert forall|i: int| 0 <= i < left.len() implies (#[trigger] left[i]).0 == left[i].1.id by {
        assert(left.contains(left[i]));
        registry.tasks.lemma_filter_contains_rev(keep, left[i]);
    }
}

/// Telling of the finished tasks leaves no finished task behind, and leaves
/// every other task as it was.
pub proof fn no_finished_task_is_left(registry: RegistryView)
    requires
        registry.keys_distinct(),
        keyed_by_id(registry),
    ensures
        drained(registry).keys_distinct(),
        forall|id: Seq<char>|
            #[trigger] drained(registry).get(id) == (match registry.get(id) {
                Some(t) => if t.state.terminal() {
                    None
                } else {
                    Some(t)
                },
                None => None,
            }),
{
    let done = all_told_of(registry);
    without_is_gone(registry, done);
    tasks::over_is_exact(registry);
    assert forall|id: Seq<char>| #[trigger] drained(registry).get(id) == (match registry.get(id) {
        Some(t) => if t.state.terminal() {
            None
        } else {
            Some(t)
        },
        None => None,
    }) by {
        if exists|i: int| 0 <= i < done.len() && (#[trigger] done[i]).id == id {
            let i = choose|i: int| 0 <= i < done.len() && (#[trigger] done[i]).id == id;
            assert(done[i] == told_of(registry.over()[i]));
            let k = choose|k: int| tasks::over_at(registry, registry.over()[i], k);
            assert(tasks::keyed(registry.tasks, id, k));
            tasks::slot_is_unique(registry, id, k);
        } else if registry.has(id) {
            let s = registry.slot(id);
            assert(tasks::keyed(registry.tasks, id, s));
            let t = registry.tasks[s].1;
            if t.state.terminal() {
                let i = choose|i: int|
                    0 <= i < registry.over().len() && #[trigger] registry.over()[i] == t;
                assert(done[i].id == id);
            }
        }
    }
}

/// Once the finished tasks were told of, there is nothing more to tell.
pub proof fn nothing_is_told_twice(registry: RegistryView)
    requires
        registry.keys_distinct(),
        keyed_by_id(registry),
    ensures
        all_told_of(drained(registry)).len() == 0,
{
    let next = drained(registry);
    no_finished_task_is_left(registry);
    tasks::over_is_exact(next);
    if next.over().len() > 0 {
        let t = next.over()[0];
        assert(tasks::is_held_over(next, t));
        let k = choose|k: int| tasks::over_at(next, t, k);
        let id = next.tasks[k].0;
        assert(tasks::keyed(next.tasks, id, k));
        tasks::slot_is_unique(next, id, k);
        assert(next.get(id) == Some(t));
    }
}

} // verus!
