//! What holds of the job registry over several operations.
use crate::jobs::{
    NotifyPolicy, RegistryView, JobEventView, JobState, JobView,
};
use crate::jobs;
use crate::time::{Moment, Span};
use vstd::prelude::*;

verus! {

/// What can be done to a job that is kept in the registry.
pub enum Operation {
    Complete { summary: Option<Seq<char>> },
    Fail { summary: Option<Seq<char>> },
    Cancel,
    NeedsInput { question: Seq<char> },
    Resume,
    PatternMatched { pattern: Seq<char>, context: Seq<char> },
    Notify { message: Seq<char> },
}

/// The registry after the operation on the job under `id`.
pub open spec fn after(r: RegistryView, id: Seq<char>, op: Operation, now: Moment) -> RegistryView {
    match op {
        Operation::Complete { summary } => r.transitioned(id, JobState::Completed, summary, now),
        Operation::Fail { summary } => r.transitioned(id, JobState::Failed, summary, now),
        Operation::Cancel => r.canceled(id, now),
        Operation::NeedsInput { question } => r.asked(id, question, now),
        Operation::Resume => r.resumed(id, now),
        Operation::PatternMatched { pattern, context } => r.matched(id, pattern, context, now),
        Operation::Notify { message } => r.noted(id, message, now),
    }
}

/// Sending changes no job.
pub proof fn sending_keeps_jobs(r: RegistryView, more: Seq<JobEventView>)
    requires
        r.keys_distinct(),
    ensures
        r.sending(more).keys_distinct(),
        forall|id: Seq<char>| #[trigger] r.sending(more).get(id) == r.get(id),
        forall|id: Seq<char>| #[trigger] r.sending(more).slot(id) == r.slot(id),
{
    assert forall|id: Seq<char>| #[trigger] r.sending(more).get(id) == r.get(id) by {
        if r.has(id) {
            assert(jobs::keyed(r.sending(more).jobs, id, r.slot(id)));
        }
        if r.sending(more).has(id) {
            assert(jobs::keyed(r.jobs, id, r.sending(more).slot(id)));
        }
    }
}

/// What a transition does to the job and to what is delivered.
pub proof fn transition_is_local(
    r: RegistryView,
    id: Seq<char>,
    state: JobState,
    summary: Option<Seq<char>>,
    now: Moment,
)
    requires
        r.keys_distinct(),
    ensures
        ({
            let next = r.transitioned(id, state, summary, now);
            &&& next.keys_distinct()
            &&& forall|other: Seq<char>| other != id ==> #[trigger] next.get(other) == r.get(other)
            &&& r.events.is_prefix_of(next.events)
            &&& match r.get(id) {
                Some(t) => next.get(id) == Some(
                    if t.state.terminal() {
                        t
                    } else {
                        jobs::moved(t, state, summary, now)
                    },
                ),
                None => next == r,
            }
        }),
{
    match r.get(id) {
        Some(t) => {
            if !t.state.terminal() {
                let arrived = jobs::moved(t, state, summary, now);
                jobs::replacing_is_local(r, id, arrived);
                let next = r.with_job(id, arrived);
                sending_keeps_jobs(next, jobs::arrival_events(next.jobs, arrived, now));
            }
        },
        None => {},
    }
}

/// Setting a job and sending, as most operations do.
pub proof fn local_step(r: RegistryView, id: Seq<char>, t: JobView, more: Seq<JobEventView>)
    requires
        r.keys_distinct(),
        r.has(id),
    ensures
        r.with_job(id, t).sending(more).keys_distinct(),
        r.with_job(id, t).keys_distinct(),
        r.with_job(id, t).sending(more).get(id) == Some(t),
        r.with_job(id, t).get(id) == Some(t),
        forall|other: Seq<char>|
            other != id ==> #[trigger] r.with_job(id, t).sending(more).get(other) == r.get(other),
        forall|other: Seq<char>|
            other != id ==> #[trigger] r.with_job(id, t).get(other) == r.get(other),
        r.events.is_prefix_of(r.with_job(id, t).sending(more).events),
{
    jobs::replacing_is_local(r, id, t);
    sending_keeps_jobs(r.with_job(id, t), more);
}

/// An operation keeps the keys distinct, leaves every other job as it is,
/// takes back nothing that was to be delivered, and makes no job appear or
/// disappear.
pub proof fn operations_are_local(r: RegistryView, id: Seq<char>, op: Operation, now: Moment)
    requires
        r.keys_distinct(),
    ensures
        after(r, id, op, now).keys_distinct(),
        forall|other: Seq<char>|
            other != id ==> #[trigger] after(r, id, op, now).get(other) == r.get(other),
        r.events.is_prefix_of(after(r, id, op, now).events),
        after(r, id, op, now).get(id) is Some == r.get(id) is Some,
        r.get(id) is None ==> after(r, id, op, now) == r,
{
    match op {
        Operation::Complete { summary } => {
            transition_is_local(r, id, JobState::Completed, summary, now);
        },
        Operation::Fail { summary } => {
            transition_is_local(r, id, JobState::Failed, summary, now);
        },
        Operation::Cancel => {
            transition_is_local(r, id, JobState::Canceled, Some("canceled"@), now);
        },
        Operation::NeedsInput { question } => {
            if let Some(t) = r.get(id) {
                let event = JobEventView::JobNeedsInput { job_id: id, question };
                local_step(
                    r,
                    id,
                    jobs::asking(t, now),
                    seq![event],
                );
            }
        },
        Operation::Resume => {
            if let Some(t) = r.get(id) {
                jobs::replacing_is_local(
                    r,
                    id,
                    JobView { state: JobState::Working, last_activity: now, ..t },
                );
            }
        },
        Operation::PatternMatched { pattern, context } => {
            if let Some(t) = r.get(id) {
                let event = JobEventView::PatternMatched { job_id: id, pattern, context };
                let told = jobs::notified(t, "pattern matched: "@ + pattern, now);
                local_step(r, id, told, seq![event]);
            }
        },
        Operation::Notify { message } => {
            if let Some(t) = r.get(id) {
                jobs::replacing_is_local(r, id, jobs::notified(t, message, now));
            }
        },
    }
}

/// The state that an operation leaves a job in.
pub open spec fn next_state(state: JobState, op: Operation) -> JobState {
    match op {
        Operation::Resume => if state == JobState::InputRequired {
            JobState::Working
        } else {
            state
        },
        Operation::PatternMatched { pattern, context } => state,
        Operation::Notify { message } => state,
        _ if state.terminal() => state,
        Operation::NeedsInput { question } => JobState::InputRequired,
        Operation::Complete { summary } => JobState::Completed,
        Operation::Fail { summary } => JobState::Failed,
        Operation::Cancel => JobState::Canceled,
    }
}

/// Every operation moves a job along the lifecycle: an end is reached only by
/// the operation named after it and is left by none; work is taken up again
/// only after input; a matched pattern or a notification leaves the state as it
/// is.
pub proof fn lifecycle(r: RegistryView, id: Seq<char>, op: Operation, now: Moment)
    requires
        r.keys_distinct(),
        r.get(id) is Some,
    ensures
        after(r, id, op, now).get(id) is Some,
        after(r, id, op, now).get(id)->0.state == next_state(r.get(id)->0.state, op),
        r.get(id)->0.state.terminal() ==> after(r, id, op, now).get(id)->0.state == r.get(
            id,
        )->0.state,
        after(r, id, op, now).get(id)->0.state == JobState::Working ==> r.get(id)->0.state
            == JobState::Working || (op is Resume && r.get(id)->0.state
            == JobState::InputRequired),
        after(r, id, op, now).get(id)->0.id == r.get(id)->0.id,
        after(r, id, op, now).get(id)->0.created_at == r.get(id)->0.created_at,
{
    operations_are_local(r, id, op, now);
    let t = r.get(id)->0;
    match op {
        Operation::Complete { summary } => {
            transition_is_local(r, id, JobState::Completed, summary, now);
        },
        Operation::Fail { summary } => {
            transition_is_local(r, id, JobState::Failed, summary, now);
        },
        Operation::Cancel => {
            transition_is_local(r, id, JobState::Canceled, Some("canceled"@), now);
        },
        Operation::NeedsInput { question } => {
            let event = JobEventView::JobNeedsInput { job_id: id, question };
            local_step(r, id, jobs::asking(t, now), seq![event]);
        },
        Operation::Resume => {
            jobs::replacing_is_local(
                r,
                id,
                JobView { state: JobState::Working, last_activity: now, ..t },
            );
        },
        Operation::PatternMatched { pattern, context } => {
            let event = JobEventView::PatternMatched { job_id: id, pattern, context };
            let told = jobs::notified(t, "pattern matched: "@ + pattern, now);
            local_step(r, id, told, seq![event]);
        },
        Operation::Notify { message } => {
            jobs::replacing_is_local(r, id, jobs::notified(t, message, now));
        },
    }
}

/// The first end wins: a transition of a job that is over, or that is not
/// there, changes nothing and tells nothing, whatever the transition. So do a
/// request for input and a resumption.
pub proof fn an_end_is_final(
    r: RegistryView,
    id: Seq<char>,
    state: JobState,
    summary: Option<Seq<char>>,
    op: Operation,
    now: Moment,
)
    requires
        r.get(id) is None || r.get(id)->0.state.terminal(),
    ensures
        r.transitioned(id, state, summary, now) == r,
        !is_activity(op) ==> after(r, id, op, now) == r,
        !is_activity(op) ==> after(r, id, op, now).jobs == r.jobs,
{
}

/// A job ends once: after it has ended, completing, failing or cancelling it
/// again changes nothing and tells nothing.
pub proof fn a_job_ends_once(
    r: RegistryView,
    id: Seq<char>,
    first: JobState,
    first_summary: Option<Seq<char>>,
    then: Moment,
    second: JobState,
    second_summary: Option<Seq<char>>,
    now: Moment,
)
    requires
        r.keys_distinct(),
        first.terminal(),
    ensures
        r.transitioned(id, first, first_summary, then).transitioned(id, second, second_summary, now)
            == r.transitioned(id, first, first_summary, then),
{
    transition_is_local(r, id, first, first_summary, then);
}

/// A job that nobody wants to hear of is never told of when it ends, and a
/// canceled job is told of only as a part of its batch.
pub proof fn quiet_ends(
    r: RegistryView,
    id: Seq<char>,
    state: JobState,
    summary: Option<Seq<char>>,
    now: Moment,
)
    requires
        r.keys_distinct(),
        r.get(id) is Some,
        r.get(id)->0.notify_policy == NotifyPolicy::Informational || (state == JobState::Canceled
            && r.get(id)->0.notify_policy == NotifyPolicy::OnCompletion),
    ensures
        r.transitioned(id, state, summary, now).events == r.events,
{
}

/// A job with the OnCompletion policy is told of exactly when it ends and its
/// interrupt policy asks for it, and what is told is its final state.
pub proof fn completion_is_told(
    r: RegistryView,
    id: Seq<char>,
    state: JobState,
    summary: Option<Seq<char>>,
    now: Moment,
)
    requires
        r.keys_distinct(),
        r.get(id) is Some,
        r.get(id)->0.notify_policy == NotifyPolicy::OnCompletion,
        !r.get(id)->0.state.terminal(),
        state.terminal(),
    ensures
        r.transitioned(id, state, summary, now).events == r.events + (
        if r.get(id)->0.meta.interrupt_on.interrupts(state) {
            seq![
                JobEventView::JobCompleted {
                        job: jobs::summary_of(
                            r.transitioned(id, state, summary, now).get(id)->0,
                            now,
                        ),
                    },
            ]
        } else {
            Seq::empty()
        }),
{
    transition_is_local(r, id, state, summary, now);
}

/// A batch is told of exactly when the last of its jobs ends: never while
/// another job of the batch goes on.
pub proof fn batch_is_told_with_its_last_job(
    r: RegistryView,
    id: Seq<char>,
    batch_id: Seq<char>,
    state: JobState,
    summary: Option<Seq<char>>,
    now: Moment,
)
    requires
        r.keys_distinct(),
        r.get(id) is Some,
        r.get(id)->0.notify_policy == NotifyPolicy::OnBatchCompletion,
        r.get(id)->0.batch_id == Some(batch_id),
        !r.get(id)->0.state.terminal(),
        state.terminal(),
    ensures
        ({
            let others_done = forall|other: Seq<char>|
                other != id && (#[trigger] r.get(other)) is Some && r.get(other)->0.batch_id
                    == Some(batch_id) ==> r.get(other)->0.state.terminal();
            let next = r.transitioned(id, state, summary, now);
            next.events == r.events + (if others_done {
                seq![
                    JobEventView::BatchCompleted {
                            batch_id,
                            job_summaries: jobs::batch_summaries(next.jobs, batch_id, now),
                        },
            ]
            } else {
                Seq::empty()
            })
        }),
{
    let t = r.get(id)->0;
    let arrived = jobs::moved(t, state, summary, now);
    let next = r.with_job(id, arrived);
    let s = r.slot(id);
    assert(jobs::keyed(r.jobs, id, s));
    jobs::replacing_is_local(r, id, arrived);
    assert(next.jobs[s].1.batch_id == Some(batch_id));
    let others_done = forall|other: Seq<char>|
        other != id && (#[trigger] r.get(other)) is Some && r.get(other)->0.batch_id == Some(
            batch_id,
        ) ==> r.get(other)->0.state.terminal();
    if others_done {
        assert forall|i: int|
            0 <= i < next.jobs.len() && (#[trigger] next.jobs[i]).1.batch_id == Some(
                batch_id,
            ) implies next.jobs[i].1.state.terminal() by {
            if i != s {
                let other = r.jobs[i].0;
                assert(jobs::keyed(r.jobs, other, i));
                jobs::slot_is_unique(r, other, i);
                if other == id {
                    jobs::slot_is_unique(r, id, i);
                }
            }
        }
        assert(jobs::batch_done(next.jobs, batch_id));
    } else {
        let other = choose|other: Seq<char>|
            other != id && (#[trigger] r.get(other)) is Some && r.get(other)->0.batch_id == Some(
                batch_id,
            ) && !r.get(other)->0.state.terminal();
        let o = r.slot(other);
        assert(jobs::keyed(r.jobs, other, o));
        assert(o != s);
        assert(next.jobs[o] == r.jobs[o]);
        assert(!jobs::batch_done(next.jobs, batch_id));
    }
}

// ── Work ──────────────────────────────────────────────────────────────

/// The operation tells of the job and leaves its state as it is.
pub open spec fn is_activity(op: Operation) -> bool {
    op is PatternMatched || op is Notify
}

/// The registry after these operations on the job under `id`, each at its
/// moment.
pub open spec fn after_all(
    r: RegistryView,
    id: Seq<char>,
    ops: Seq<(Operation, Moment)>,
) -> RegistryView
    decreases ops.len(),
{
    if ops.len() == 0 {
        r
    } else {
        after(after_all(r, id, ops.drop_last()), id, ops.last().0, ops.last().1)
    }
}

/// The operations are activities, and come in the order of time from one
/// moment to another.
pub open spec fn activities_between(
    from: Moment,
    ops: Seq<(Operation, Moment)>,
    to: Moment,
) -> bool
    decreases ops.len(),
{
    if ops.len() == 0 {
        to.reached(from)
    } else {
        &&& is_activity(ops.last().0)
        &&& to.reached(ops.last().1)
        &&& activities_between(from, ops.drop_last(), ops.last().1)
    }
}

/// Activity leaves a job working, and takes nothing from the time that it has
/// worked at any later moment.
proof fn activity_keeps_work(
    r: RegistryView,
    id: Seq<char>,
    ops: Seq<(Operation, Moment)>,
    to: Moment,
    end: Moment,
)
    requires
        r.keys_distinct(),
        r.get(id) is Some,
        r.get(id)->0.state == JobState::Working,
        activities_between(r.get(id)->0.last_activity, ops, to),
        end.reached(to),
    ensures
        after_all(r, id, ops).keys_distinct(),
        after_all(r, id, ops).get(id) is Some,
        after_all(r, id, ops).get(id)->0.state == JobState::Working,
        to.reached(after_all(r, id, ops).get(id)->0.last_activity),
        jobs::worked_until(after_all(r, id, ops).get(id)->0, end) == jobs::worked_until(
            r.get(id)->0,
            end,
        ),
    decreases ops.len(),
{
    if ops.len() > 0 {
        let (op, now) = ops.last();
        let front = after_all(r, id, ops.drop_last());
        activity_keeps_work(r, id, ops.drop_last(), now, end);
        operations_are_local(front, id, op, now);
        lifecycle(front, id, op, now);
        let t = front.get(id)->0;
        match op {
            Operation::PatternMatched { pattern, context } => {
                let event = JobEventView::PatternMatched { job_id: id, pattern, context };
                let told = jobs::notified(t, "pattern matched: "@ + pattern, now);
                local_step(front, id, told, seq![event]);
            },
            Operation::Notify { message } => {
                jobs::replacing_is_local(front, id, jobs::notified(t, message, now));
            },
            _ => {},
        }
        let next = after(front, id, op, now).get(id)->0;
        assert(next.worked_duration == jobs::worked_until(t, now));
        assert(next.last_activity == now);
        assert(jobs::worked_until(next, end) == jobs::worked_until(t, end));
    }
}

/// All work counts: a job that starts to work when it is registered and then
/// ends has worked all the time in between, whatever activity there was.
pub proof fn work_is_counted_whole(
    r: RegistryView,
    t: JobView,
    ops: Seq<(Operation, Moment)>,
    state: JobState,
    summary: Option<Seq<char>>,
    end: Moment,
)
    requires
        r.keys_distinct(),
        t.state == JobState::Working,
        t.worked_duration == Span::none(),
        activities_between(t.last_activity, ops, end),
        state.terminal(),
    ensures
        ({
            let over = after_all(r.registered(t), t.id, ops).transitioned(
                t.id,
                state,
                summary,
                end,
            );
            &&& over.get(t.id) is Some
            &&& over.get(t.id)->0.state == state
            &&& over.get(t.id)->0.worked_duration == end.since(t.last_activity)
        }),
{
    jobs::registered_is_found(r, t);
    let begun = r.registered(t);
    activity_keeps_work(begun, t.id, ops, end, end);
    transition_is_local(after_all(begun, t.id, ops), t.id, state, summary, end);
}

/// Waiting for input does not count as work: over a stretch of work, a wait
/// and another stretch of work, a job has worked as long as the two stretches
/// together.
pub proof fn waiting_is_not_work(
    r: RegistryView,
    id: Seq<char>,
    question: Seq<char>,
    asked_at: Moment,
    resumed_at: Moment,
    state: JobState,
    summary: Option<Seq<char>>,
    ended_at: Moment,
)
    requires
        r.keys_distinct(),
        r.get(id) is Some,
        r.get(id)->0.state == JobState::Working,
        state.terminal(),
    ensures
        ({
            let t = r.get(id)->0;
            let end = r.asked(id, question, asked_at).resumed(id, resumed_at).transitioned(
                id,
                state,
                summary,
                ended_at,
            );
            &&& end.get(id) is Some
            &&& end.get(id)->0.state == state
            &&& end.get(id)->0.worked_duration == t.worked_duration.with(
                asked_at.since(t.last_activity),
            ).with(ended_at.since(resumed_at))
        }),
{
    let ask = Operation::NeedsInput { question };
    let t = r.get(id)->0;
    lifecycle(r, id, ask, asked_at);
    operations_are_local(r, id, ask, asked_at);
    let event = JobEventView::JobNeedsInput { job_id: id, question };
    local_step(r, id, jobs::asking(t, asked_at), seq![event]);
    let waiting = r.asked(id, question, asked_at);
    let w = waiting.get(id)->0;
    operations_are_local(waiting, id, Operation::Resume, resumed_at);
    jobs::replacing_is_local(
        waiting,
        id,
        JobView { state: JobState::Working, last_activity: resumed_at, ..w },
    );
    transition_is_local(waiting.resumed(id, resumed_at), id, state, summary, ended_at);
}

// ── Collection ────────────────────────────────────────────────────────

/// The entries of a filtered sequence.
pub proof fn filter_members(
    s: Seq<(Seq<char>, JobView)>,
    keep: spec_fn((Seq<char>, JobView)) -> bool,
)
    ensures
        forall|e: (Seq<char>, JobView)| #[trigger]
            s.filter(keep).contains(e) <==> s.contains(e) && keep(e),
    decreases s.len(),
{
    reveal(Seq::filter);
    if s.len() > 0 {
        let front = s.drop_last();
        filter_members(front, keep);
        let f = front.filter(keep);
        let all = s.filter(keep);
        assert forall|e: (Seq<char>, JobView)| #[trigger] all.contains(e) <==> s.contains(e)
            && keep(e) by {
            if s.contains(e) && keep(e) {
                let k = choose|k: int| 0 <= k < s.len() && s[k] == e;
                if k < front.len() {
                    assert(front[k] == e);
                    assert(front.contains(e));
                    let m = choose|m: int| 0 <= m < f.len() && f[m] == e;
                    assert(f.contains(e));
                    assert(all[m] == e);
                } else {
                    assert(all[all.len() - 1] == e);
                }
            }
            if all.contains(e) {
                let m = choose|m: int| 0 <= m < all.len() && all[m] == e;
                if m < f.len() {
                    assert(f[m] == e);
                    assert(f.contains(e));
                    assert(front.contains(e));
                    let k = choose|k: int| 0 <= k < front.len() && front[k] == e;
                    assert(s[k] == e);
                } else {
                    assert(s[s.len() - 1] == e);
                }
            }
        }
    }
}

/// A collection drops exactly the jobs that have been over for as long as
/// they are kept: what goes on stays, and what stays is unchanged.
pub proof fn collection_is_exact(r: RegistryView, id: Seq<char>, now: Moment)
    requires
        r.keys_distinct(),
    ensures
        r.collected(now).keys_distinct(),
        r.collected(now).get(id) == (match r.get(id) {
            Some(t) if jobs::retained(t, now) => Some(t),
            _ => None,
        }),
        r.collected(now).events == r.events,
{
    let keep = |e: (Seq<char>, JobView)| jobs::retained(e.1, now);
    let next = r.collected(now);
    jobs::collected_keeps_keys(r, now);
    filter_members(r.jobs, keep);
    if let Some(t) = r.get(id) {
        let s = r.slot(id);
        assert(jobs::keyed(r.jobs, id, s));
        let e = r.jobs[s];
        assert(r.jobs.contains(e));
        if jobs::retained(t, now) {
            assert(next.jobs.contains(e));
            let i = choose|i: int| 0 <= i < next.jobs.len() && next.jobs[i] == e;
            assert(jobs::keyed(next.jobs, id, i));
            jobs::slot_is_unique(next, id, i);
        }
    }
    if next.has(id) {
        let i = next.slot(id);
        assert(jobs::keyed(next.jobs, id, i));
        let e = next.jobs[i];
        assert(next.jobs.contains(e));
        assert(r.jobs.contains(e));
        let k = choose|k: int| 0 <= k < r.jobs.len() && r.jobs[k] == e;
        assert(jobs::keyed(r.jobs, id, k));
        jobs::slot_is_unique(r, id, k);
    }
}

proof fn filtering_twice(
    s: Seq<(Seq<char>, JobView)>,
    wide: spec_fn((Seq<char>, JobView)) -> bool,
    narrow: spec_fn((Seq<char>, JobView)) -> bool,
)
    requires
        forall|e: (Seq<char>, JobView)| #[trigger] narrow(e) ==> wide(e),
    ensures
        s.filter(wide).filter(narrow) == s.filter(narrow),
    decreases s.len(),
{
    reveal(Seq::filter);
    if s.len() > 0 {
        let front = s.drop_last();
        filtering_twice(front, wide, narrow);
        let last = s.last();
        if wide(last) {
            let f = front.filter(wide);
            assert(s.filter(wide) == f.push(last));
            assert(f.push(last).drop_last() =~= f);
            assert(f.push(last).last() == last);
        }
    }
}

/// Collecting often is no different from collecting late: an earlier
/// collection never changes what a later one leaves. In particular, collecting
/// twice at one moment is collecting once.
pub proof fn collecting_early_changes_nothing(r: RegistryView, earlier: Moment, later: Moment)
    requires
        r.keys_distinct(),
        later.reached(earlier),
    ensures
        r.collected(earlier).collected(later) == r.collected(later),
{
    let wide = |e: (Seq<char>, JobView)| jobs::retained(e.1, earlier);
    let narrow = |e: (Seq<char>, JobView)| jobs::retained(e.1, later);
    assert forall|e: (Seq<char>, JobView)| #[trigger] narrow(e) implies wide(e) by {
        let long = later.since(e.1.last_activity);
        let short = earlier.since(e.1.last_activity);
        assert(short.nanos <= long.nanos);
        assert(short.nanos / crate::time::NANOS_PER_SEC <= long.nanos
            / crate::time::NANOS_PER_SEC) by (nonlinear_arith)
            requires
                short.nanos <= long.nanos,
                crate::time::NANOS_PER_SEC == 1_000_000_000,
        ;
    }
    filtering_twice(r.jobs, wide, narrow);
}

/// Removing a job that was just registered under a new key gives back the
/// registry.
pub proof fn removing_undoes_registering(r: RegistryView, t: JobView)
    requires
        r.keys_distinct(),
        !r.has(t.id),
    ensures
        r.registered(t).removed(t.id) == r,
{
    jobs::registered_is_found(r, t);
    let next = r.registered(t);
    assert(jobs::keyed(next.jobs, t.id, r.jobs.len() as int));
    jobs::slot_is_unique(next, t.id, r.jobs.len() as int);
    assert(next.jobs.remove(r.jobs.len() as int) =~= r.jobs);
}

} // verus!
