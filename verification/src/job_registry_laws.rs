//! What holds of every job of a registry, and of what is told of it.
use crate::job_laws;
use crate::jobs;
use crate::jobs::{
    InterruptPolicy, JobEventView, JobMeta, JobState, JobSummaryView, JobView, NotificationView,
    NotifyPolicy, RegistryView,
};
use crate::time::{Moment, Span};
use vstd::prelude::*;

verus! {

// ── States ────────────────────────────────────────────────────────────

/// The job has come to an end.
pub open spec fn has_ended(t: JobView) -> bool {
    match t.state {
        JobState::Working => false,
        JobState::InputRequired => false,
        JobState::Completed => true,
        JobState::Failed => true,
        JobState::Canceled => true,
    }
}

/// A job that works or waits is not over; one that was completed, failed or
/// was cancelled is.
pub proof fn three_job_states_are_ends(t: JobView)
    ensures
        t.state.terminal() <==> has_ended(t),
{
}

/// A job polls at most once a second, is kept for five minutes, and
/// interrupts whenever it can, unless something else is asked for.
pub proof fn usual_hints()
    ensures
        JobMeta::usual() == (JobMeta {
            min_poll_interval_ms: 1000,
            ttl_after_completion_s: 300,
            interrupt_on: InterruptPolicy {
                on_complete: true,
                on_failed: true,
                on_input_required: true,
                on_pattern_matched: true,
            },
            deadline: None,
        }),
{
}

/// The time that a job has worked up to a moment: what it had worked before,
/// and the time since its last activity, if it works.
pub open spec fn work_up_to(t: JobView, now: Moment) -> Span {
    if t.state == JobState::Working {
        t.worked_duration.with(now.since(t.last_activity))
    } else {
        t.worked_duration
    }
}

// ── Keeping ───────────────────────────────────────────────────────────

/// No job but the one under `id` differs, and none changes its place.
pub open spec fn only_differs_in(r: RegistryView, next: RegistryView, id: Seq<char>) -> bool {
    &&& next.keys_distinct()
    &&& next.jobs.len() == r.jobs.len()
    &&& forall|i: int|
        0 <= i < r.jobs.len() ==> (#[trigger] next.jobs[i]).0 == r.jobs[i].0 && (r.jobs[i].0
            != id ==> next.jobs[i] == r.jobs[i])
    &&& forall|other: Seq<char>| other != id ==> #[trigger] next.get(other) == r.get(other)
}

proof fn replacing_differs_in_one(r: RegistryView, id: Seq<char>, t: JobView)
    requires
        r.keys_distinct(),
        r.has(id),
    ensures
        only_differs_in(r, r.with_job(id, t), id),
        r.with_job(id, t).get(id) == Some(t),
{
    jobs::replacing_is_local(r, id, t);
    assert(jobs::keyed(r.jobs, id, r.slot(id)));
}

/// A new job comes after the others; one under a key that is there takes the
/// place of what was there. Nothing is told.
pub proof fn registering_keeps_the_order(r: RegistryView, t: JobView)
    requires
        r.keys_distinct(),
    ensures
        ({
            let next = r.registered(t);
            &&& next.get(t.id) == Some(t)
            &&& next.events == r.events
            &&& r.get(t.id) is None ==> next.jobs == r.jobs.push((t.id, t))
            &&& r.get(t.id) is Some ==> only_differs_in(r, next, t.id)
        }),
{
    jobs::registered_is_found(r, t);
    if r.has(t.id) {
        replacing_differs_in_one(r, t.id, t);
    }
}

/// Removing a job tells nothing and keeps the others in their order.
pub proof fn removing_keeps_the_order(r: RegistryView, id: Seq<char>)
    requires
        r.keys_distinct(),
    ensures
        ({
            let next = r.removed(id);
            &&& next.events == r.events
            &&& r.get(id) is None ==> next == r
            &&& r.get(id) is Some ==> next.jobs.len() == r.jobs.len() - 1
            &&& exists|at: int|
                0 <= at <= r.jobs.len() && next.jobs.take(at) == #[trigger] r.jobs.take(at)
                    && (r.get(id) is Some ==> at < r.jobs.len() && r.jobs[at].0 == id
                    && next.jobs.skip(at) == r.jobs.skip(at + 1))
        }),
{
    let next = r.removed(id);
    if r.has(id) {
        let at = r.slot(id);
        assert(jobs::keyed(r.jobs, id, at));
        assert(next.jobs.take(at) =~= r.jobs.take(at));
        assert(next.jobs.skip(at) =~= r.jobs.skip(at + 1));
    } else {
        assert(next.jobs.take(0) == r.jobs.take(0));
    }
}

// ── Transitions ───────────────────────────────────────────────────────

/// The job under `id`, unless it is over or not there, has moved to the state
/// with the summary as its result; the work up to then counts, and nothing else
/// has changed.
pub open spec fn moves(
    r: RegistryView,
    next: RegistryView,
    id: Seq<char>,
    state: JobState,
    summary: Option<Seq<char>>,
    now: Moment,
) -> bool {
    match r.get(id) {
        None => next == r,
        Some(t) => if has_ended(t) {
            next == r
        } else {
            &&& only_differs_in(r, next, id)
            &&& next.get(id) matches Some(u) && {
                &&& u.state == state
                &&& u.result_summary == summary
                &&& u.last_activity == now
                &&& u.worked_duration == work_up_to(t, now)
                &&& u == (JobView {
                    state: u.state,
                    result_summary: u.result_summary,
                    last_activity: u.last_activity,
                    worked_duration: u.worked_duration,
                    ..t
                })
            }
        },
    }
}

/// A transition puts a job that is not over into the state, with the summary
/// as its result; the work up to then
/// counts. It keeps all else of the job and every other job. A job that is
/// over stays as it is.
pub proof fn transition_moves_one_job(
    r: RegistryView,
    id: Seq<char>,
    state: JobState,
    summary: Option<Seq<char>>,
    now: Moment,
)
    requires
        r.keys_distinct(),
    ensures
        moves(r, r.transitioned(id, state, summary, now), id, state, summary, now),
{
    job_laws::transition_is_local(r, id, state, summary, now);
    if let Some(t) = r.get(id) {
        if !has_ended(t) {
            let arrived = jobs::moved(t, state, summary, now);
            replacing_differs_in_one(r, id, arrived);
            let next = r.with_job(id, arrived);
            job_laws::sending_keeps_jobs(next, jobs::arrival_events(next.jobs, arrived, now));
        }
    }
}

// ── Telling ───────────────────────────────────────────────────────────

/// All that is told of a job that is over.
pub open spec fn told(t: JobView) -> JobSummaryView {
    JobSummaryView {
        id: t.id,
        source: t.source,
        description: t.description,
        state: t.state,
        duration: t.worked_duration,
    }
}

/// What is told of a job at a moment is what it is then, with all the work that
/// it has done up to there.
pub proof fn summaries_tell_the_job(t: JobView, now: Moment)
    ensures
        jobs::summary_of(t, now) == (JobSummaryView { duration: work_up_to(t, now), ..told(t) }),
{
}

/// The job under `id` belongs to the batch.
pub open spec fn belongs(r: RegistryView, id: Seq<char>, batch_id: Seq<char>) -> bool {
    r.get(id) matches Some(t) && t.batch_id == Some(batch_id)
}

/// This is what is told of the job under `id`, which belongs to the batch.
pub open spec fn told_as(
    r: RegistryView,
    id: Seq<char>,
    batch_id: Seq<char>,
    s: JobSummaryView,
) -> bool {
    belongs(r, id, batch_id) && s == told(r.get(id).unwrap())
}

/// This is what is told of some job of the batch.
pub open spec fn tells_of_one(r: RegistryView, batch_id: Seq<char>, s: JobSummaryView) -> bool {
    exists|id: Seq<char>| #[trigger] told_as(r, id, batch_id, s)
}

/// Every job of the batch is told of, whatever it ended with, and no other.
pub open spec fn tells_the_batch(
    r: RegistryView,
    batch_id: Seq<char>,
    summaries: Seq<JobSummaryView>,
) -> bool {
    &&& forall|id: Seq<char>| #[trigger]
        belongs(r, id, batch_id) ==> summaries.contains(told(r.get(id).unwrap()))
    &&& forall|i: int|
        0 <= i < summaries.len() ==> tells_of_one(r, batch_id, #[trigger] summaries[i])
    &&& summaries.len() == r.jobs.filter(
        |e: (Seq<char>, JobView)| e.1.batch_id == Some(batch_id),
    ).len()
}

/// All jobs of a batch are over.
pub open spec fn batch_has_ended(r: RegistryView, batch_id: Seq<char>) -> bool {
    forall|id: Seq<char>| #[trigger]
        belongs(r, id, batch_id) ==> has_ended(r.get(id).unwrap())
}

/// A batch is told of exactly if it has jobs and all of them are over: in one
/// event, with every one of its jobs, in the order in which they are kept.
pub proof fn batch_is_told_whole(r: RegistryView, batch_id: Seq<char>, now: Moment)
    requires
        r.keys_distinct(),
    ensures
        ({
            let events = jobs::batch_events(r.jobs, batch_id, now);
            if batch_has_ended(r, batch_id) && exists|id: Seq<char>| #[trigger]
                belongs(r, id, batch_id) {
                &&& events.len() == 1
                &&& events[0] matches JobEventView::BatchCompleted { batch_id: named, job_summaries } && named == batch_id && tells_the_batch(r, batch_id, job_summaries)
                    && job_summaries == r.jobs.filter(
                    |e: (Seq<char>, JobView)| e.1.batch_id == Some(batch_id),
                ).map_values(|e: (Seq<char>, JobView)| told(e.1))
            } else {
                events.len() == 0
            }
        }),
{
    let chosen = |e: (Seq<char>, JobView)| e.1.batch_id == Some(batch_id);
    let plain = |e: (Seq<char>, JobView)| told(e.1);
    assert(jobs::in_batch(batch_id) =~= chosen);
    assert forall|i: int| jobs::keyed(r.jobs, #[trigger] r.jobs[i].0, i) implies r.get(
        r.jobs[i].0,
    ) == Some(r.jobs[i].1) by {
        jobs::slot_is_unique(r, r.jobs[i].0, i);
    }
    assert forall|id: Seq<char>| #[trigger] belongs(r, id, batch_id) implies jobs::keyed(
        r.jobs,
        id,
        r.slot(id),
    ) && r.jobs[r.slot(id)].1 == r.get(id).unwrap() by {}
    let whole = batch_has_ended(r, batch_id);
    let some = exists|id: Seq<char>| #[trigger] belongs(r, id, batch_id);
    if some {
        let id = choose|id: Seq<char>| #[trigger] belongs(r, id, batch_id);
        assert(r.jobs[r.slot(id)].1.batch_id == Some(batch_id));
    }
    if exists|i: int|
        0 <= i < r.jobs.len() && (#[trigger] r.jobs[i]).1.batch_id == Some(batch_id) {
        let i = choose|i: int|
            0 <= i < r.jobs.len() && (#[trigger] r.jobs[i]).1.batch_id == Some(batch_id);
        assert(jobs::keyed(r.jobs, r.jobs[i].0, i));
        assert(belongs(r, r.jobs[i].0, batch_id));
    }
    if whole {
        assert forall|i: int|
            0 <= i < r.jobs.len() && (#[trigger] r.jobs[i]).1.batch_id == Some(
                batch_id,
            ) implies r.jobs[i].1.state.terminal() && has_ended(r.jobs[i].1) by {
            assert(jobs::keyed(r.jobs, r.jobs[i].0, i));
            assert(belongs(r, r.jobs[i].0, batch_id));
        }
    } else {
        let id = choose|id: Seq<char>| #[trigger]
            belongs(r, id, batch_id) && !has_ended(r.get(id).unwrap());
        assert(!r.jobs[r.slot(id)].1.state.terminal());
    }
    assert(jobs::batch_done(r.jobs, batch_id) == (whole && some));
    if whole && some {
        let summaries = jobs::batch_summaries(r.jobs, batch_id, now);
        let kept = r.jobs.filter(chosen);
        job_laws::filter_members(r.jobs, chosen);
        assert forall|i: int| 0 <= i < kept.len() implies has_ended((#[trigger] kept[i]).1)
            && tells_of_one(r, batch_id, told(kept[i].1)) by {
            assert(kept.contains(kept[i]));
            let k = choose|k: int| 0 <= k < r.jobs.len() && r.jobs[k] == kept[i];
            assert(jobs::keyed(r.jobs, r.jobs[k].0, k));
            assert(told_as(r, r.jobs[k].0, batch_id, told(kept[i].1)));
        }
        assert(summaries =~= kept.map_values(plain));
        assert forall|id: Seq<char>| #[trigger]
            belongs(r, id, batch_id) implies summaries.contains(told(r.get(id).unwrap())) by {
            let e = r.jobs[r.slot(id)];
            assert(r.jobs.contains(e));
            assert(kept.contains(e));
            let k = choose|k: int| 0 <= k < kept.len() && kept[k] == e;
            assert(summaries[k] == told(e.1));
        }
        assert(tells_the_batch(r, batch_id, summaries));
    }
}

/// The end of the job under `id` is told by its policy: at once, if it asks to
/// hear of such an end; with the last job of its batch; or never. What is told
/// is the job as the end left it.
pub open spec fn told_by_policy(
    r: RegistryView,
    next: RegistryView,
    id: Seq<char>,
    state: JobState,
) -> bool {
    let t = r.get(id).unwrap();
    let wanted = t.meta.interrupt_on;
    match t.notify_policy {
        NotifyPolicy::Informational => next.events == r.events,
        NotifyPolicy::OnCompletion => if (state == JobState::Completed
            && wanted.on_complete) || (state == JobState::Failed && wanted.on_failed) {
            next.events == r.events.push(
                JobEventView::JobCompleted { job: told(next.get(id).unwrap()) },
            )
        } else {
            next.events == r.events
        },
        NotifyPolicy::OnBatchCompletion => match t.batch_id {
            None => next.events == r.events,
            Some(batch_id) => if batch_has_ended(next, batch_id) {
                &&& next.events.len() == r.events.len() + 1
                &&& next.events.drop_last() == r.events
                &&& next.events.last() matches JobEventView::BatchCompleted { batch_id: named, job_summaries } && named == batch_id && tells_the_batch(next, batch_id, job_summaries)
            } else {
                next.events == r.events
            },
        },
    }
}

/// An end that was reached is told by the policy of the job; otherwise nothing
/// is told.
pub open spec fn tells_if_ended(
    r: RegistryView,
    next: RegistryView,
    id: Seq<char>,
    state: JobState,
) -> bool {
    if r.get(id) is Some && !has_ended(r.get(id).unwrap()) {
        told_by_policy(r, next, id, state)
    } else {
        next.events == r.events
    }
}

/// The end of a job is told by its policy: at once, if it asks to hear of such
/// an end; with the last job of its batch; or never. What is told is the job
/// as the end left it.
pub proof fn end_is_told_by_policy(
    r: RegistryView,
    id: Seq<char>,
    state: JobState,
    summary: Option<Seq<char>>,
    now: Moment,
)
    requires
        r.keys_distinct(),
        r.get(id) is Some,
        !has_ended(r.get(id).unwrap()),
        state == JobState::Completed || state == JobState::Failed || state
            == JobState::Canceled,
    ensures
        told_by_policy(r, r.transitioned(id, state, summary, now), id, state),
{
    let t = r.get(id).unwrap();
    let next = r.transitioned(id, state, summary, now);
    transition_moves_one_job(r, id, state, summary, now);
    let arrived = jobs::moved(t, state, summary, now);
    let u = next.get(id).unwrap();
    assert(u =~= arrived);
    assert(jobs::summary_of(arrived, now) =~= told(u));
    if let Some(batch_id) = t.batch_id {
        batch_is_told_whole(next, batch_id, now);
        assert(belongs(next, id, batch_id));
        let more = jobs::batch_events(next.jobs, batch_id, now);
        if t.notify_policy == NotifyPolicy::OnBatchCompletion {
            assert(next.events == r.events + more);
            if more.len() == 1 {
                assert((r.events + more).drop_last() =~= r.events);
                assert((r.events + more).last() == more[0]);
            } else {
                assert(r.events + more =~= r.events);
            }
        }
    }
    assert(r.events + Seq::<JobEventView>::empty() =~= r.events);
}

/// A job that is canceled moves to its end with the word `canceled`.
pub proof fn canceling_ends(r: RegistryView, id: Seq<char>, now: Moment)
    ensures
        r.canceled(id, now) == r.transitioned(id, JobState::Canceled, Some("canceled"@), now),
{
}

// ── Waiting ───────────────────────────────────────────────────────────

/// A job that asks waits for input, and the question is
/// told of under its identifier if its policy wants that; a job that is over
/// asks nothing.
pub proof fn asking_job_waits(
    r: RegistryView,
    id: Seq<char>,
    question: Seq<char>,
    now: Moment,
)
    requires
        r.keys_distinct(),
    ensures
        match r.get(id) {
            Some(t) if !has_ended(t) => {
                let next = r.asked(id, question, now);
                &&& only_differs_in(r, next, id)
                &&& next.get(id) == Some(
                    JobView {
                        state: JobState::InputRequired,
                        worked_duration: work_up_to(t, now),
                        last_activity: now,
                        ..t
                    },
                )
                &&& t.meta.interrupt_on.on_input_required ==> next.events == r.events.push(
                    JobEventView::JobNeedsInput { job_id: id, question },
                )
                &&& !t.meta.interrupt_on.on_input_required ==> next.events == r.events
            },
            _ => r.asked(id, question, now) == r,
        },
{
    if let Some(t) = r.get(id) {
        if !has_ended(t) {
            let asking = jobs::asking(t, now);
            replacing_differs_in_one(r, id, asking);
            let more = seq![
                JobEventView::JobNeedsInput { job_id: id, question },
            ];
            job_laws::local_step(r, id, asking, more);
            assert(r.events + more =~= r.events.push(more[0]));
        }
    }
}

/// A job that waits for input goes on when it is resumed; the wait is no work,
/// and no other job is resumed. Nothing is told.
pub proof fn resuming_goes_on(r: RegistryView, id: Seq<char>, now: Moment)
    requires
        r.keys_distinct(),
    ensures
        r.resumed(id, now).events == r.events,
        match r.get(id) {
            Some(t) if t.state == JobState::InputRequired => {
                &&& only_differs_in(r, r.resumed(id, now), id)
                &&& r.resumed(id, now).get(id) == Some(
                    JobView { state: JobState::Working, last_activity: now, ..t },
                )
            },
            _ => r.resumed(id, now) == r,
        },
{
    if let Some(t) = r.get(id) {
        replacing_differs_in_one(
            r,
            id,
            JobView { state: JobState::Working, last_activity: now, ..t },
        );
    }
}

// ── Activity ──────────────────────────────────────────────────────────

/// The job as it stands with activity at a moment: nothing but its clock goes
/// on.
pub open spec fn busy(t: JobView, now: Moment) -> JobView {
    JobView { worked_duration: work_up_to(t, now), last_activity: now, ..t }
}

/// Activity counts the work up to its moment, keeps the state, and is not told.
/// A note is kept, after those before, with its moment.
pub proof fn activity_is_counted(r: RegistryView, id: Seq<char>, message: Seq<char>, now: Moment)
    requires
        r.keys_distinct(),
    ensures
        r.noted(id, message, now).events == r.events,
        match r.get(id) {
            None => r.noted(id, message, now) == r,
            Some(t) => {
                &&& only_differs_in(r, r.noted(id, message, now), id)
                &&& r.noted(id, message, now).get(id) == Some(
                    JobView {
                        notifications: t.notifications.push(
                            NotificationView { timestamp: now, message },
                        ),
                        ..busy(t, now)
                    },
                )
            },
        },
{
    if let Some(t) = r.get(id) {
        replacing_differs_in_one(r, id, jobs::notified(t, message, now));
    }
}

/// A match is noted on the job with its pattern, whatever its state, which it
/// keeps; it is told of with its context if the policy of the job wants that.
pub proof fn matches_are_noted_and_told(
    r: RegistryView,
    id: Seq<char>,
    pattern: Seq<char>,
    context: Seq<char>,
    now: Moment,
)
    requires
        r.keys_distinct(),
    ensures
        match r.get(id) {
            None => r.matched(id, pattern, context, now) == r,
            Some(t) => {
                let next = r.matched(id, pattern, context, now);
                &&& only_differs_in(r, next, id)
                &&& next.get(id) == Some(
                    JobView {
                        notifications: t.notifications.push(
                            NotificationView {
                                timestamp: now,
                                message: "pattern matched: "@ + pattern,
                            },
                        ),
                        ..busy(t, now)
                    },
                )
                &&& t.meta.interrupt_on.on_pattern_matched ==> next.events == r.events.push(
                    JobEventView::PatternMatched { job_id: id, pattern, context },
                )
                &&& !t.meta.interrupt_on.on_pattern_matched ==> next.events == r.events
            },
        },
{
    if let Some(t) = r.get(id) {
        let noted = jobs::notified(t, "pattern matched: "@ + pattern, now);
        replacing_differs_in_one(r, id, noted);
        let more = seq![
            JobEventView::PatternMatched { job_id: id, pattern, context },
        ];
        job_laws::local_step(r, id, noted, more);
        assert(r.events + more =~= r.events.push(more[0]));
    }
}

// ── Collecting ────────────────────────────────────────────────────────

/// A job is dropped exactly if it is over and has been for as long as it is
/// kept, in seconds; the others stay, in their order, and nothing is told.
pub proof fn collecting_drops_what_was_kept_long(
    a: Seq<(Seq<char>, JobView)>,
    b: Seq<(Seq<char>, JobView)>,
    events: Seq<JobEventView>,
    e: (Seq<char>, JobView),
    now: Moment,
)
    ensures
        ({
            let left = RegistryView { jobs: a, events };
            let right = RegistryView { jobs: b, events };
            let both = RegistryView { jobs: a + b, events };
            let one = RegistryView { jobs: seq![e], events };
            let none = RegistryView { jobs: Seq::empty(), events };
            &&& both.collected(now).jobs == left.collected(now).jobs + right.collected(now).jobs
            &&& both.collected(now).events == events
            &&& none.collected(now).jobs.len() == 0
            &&& one.collected(now).jobs == (if has_ended(e.1) && now.since(
                e.1.last_activity,
            ).nanos >= e.1.meta.ttl_after_completion_s * 1_000_000_000 {
                Seq::empty()
            } else {
                seq![e]
            })
        }),
{
    let keep = |e: (Seq<char>, JobView)| jobs::retained(e.1, now);
    Seq::filter_distributes_over_add(a, b, keep);
    filter_of_one(e, keep);
    let nanos = now.since(e.1.last_activity).nanos;
    let kept = e.1.meta.ttl_after_completion_s;
    assert((nanos / 1_000_000_000 < kept) == (nanos < kept * 1_000_000_000));
}

/// Of one entry, a filter keeps it or nothing.
pub proof fn filter_of_one(
    e: (Seq<char>, JobView),
    keep: spec_fn((Seq<char>, JobView)) -> bool,
)
    ensures
        Seq::<(Seq<char>, JobView)>::empty().filter(keep) == Seq::<
            (Seq<char>, JobView),
        >::empty(),
        seq![e].filter(keep) == (if keep(e) {
            seq![e]
        } else {
            Seq::empty()
        }),
{
    reveal_with_fuel(Seq::filter, 2);
    assert(seq![e].drop_last() =~= Seq::empty());
    assert(Seq::<(Seq<char>, JobView)>::empty().push(e) =~= seq![e]);
}

// ── Listing ───────────────────────────────────────────────────────────

/// The jobs in a wanted state are listed, all of them, and no others, in the
/// order in which they are kept; so are the jobs that work.
pub proof fn listing_picks_by_state(
    a: Seq<(Seq<char>, JobView)>,
    b: Seq<(Seq<char>, JobView)>,
    events: Seq<JobEventView>,
    e: (Seq<char>, JobView),
    wanted: spec_fn(JobState) -> bool,
)
    ensures
        ({
            let left = RegistryView { jobs: a, events };
            let right = RegistryView { jobs: b, events };
            let both = RegistryView { jobs: a + b, events };
            let one = RegistryView { jobs: seq![e], events };
            let none = RegistryView { jobs: Seq::empty(), events };
            &&& both.in_state(wanted) == left.in_state(wanted) + right.in_state(wanted)
            &&& both.working() == left.working() + right.working()
            &&& none.in_state(wanted).len() == 0
            &&& none.working().len() == 0
            &&& one.in_state(wanted) == (if wanted(e.1.state) {
                seq![e.1]
            } else {
                Seq::empty()
            })
            &&& one.working() == (if e.1.state == JobState::Working {
                seq![e.1]
            } else {
                Seq::empty()
            })
        }),
{
    let works = |s: JobState| s == JobState::Working;
    listing_by_one_wish(a, b, events, e, wanted);
    listing_by_one_wish(a, b, events, e, works);
}

proof fn listing_by_one_wish(
    a: Seq<(Seq<char>, JobView)>,
    b: Seq<(Seq<char>, JobView)>,
    events: Seq<JobEventView>,
    e: (Seq<char>, JobView),
    wanted: spec_fn(JobState) -> bool,
)
    ensures
        ({
            let left = RegistryView { jobs: a, events };
            let right = RegistryView { jobs: b, events };
            let both = RegistryView { jobs: a + b, events };
            let one = RegistryView { jobs: seq![e], events };
            let none = RegistryView { jobs: Seq::empty(), events };
            &&& both.in_state(wanted) == left.in_state(wanted) + right.in_state(wanted)
            &&& none.in_state(wanted).len() == 0
            &&& one.in_state(wanted) == (if wanted(e.1.state) {
                seq![e.1]
            } else {
                Seq::empty()
            })
        }),
{
    let keep = |e: (Seq<char>, JobView)| wanted(e.1.state);
    Seq::filter_distributes_over_add(a, b, keep);
    filter_of_one(e, keep);
    let left = RegistryView { jobs: a, events };
    let right = RegistryView { jobs: b, events };
    let both = RegistryView { jobs: a + b, events };
    let one = RegistryView { jobs: seq![e], events };
    assert(both.in_state(wanted) =~= left.in_state(wanted) + right.in_state(wanted));
    assert(one.in_state(wanted) =~= (if wanted(e.1.state) {
        seq![e.1]
    } else {
        Seq::empty()
    }));
}

} // verus!
