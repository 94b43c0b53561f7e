//! What the operations of the job registry promise.
use crate::job_registry_laws;
use crate::jobs::{Job, JobRegistry, JobState, JobSummary};
use crate::jobs;
use crate::text;
use crate::time::Moment;
use vstd::prelude::*;
use vstd::string::*;

verus! {

/// Completing a job moves it to its end with the summary, and it is told of.
pub proof fn completing_completes(
    registry: &mut JobRegistry,
    id: &str,
    summary: Option<String>,
    now: Moment,
)
    requires
        old(registry).wf(),
        call_ensures(JobRegistry::complete_at, (registry, id, summary, now), ()),
    ensures
        final(registry).wf(),
        job_registry_laws::moves(
            old(registry)@,
            final(registry)@,
            id@,
            JobState::Completed,
            text::opt_text(summary),
            now,
        ),
        job_registry_laws::tells_if_ended(
            old(registry)@,
            final(registry)@,
            id@,
            JobState::Completed,
        ),
{
    job_registry_laws::transition_moves_one_job(
        old(registry)@,
        id@,
        JobState::Completed,
        text::opt_text(summary),
        now,
    );
    if old(registry)@.get(id@) is Some && !job_registry_laws::has_ended(old(registry)@.get(id@).unwrap()) {
        job_registry_laws::end_is_told_by_policy(
            old(registry)@,
            id@,
            JobState::Completed,
            text::opt_text(summary),
            now,
        );
    }
}

/// Completing a job by the clock does the same at the moment that it shows.
pub proof fn completing_now_completes(registry: &mut JobRegistry, id: &str, summary: Option<String>)
    requires
        old(registry).wf(),
        call_ensures(JobRegistry::complete, (registry, id, summary), ()),
    ensures
        final(registry).wf(),
        job_registry_laws::moves(
            old(registry)@,
            final(registry)@,
            id@,
            JobState::Completed,
            text::opt_text(summary),
            final(registry).latest(),
        ),
        job_registry_laws::tells_if_ended(
            old(registry)@,
            final(registry)@,
            id@,
            JobState::Completed,
        ),
        old(registry).shows(final(registry).latest()),
{
    job_registry_laws::transition_moves_one_job(
        old(registry)@,
        id@,
        JobState::Completed,
        text::opt_text(summary),
        final(registry).latest(),
    );
    if old(registry)@.get(id@) is Some && !job_registry_laws::has_ended(old(registry)@.get(id@).unwrap()) {
        job_registry_laws::end_is_told_by_policy(
            old(registry)@,
            id@,
            JobState::Completed,
            text::opt_text(summary),
            final(registry).latest(),
        );
    }
}

/// Failing a job moves it to its end with the summary, and it is told of.
pub proof fn failing_fails(
    registry: &mut JobRegistry,
    id: &str,
    summary: Option<String>,
    now: Moment,
)
    requires
        old(registry).wf(),
        call_ensures(JobRegistry::fail_at, (registry, id, summary, now), ()),
    ensures
        final(registry).wf(),
        job_registry_laws::moves(
            old(registry)@,
            final(registry)@,
            id@,
            JobState::Failed,
            text::opt_text(summary),
            now,
        ),
        job_registry_laws::tells_if_ended(old(registry)@, final(registry)@, id@, JobState::Failed),
{
    job_registry_laws::transition_moves_one_job(
        old(registry)@,
        id@,
        JobState::Failed,
        text::opt_text(summary),
        now,
    );
    if old(registry)@.get(id@) is Some && !job_registry_laws::has_ended(old(registry)@.get(id@).unwrap()) {
        job_registry_laws::end_is_told_by_policy(
            old(registry)@,
            id@,
            JobState::Failed,
            text::opt_text(summary),
            now,
        );
    }
}

/// Failing a job by the clock does the same at the moment that it shows.
pub proof fn failing_now_fails(registry: &mut JobRegistry, id: &str, summary: Option<String>)
    requires
        old(registry).wf(),
        call_ensures(JobRegistry::fail, (registry, id, summary), ()),
    ensures
        final(registry).wf(),
        job_registry_laws::moves(
            old(registry)@,
            final(registry)@,
            id@,
            JobState::Failed,
            text::opt_text(summary),
            final(registry).latest(),
        ),
        job_registry_laws::tells_if_ended(old(registry)@, final(registry)@, id@, JobState::Failed),
        old(registry).shows(final(registry).latest()),
{
    job_registry_laws::transition_moves_one_job(
        old(registry)@,
        id@,
        JobState::Failed,
        text::opt_text(summary),
        final(registry).latest(),
    );
    if old(registry)@.get(id@) is Some && !job_registry_laws::has_ended(old(registry)@.get(id@).unwrap()) {
        job_registry_laws::end_is_told_by_policy(
            old(registry)@,
            id@,
            JobState::Failed,
            text::opt_text(summary),
            final(registry).latest(),
        );
    }
}

/// Canceling a job moves it to its end, and it is told of as a part of its batch.
pub proof fn canceling_cancels(registry: &mut JobRegistry, id: &str, now: Moment)
    requires
        old(registry).wf(),
        call_ensures(JobRegistry::cancel_at, (registry, id, now), ()),
    ensures
        final(registry).wf(),
        job_registry_laws::moves(
            old(registry)@,
            final(registry)@,
            id@,
            JobState::Canceled,
            Some("canceled"@),
            now,
        ),
        job_registry_laws::tells_if_ended(
            old(registry)@,
            final(registry)@,
            id@,
            JobState::Canceled,
        ),
{
    job_registry_laws::transition_moves_one_job(
        old(registry)@,
        id@,
        JobState::Canceled,
        Some("canceled"@),
        now,
    );
    if old(registry)@.get(id@) is Some && !job_registry_laws::has_ended(old(registry)@.get(id@).unwrap()) {
        job_registry_laws::end_is_told_by_policy(
            old(registry)@,
            id@,
            JobState::Canceled,
            Some("canceled"@),
            now,
        );
    }
}

/// A job that needs input asks for it.
pub proof fn asking_asks(registry: &mut JobRegistry, id: &str, question: String, now: Moment)
    requires
        old(registry).wf(),
        call_ensures(JobRegistry::needs_input_at, (registry, id, question, now), ()),
    ensures
        final(registry).wf(),
        final(registry)@ == old(registry)@.asked(id@, question@, now),
{
}

/// A job that needs input asks for it, at the moment that the clock shows.
pub proof fn asking_asks_now(registry: &mut JobRegistry, id: &str, question: String)
    requires
        old(registry).wf(),
        call_ensures(JobRegistry::needs_input, (registry, id, question), ()),
    ensures
        final(registry).wf(),
        final(registry)@ == old(registry)@.asked(id@, question@, final(registry).latest()),
        old(registry).shows(final(registry).latest()),
{
}

/// A job that waits for input goes on when it is resumed.
pub proof fn resuming_resumes(registry: &mut JobRegistry, id: &str, now: Moment)
    requires
        old(registry).wf(),
        call_ensures(JobRegistry::resume_at, (registry, id, now), ()),
    ensures
        final(registry).wf(),
        final(registry)@ == old(registry)@.resumed(id@, now),
{
}

/// A job that waits for input goes on when it is resumed, at the moment that the clock shows.
pub proof fn resuming_resumes_now(registry: &mut JobRegistry, id: &str)
    requires
        old(registry).wf(),
        call_ensures(JobRegistry::resume, (registry, id), ()),
    ensures
        final(registry).wf(),
        final(registry)@ == old(registry)@.resumed(id@, final(registry).latest()),
        old(registry).shows(final(registry).latest()),
{
}

/// A matched pattern is noted and told of.
pub proof fn matching_is_told(
    registry: &mut JobRegistry,
    id: &str,
    pattern: String,
    context: String,
    now: Moment,
)
    requires
        old(registry).wf(),
        call_ensures(JobRegistry::pattern_matched_at, (registry, id, pattern, context, now), ()),
    ensures
        final(registry).wf(),
        final(registry)@ == old(registry)@.matched(id@, pattern@, context@, now),
{
}

/// A matched pattern is noted and told of, at the moment that the clock shows.
pub proof fn matching_is_told_now(
    registry: &mut JobRegistry,
    id: &str,
    pattern: String,
    context: String,
)
    requires
        old(registry).wf(),
        call_ensures(JobRegistry::pattern_matched, (registry, id, pattern, context), ()),
    ensures
        final(registry).wf(),
        final(
            registry)@ == old(registry)@.matched(id@,
            pattern@,
            context@,
            final(registry).latest(),
        ),
        old(registry).shows(final(registry).latest()),
{
}

/// A notification is noted.
pub proof fn notifying_notes(registry: &mut JobRegistry, id: &str, message: String, now: Moment)
    requires
        old(registry).wf(),
        call_ensures(JobRegistry::notify_at, (registry, id, message, now), ()),
    ensures
        final(registry).wf(),
        final(registry)@ == old(registry)@.noted(id@, message@, now),
{
}

/// A notification is noted, at the moment that the clock shows.
pub proof fn notifying_notes_now(registry: &mut JobRegistry, id: &str, message: String)
    requires
        old(registry).wf(),
        call_ensures(JobRegistry::notify, (registry, id, message), ()),
    ensures
        final(registry).wf(),
        final(registry)@ == old(registry)@.noted(id@, message@, final(registry).latest()),
        old(registry).shows(final(registry).latest()),
{
}

/// What is registered is found under its identifier, and nothing else changes.
pub proof fn registering_registers(registry: &mut JobRegistry, job: Job, other: Seq<char>)
    requires
        old(registry).wf(),
        call_ensures(JobRegistry::register, (registry, job), ()),
    ensures
        final(registry)@.get(job.id@) == Some(job@),
        other != job.id@ ==> final(registry)@.get(other) == old(registry)@.get(other),
        final(registry)@.events == old(registry)@.events,
{
    jobs::registered_is_found(old(registry)@, job@);
}

/// What is removed is handed out and no longer found, and nothing else changes.
pub proof fn removing_removes(
    registry: &mut JobRegistry,
    id: &str,
    r: Option<Job>,
    other: Seq<char>,
)
    requires
        old(registry).wf(),
        call_ensures(JobRegistry::remove, (registry, id), r),
    ensures
        final(registry)@.get(id@) is None,
        other != id@ ==> final(registry)@.get(other) == old(registry)@.get(other),
        final(registry)@.events == old(registry)@.events,
        match old(registry)@.get(id@) {
            Some(t) => r matches Some(found) && found@ == t,
            None => r is None,
        },
{
    jobs::removed_is_gone(old(registry)@, id@);
}

/// What is asked for by its identifier is what is kept under it.
pub proof fn getting_finds(registry: &JobRegistry, id: &str, r: Option<&Job>)
    requires
        call_ensures(JobRegistry::get, (registry, id), r),
    ensures
        match registry@.get(id@) {
            Some(t) => r matches Some(found) && found@ == t,
            None => r is None,
        },
{
}

/// Every job is listed, in the order in which they are kept.
pub proof fn listing_lists(registry: &JobRegistry, r: Vec<&Job>)
    requires
        call_ensures(JobRegistry::list, (registry,), r),
    ensures
        r@.len() == registry@.jobs.len(),
        forall|i: int| 0 <= i < r@.len() ==> (#[trigger] r@[i])@ == registry@.jobs[i].1,
{
    let seen = r@.map_values(|t: &Job| t@);
    assert(seen.len() == r@.len());
    assert forall|i: int| 0 <= i < r@.len() implies (#[trigger] r@[i])@ == registry@.jobs[i].1 by {
        assert(seen[i] == r@[i]@);
    }
}

/// Collecting drops what has been over for long.
pub proof fn collecting_collects(registry: &mut JobRegistry, now: Moment)
    requires
        old(registry).wf(),
        call_ensures(JobRegistry::gc_at, (registry, now), ()),
    ensures
        final(registry)@ == old(registry)@.collected(now),
{
}

/// What is told of a job is what it is.
pub proof fn summary_is_made_of_the_job(job: &Job, now: Moment, r: JobSummary)
    requires
        call_ensures(jobs::make_job_summary, (job, now), r),
    ensures
        r.id@ == job.id@,
        r.source == job.source,
        r.description@ == job.description@,
        r.state == job.state,
        r.duration == job_registry_laws::work_up_to(job@, now),
{
}

} // verus!
