//! What holds of moments and stretches of time.
use crate::time::{Moment, Span};
use vstd::prelude::*;

verus! {

/// The time between two moments leads from one to the other, and back in time
/// there is none.
pub proof fn time_between_leads_there(earlier: Moment, later: Moment)
    ensures
        later.reached(earlier) ==> earlier.after(later.since(earlier)) == later,
        !later.reached(earlier) ==> later.since(earlier).nanos == 0,
        later.reached(earlier) || earlier.reached(later),
        later.reached(earlier) && earlier.reached(later) ==> later == earlier,
{
}

/// A stretch of time after a moment is the time between the two, as long as
/// the clock can count it.
pub proof fn time_after_is_time_between(now: Moment, span: Span)
    ensures
        now.after(span).reached(now),
        now.since_start.nanos + span.nanos <= u128::MAX ==> now.after(span).since(now) == span
            && now.after(span).since_start.nanos == now.since_start.nanos + span.nanos,
        now.since_start.nanos + span.nanos > u128::MAX ==> now.after(span).since_start.nanos
            == u128::MAX,
{
}

/// Stretches add up, in any order, as far as they can be counted.
pub proof fn stretches_add_up(a: Span, b: Span)
    ensures
        a.nanos + b.nanos <= u128::MAX ==> a.with(b).nanos == a.nanos + b.nanos,
        a.with(b) == b.with(a),
        a.with(Span::none()) == a,
{
}

/// A stretch is its whole seconds and the nanoseconds beyond, which are less
/// than a second.
pub proof fn stretch_is_its_seconds_and_the_rest(s: Span)
    ensures
        s.whole_secs() * 1_000_000_000 <= s.nanos < (s.whole_secs() + 1) * 1_000_000_000,
        s.subsec_nanos() == s.nanos - s.whole_secs() * 1_000_000_000,
        s.whole_secs() <= u64::MAX ==> s.standard_secs() == s.whole_secs(),
{
}

/// A stretch made of seconds and nanoseconds is as long as they say.
pub proof fn parts_make_a_stretch(secs: u64, nanos: u32)
    ensures
        Span::of(secs, nanos).nanos == secs * 1_000_000_000 + nanos,
{
}

} // verus!
