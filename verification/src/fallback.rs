//! Trying one candidate after the other.
//!
//! What trying does outside is threaded through the attempts as a state: an attempt takes
//! the state that the one before it left. A contract over these states says which
//! attempts were made, in which order, and how often.
use vstd::prelude::*;

verus! {

/// What to do next when candidates are tried in order.
#[derive(Debug, PartialEq, Eq)]
pub enum FallbackStep<T> {
    /// Try the candidate at this place.
    Try(usize),
    /// The last attempt gave this.
    Done(T),
    /// No candidate is left.
    Failed,
}

/// What to do next, after `tried` of `count` candidates were tried and the last of them gave
/// `last`.
pub fn fallback_step<T>(count: usize, tried: usize, last: Option<T>) -> (step: FallbackStep<T>)
    ensures
        step == match last {
            Some(found) => FallbackStep::Done(found),
            None => if tried < count {
                FallbackStep::Try(tried)
            } else {
                FallbackStep::Failed
            },
        },
{
    match last {
        Some(found) => FallbackStep::Done(found),
        None => {
            if tried < count {
                FallbackStep::Try(tried)
            } else {
                FallbackStep::Failed
            }
        },
    }
}

/// The state before attempt `k`, given for each attempt the state that it left and what it
/// gave.
pub open spec fn state_before<S, O>(start: S, trace: Seq<(S, O)>, k: int) -> S {
    if k == 0 {
        start
    } else {
        trace[k - 1].0
    }
}

/// The state after all attempts.
pub open spec fn state_after<S, O>(start: S, trace: Seq<(S, O)>) -> S {
    state_before(start, trace, trace.len() as int)
}

/// Whether attempt `k` may have gone as `trace` says.
pub open spec fn attempted<C, S, O, R: Fn(S, &C) -> (S, O)>(
    attempt: R,
    candidates: Seq<C>,
    start: S,
    trace: Seq<(S, O)>,
    k: int,
) -> bool {
    call_ensures(attempt, (state_before(start, trace, k), &candidates[k]), trace[k])
}

/// Whether the attempts may have gone as `trace` says: one for each of the first candidates,
/// in order.
pub open spec fn attempted_in_order<C, S, O, R: Fn(S, &C) -> (S, O)>(
    attempt: R,
    candidates: Seq<C>,
    start: S,
    trace: Seq<(S, O)>,
) -> bool {
    &&& trace.len() <= candidates.len()
    &&& forall|k: int|
        0 <= k < trace.len() ==> #[trigger] attempted(attempt, candidates, start, trace, k)
}

/// One more attempt continues a trace.
pub proof fn lemma_one_more<C, S, O, R: Fn(S, &C) -> (S, O)>(
    attempt: R,
    candidates: Seq<C>,
    start: S,
    trace: Seq<(S, O)>,
    more: (S, O),
)
    requires
        attempted_in_order(attempt, candidates, start, trace),
        trace.len() < candidates.len(),
        call_ensures(
            attempt,
            (state_after(start, trace), &candidates[trace.len() as int]),
            more,
        ),
    ensures
        attempted_in_order(attempt, candidates, start, trace.push(more)),
        state_after(start, trace.push(more)) == more.0,
{
    let longer = trace.push(more);
    assert forall|k: int| 0 <= k < longer.len() implies #[trigger] attempted(
        attempt,
        candidates,
        start,
        longer,
        k,
    ) by {
        if k < trace.len() {
            assert(attempted(attempt, candidates, start, trace, k));
            assert(state_before(start, longer, k) == state_before(start, trace, k));
        } else {
            assert(state_before(start, longer, k) == state_after(start, trace));
        }
    }
}

/// Trying ends with what an attempt gave; until one gives something every candidate is tried in
/// turn, and nothing is left only once all were tried.
pub proof fn candidates_are_tried_in_turn<T>(
    count: usize,
    tried: usize,
    last: Option<T>,
    step: FallbackStep<T>,
)
    requires
        call_ensures(fallback_step::<T>, (count, tried, last), step),
    ensures
        last is Some <==> step is Done,
        last is Some ==> step == FallbackStep::Done(last->0),
        last is None && tried < count ==> step == FallbackStep::<T>::Try(tried),
        last is None && tried >= count ==> step is Failed,
{
}

} // verus!
