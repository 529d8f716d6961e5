//! What holds of every search, whatever the attempts bring.

use crate::loader::LoaderState;
use crate::platform::{default_path, Platform};
use crate::search::{search_order, split_on, PATH_SEPARATOR};
use vstd::prelude::*;

verus! {

/// While every attempt fails and paths are left, the search just moves on:
/// after `count` failures, `count` attempts are made and nothing is cached.
proof fn lemma_failures_move_on<H, E>(
    order: Seq<Seq<char>>,
    outcomes: Seq<Result<H, E>>,
    count: int,
)
    requires
        0 <= count < order.len(),
        count <= outcomes.len(),
        forall|i: int| 0 <= i < count ==> outcomes[i] is Err,
    ensures
        LoaderState::fresh(order).record_all(outcomes.take(count)) == (LoaderState::<H, E> {
            order,
            attempts: count as nat,
            cached: None,
        }),
    decreases count,
{
    let reported = outcomes.take(count);
    if count > 0 {
        lemma_failures_move_on(order, outcomes, count - 1);
        assert(reported.drop_last() == outcomes.take(count - 1));
        assert(reported.last() == outcomes[count - 1]);
    }
}

/// Once a result is cached it stays: whatever is reported afterwards, and
/// however often, the state is what it was. Every later look finds the same
/// result, also where it is a failure, and no further attempt is made.
pub proof fn law_cached_result_is_final<H, E>(
    state: LoaderState<H, E>,
    later: Seq<Result<H, E>>,
)
    requires
        state.cached is Some,
    ensures
        state.record_all(later) == state,
        state.record_all(later).pending() is None,
    decreases later.len(),
{
    if later.len() > 0 {
        law_cached_result_is_final(state, later.drop_last());
    }
}

/// The course of a search. Let the attempts on the first `decisive` paths
/// fail, and let the attempt on the path at index `decisive` succeed, or that
/// path be the last. Then the paths are attempted in order up to that one, its
/// outcome is cached, and no path behind it is ever attempted.
pub proof fn law_search_ends_at_decisive_attempt<H, E>(
    order: Seq<Seq<char>>,
    outcomes: Seq<Result<H, E>>,
    decisive: int,
)
    requires
        0 <= decisive < order.len(),
        decisive < outcomes.len(),
        forall|i: int| 0 <= i < decisive ==> outcomes[i] is Err,
        outcomes[decisive] is Ok || decisive == order.len() - 1,
    ensures
        forall|j: int|
            0 <= j <= decisive ==> (#[trigger] LoaderState::fresh(order).record_all(
                outcomes.take(j),
            )).pending() == Some(order[j]),
        forall|j: int|
            decisive < j <= outcomes.len() ==> #[trigger] LoaderState::fresh(order).record_all(
                outcomes.take(j),
            ) == (LoaderState::<H, E> {
                order,
                attempts: (decisive + 1) as nat,
                cached: Some(outcomes[decisive]),
            }),
{
    let start = LoaderState::<H, E>::fresh(order);
    assert forall|j: int| 0 <= j <= decisive implies (#[trigger] start.record_all(
        outcomes.take(j),
    )).pending() == Some(order[j]) by {
        lemma_failures_move_on(order, outcomes, j);
    }
    let settled = LoaderState::<H, E> {
        order,
        attempts: (decisive + 1) as nat,
        cached: Some(outcomes[decisive]),
    };
    assert forall|j: int| decisive < j <= outcomes.len() implies #[trigger] start.record_all(
        outcomes.take(j),
    ) == settled by {
        let first = outcomes.take(decisive + 1);
        let later = outcomes.subrange(decisive + 1, j);
        lemma_failures_move_on(order, outcomes, decisive);
        assert(first.drop_last() == outcomes.take(decisive));
        assert(first.last() == outcomes[decisive]);
        assert(start.record_all(first) == settled);
        lemma_record_all_in_two_parts(start, first, later);
        law_cached_result_is_final(settled, later);
        assert(first + later == outcomes.take(j));
    }
}

/// Reporting one run of outcomes and then another is reporting both in one go.
proof fn lemma_record_all_in_two_parts<H, E>(
    state: LoaderState<H, E>,
    first: Seq<Result<H, E>>,
    second: Seq<Result<H, E>>,
)
    ensures
        state.record_all(first + second) == state.record_all(first).record_all(second),
    decreases second.len(),
{
    if second.len() == 0 {
        assert(first + second == first);
    } else {
        lemma_record_all_in_two_parts(state, first, second.drop_last());
        assert((first + second).drop_last() == first + second.drop_last());
        assert((first + second).last() == second.last());
    }
}

/// The first success wins. Where the attempts on the paths before index
/// `winner` fail and the one at `winner` succeeds, that success is cached after
/// `winner + 1` attempts, and the paths behind `winner` are never attempted:
/// from then on no path is pending.
pub proof fn law_first_success_wins<H, E>(
    order: Seq<Seq<char>>,
    outcomes: Seq<Result<H, E>>,
    winner: int,
)
    requires
        0 <= winner < order.len(),
        winner < outcomes.len(),
        forall|i: int| 0 <= i < winner ==> outcomes[i] is Err,
        outcomes[winner] is Ok,
    ensures
        LoaderState::fresh(order).record_all(outcomes).cached == Some(outcomes[winner]),
        LoaderState::fresh(order).record_all(outcomes).attempts == winner + 1,
        LoaderState::fresh(order).record_all(outcomes).pending() is None,
        LoaderState::fresh(order).record_all(outcomes.take(winner)).pending() == Some(
            order[winner],
        ),
        LoaderState::fresh(order).record_all(outcomes.take(winner + 1)).pending() is None,
{
    law_search_ends_at_decisive_attempt(order, outcomes, winner);
    assert(outcomes.take(outcomes.len() as int) == outcomes);
    let start = LoaderState::<H, E>::fresh(order);
    assert(start.record_all(outcomes.take(outcomes.len() as int)).attempts == winner + 1);
    assert(start.record_all(outcomes.take(winner + 1)).attempts == winner + 1);
    assert(start.record_all(outcomes.take(winner)).pending() == Some(order[winner]));
}

/// Where every candidate of an override value fails, the search falls back
/// to the platform's default path: each candidate is attempted once, in order,
/// then the default path is attempted, once, and its outcome is cached,
/// success or failure.
pub proof fn law_exhausted_override_falls_back<H, E>(
    value: Seq<char>,
    platform: Platform,
    outcomes: Seq<Result<H, E>>,
)
    requires
        outcomes.len() == split_on(value, PATH_SEPARATOR).len() + 1,
        forall|i: int| 0 <= i < outcomes.len() - 1 ==> outcomes[i] is Err,
    ensures
        ({
            let candidates = split_on(value, PATH_SEPARATOR);
            let start = LoaderState::<H, E>::fresh(search_order(Some(value), platform));
            &&& forall|j: int|
                0 <= j < candidates.len() ==> (#[trigger] start.record_all(
                    outcomes.take(j),
                )).pending() == Some(candidates[j])
            &&& start.record_all(outcomes.drop_last()).pending() == Some(default_path(platform))
            &&& start.record_all(outcomes).cached == Some(outcomes.last())
            &&& start.record_all(outcomes).attempts == candidates.len() + 1
            &&& start.record_all(outcomes).pending() is None
        }),
{
    let candidates = split_on(value, PATH_SEPARATOR);
    let order = search_order(Some(value), platform);
    let start = LoaderState::<H, E>::fresh(order);
    let last = candidates.len() as int;
    law_search_ends_at_decisive_attempt(order, outcomes, last);
    assert(outcomes.take(outcomes.len() as int) == outcomes);
    assert(outcomes.take(last) == outcomes.drop_last());
    assert(start.record_all(outcomes.take(outcomes.len() as int)).attempts == last + 1);
    assert(start.record_all(outcomes.take(last)).pending() == Some(order[last]));
    assert forall|j: int| 0 <= j < candidates.len() implies (#[trigger] start.record_all(
        outcomes.take(j),
    )).pending() == Some(candidates[j]) by {
        assert(order[j] == candidates[j]);
    }
}

/// Without an override, only the platform's default path is attempted: it is
/// the first path pending, and whatever the attempt brings is cached and ends
/// the search after this one attempt.
pub proof fn law_no_override_tries_default_only<H, E>(platform: Platform, outcome: Result<H, E>)
    ensures
        ({
            let start = LoaderState::<H, E>::fresh(search_order(None, platform));
            &&& start.pending() == Some(default_path(platform))
            &&& start.record(outcome).cached == Some(outcome)
            &&& start.record(outcome).attempts == 1
            &&& start.record(outcome).pending() is None
        }),
{
}

/// Reporting an outcome leaves a well-formed state well-formed, and never
/// changes the order of the paths.
pub proof fn law_record_keeps_well_formed<H, E>(state: LoaderState<H, E>, outcome: Result<H, E>)
    requires
        state.wf(),
    ensures
        state.record(outcome).wf(),
        state.record(outcome).order == state.order,
{
}

/// A search can start on every order that holds a path: the fresh state is
/// well-formed, and the first path of the order is pending.
pub proof fn law_fresh_state_is_well_formed<H, E>(order: Seq<Seq<char>>)
    requires
        order.len() >= 1,
    ensures
        LoaderState::<H, E>::fresh(order).wf(),
        LoaderState::<H, E>::fresh(order).pending() == Some(order[0]),
{
}

} // verus!
