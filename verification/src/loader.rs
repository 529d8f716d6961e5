//! The loader: it names the path to attempt next, takes the outcome of each
//! attempt, and keeps the outcome that decides the search for good.

use crate::platform::Platform;
use crate::search::{override_view, search_order, search_paths};
use vstd::prelude::*;

verus! {

/// What a loader is, for the purpose of its contracts.
pub struct LoaderState<H, E> {
    /// The paths to try, in order. The last one is the platform's default path.
    pub order: Seq<Seq<char>>,
    /// The number of load attempts that were made and reported so far.
    pub attempts: nat,
    /// The cached result: `None` while the search is still going on.
    pub cached: Option<Result<H, E>>,
}

impl<H, E> LoaderState<H, E> {
    /// A loader takes only states in which the search is behind the end of the
    /// order exactly when a failure is cached, and a cached result always stems
    /// from an attempt.
    pub open spec fn wf(self) -> bool {
        &&& self.order.len() >= 1
        &&& match self.cached {
            None => self.attempts < self.order.len(),
            Some(Ok(_)) => 1 <= self.attempts <= self.order.len(),
            Some(Err(_)) => self.attempts == self.order.len(),
        }
    }

    /// The state in which nothing was attempted yet.
    pub open spec fn fresh(order: Seq<Seq<char>>) -> Self {
        LoaderState { order, attempts: 0, cached: None }
    }

    /// The path that is to be attempted next, if the search is still going on.
    pub open spec fn pending(self) -> Option<Seq<char>> {
        if self.cached is None && self.attempts < self.order.len() {
            Some(self.order[self.attempts as int])
        } else {
            None
        }
    }

    /// Whether `outcome`, coming from the pending attempt, ends the search: a
    /// success always does, a failure only on the last path.
    pub open spec fn settles(self, outcome: Result<H, E>) -> bool {
        outcome is Ok || self.attempts + 1 == self.order.len()
    }

    /// The state after the outcome of the pending attempt was reported. Once a
    /// result is cached, a report changes nothing.
    pub open spec fn record(self, outcome: Result<H, E>) -> Self {
        if self.cached is Some {
            self
        } else {
            LoaderState {
                order: self.order,
                attempts: self.attempts + 1,
                cached: if self.settles(outcome) {
                    Some(outcome)
                } else {
                    None
                },
            }
        }
    }

    /// The state after the outcomes were reported one after the other.
    pub open spec fn record_all(self, outcomes: Seq<Result<H, E>>) -> Self
        decreases outcomes.len(),
    {
        if outcomes.len() == 0 {
            self
        } else {
            self.record_all(outcomes.drop_last()).record(outcomes.last())
        }
    }
}

/// Whether `outcome` is what a call of `load` on `path` returned.
pub open spec fn loaded_from<H, E, L: Fn(&str) -> Result<H, E>>(
    load: L,
    path: Seq<char>,
    outcome: Result<H, E>,
) -> bool {
    exists|name: &str| name@ == path && #[trigger] load.ensures((name,), outcome)
}

/// Whether `outcomes` are what `load` returned on the paths that come up
/// from `state` on, one path after the other.
pub open spec fn came_from<H, E, L: Fn(&str) -> Result<H, E>>(
    load: L,
    state: LoaderState<H, E>,
    outcomes: Seq<Result<H, E>>,
) -> bool {
    forall|i: int|
        0 <= i < outcomes.len() ==> loaded_from(
            load,
            state.order[state.attempts + i],
            #[trigger] outcomes[i],
        )
}

/// Reports change neither the paths nor their order.
pub proof fn lemma_record_all_keeps_order<H, E>(
    state: LoaderState<H, E>,
    outcomes: Seq<Result<H, E>>,
)
    ensures
        state.record_all(outcomes).order == state.order,
    decreases outcomes.len(),
{
    if outcomes.len() > 0 {
        lemma_record_all_keeps_order(state, outcomes.drop_last());
    }
}

/// How far a search has come.
enum Progress<H, E> {
    /// The search goes on with the path at index `next` of the order.
    Searching { next: usize },
    /// The search ended after `tried` attempts, with `result`.
    Settled { tried: usize, result: Result<H, E> },
}

/// Finds the runtime library: it names one path after the other, is told how
/// the attempt to load each went, and caches the first success, or else the
/// failure on the platform's default path.
///
/// `H` is the handle to a loaded library, `E` the cause of a failed attempt.
pub struct RuntimeLoader<H, E> {
    order: Vec<String>,
    progress: Progress<H, E>,
}

/// What a caller of [`load_library`] has to do next.
pub enum Step<'a, H, E> {
    /// Nothing is cached yet: the library at this path is to be loaded, and the
    /// outcome reported with [`RuntimeLoader::record_attempt`].
    Attempt(&'a str),
    /// The search is over. This is its result, and it stays the result.
    Ready(&'a Result<H, E>),
}

impl<H, E> View for RuntimeLoader<H, E> {
    type V = LoaderState<H, E>;

    closed spec fn view(&self) -> LoaderState<H, E> {
        match self.progress {
            Progress::Searching { next } => LoaderState {
                order: self.order.deep_view(),
                attempts: next as nat,
                cached: None,
            },
            Progress::Settled { tried, result } => LoaderState {
                order: self.order.deep_view(),
                attempts: tried as nat,
                cached: Some(result),
            },
        }
    }
}

impl<H, E> RuntimeLoader<H, E> {
    #[verifier::type_invariant]
    spec fn well_formed(self) -> bool {
        self@.wf()
    }

    /// A loader that has attempted nothing yet. It will go through the
    /// candidates of the override value, if one is set, and then try the
    /// default path of `platform`.
    pub fn new(override_value: Option<&str>, platform: Platform) -> (loader: Self)
        ensures
            loader@ == LoaderState::<H, E>::fresh(
                search_order(override_view(override_value), platform),
            ),
            loader@.wf(),
    {
        let order = search_paths(override_value, platform);
        RuntimeLoader { order, progress: Progress::Searching { next: 0 } }
    }

    /// Takes the outcome of the attempt on the pending path. A success ends
    /// the search, and so does any outcome on the last path; a failure before
    /// that is dropped, and the next path becomes pending. Once a result is
    /// cached, `outcome` is dropped and nothing changes.
    pub fn record_attempt(&mut self, outcome: Result<H, E>)
        ensures
            final(self)@ == old(self)@.record(outcome),
            final(self)@.wf(),
    {
        proof {
            use_type_invariant(&*self);
        }
        if let Progress::Searching { next } = self.progress {
            assert(next < self.order.len()) by {
                assert(self@.attempts < self@.order.len());
                assert(self.order.deep_view().len() == self.order.len());
            }
            let tried: usize = next + 1;
            if outcome.is_ok() || tried == self.order.len() {
                self.progress = Progress::Settled { tried, result: outcome };
            } else {
                self.progress = Progress::Searching { next: tried };
            }
        }
    }

    /// Runs the search to its end: as long as a path is pending, `load` is
    /// called on it and what it returns is reported. In the end a result is
    /// cached: the state is the one that the outcomes of these calls lead to,
    /// reported in the order of the paths. Where a result is cached already,
    /// `load` is not called.
    pub fn resolve_with<L>(&mut self, load: L) where L: Fn(&str) -> Result<H, E>
        requires
            forall|path: &str| load.requires((path,)),
        ensures
            final(self)@.wf(),
            final(self)@.cached is Some,
            old(self)@.cached is Some ==> final(self)@ == old(self)@,
            exists|outcomes: Seq<Result<H, E>>|
                {
                    &&& final(self)@ == #[trigger] old(self)@.record_all(outcomes)
                    &&& outcomes.len() == final(self)@.attempts - old(self)@.attempts
                    &&& came_from(load, old(self)@, outcomes)
                },
    {
        proof {
            use_type_invariant(&*self);
        }
        let ghost start = self@;
        let ghost outcomes = Seq::<Result<H, E>>::empty();
        loop
            invariant
                forall|path: &str| load.requires((path,)),
                start.wf(),
                self@.wf(),
                self@ == start.record_all(outcomes),
                outcomes.len() == self@.attempts - start.attempts,
                came_from(load, start, outcomes),
                start.cached is Some ==> self@ == start,
            ensures
                self@.cached is Some,
            decreases self@.order.len() - self@.attempts,
        {
            let pending: Option<String> = match load_library(self) {
                Step::Attempt(path) => Some(path.to_owned()),
                Step::Ready(_) => None,
            };
            match pending {
                Some(path) => {
                    let ghost before = self@;
                    let name: &str = path.as_str();
                    let outcome = load(name);
                    self.record_attempt(outcome);
                    proof {
                        let longer = outcomes.push(outcome);
                        assert(longer.drop_last() == outcomes);
                        assert(longer.last() == outcome);
                        assert(before.order == start.order) by {
                            lemma_record_all_keeps_order(start, outcomes);
                        }
                        assert(loaded_from(
                            load,
                            start.order[start.attempts + outcomes.len() as int],
                            outcome,
                        )) by {
                            assert(name@ == before.order[before.attempts as int]);
                            assert(load.ensures((name,), outcome));
                        }
                        outcomes = longer;
                    }
                },
                None => {
                    break ;
                },
            }
        }
    }

    /// The number of load attempts that were reported so far.
    pub fn attempts(&self) -> (count: usize)
        ensures
            count == self@.attempts,
    {
        match self.progress {
            Progress::Searching { next } => next,
            Progress::Settled { tried, .. } => tried,
        }
    }
}

/// Says what is to be done to have the runtime library: while nothing is
/// cached, the path to attempt next; from then on, the cached result, which
/// may be a failure, without any new attempt.
pub fn load_library<H, E>(loader: &RuntimeLoader<H, E>) -> (step: Step<'_, H, E>)
    ensures
        loader@.wf(),
        match step {
            Step::Attempt(path) => loader@.pending() == Some(path@),
            Step::Ready(result) => loader@.cached == Some(*result),
        },
{
    proof {
        use_type_invariant(loader);
    }
    match &loader.progress {
        Progress::Searching { next } => Step::Attempt(loader.order[*next].as_str()),
        Progress::Settled { result, .. } => Step::Ready(result),
    }
}

/// Whether the runtime library is loaded: `true` exactly if a result is cached
/// and it is a success.
pub fn is_opencl_runtime_available<H, E>(loader: &RuntimeLoader<H, E>) -> (available: bool)
    ensures
        available == (loader@.cached matches Some(Ok(_))),
{
    match load_library(loader) {
        Step::Ready(result) => result.is_ok(),
        Step::Attempt(_) => false,
    }
}

} // verus!
