use vstd::prelude::*;
use std::rc::Rc;
use crate::mutator::{arbitrary_values, Mutator, UNBOUNDED_COMPLEXITY};

verus! {

/// The arbitrary step of a mutator reached through a point of recursion: it
/// is built on first use, so that building the outer step does not recurse.
pub enum RecursingArbitraryStep<AS> {
    Default,
    Initialized(AS),
}

/// Ordered generation at a point of recursion, once the recursive mutator
/// `m` has been reached: a `Default` step is first replaced by `m`'s initial
/// step, then the call is passed on to `m`. The step is `Initialized`
/// afterwards, whatever the result.
pub fn recursing_ordered_arbitrary<T, M: Mutator<T>>(
    m: &M,
    step: &mut RecursingArbitraryStep<M::ArbitraryStep>,
    max_cplx: u64,
) -> (r: Option<(T, u64)>)
    requires
        m.wf(),
    ensures
        ({
            let s0 = match *old(step) {
                RecursingArbitraryStep::Default => m.initial_arbitrary_step(),
                RecursingArbitraryStep::Initialized(s) => s,
            };
            match m.arbitrary_next(s0, max_cplx) {
                None => r is None && *final(step) == RecursingArbitraryStep::Initialized(s0),
                Some((v, s)) => r == Some((v, m.cplx_of(v))) && *final(step)
                    == RecursingArbitraryStep::<M::ArbitraryStep>::Initialized(s),
            }
        }),
{
    match step {
        RecursingArbitraryStep::Default => {
            let mut inner_step = m.default_arbitrary_step();
            let result = m.ordered_arbitrary(&mut inner_step, max_cplx);
            *step = RecursingArbitraryStep::Initialized(inner_step);
            result
        },
        RecursingArbitraryStep::Initialized(inner_step) => m.ordered_arbitrary(inner_step, max_cplx),
    }
}

impl<AS> Default for RecursingArbitraryStep<AS> {
    fn default() -> (r: Self)
        ensures
            r is Default,
    {
        RecursingArbitraryStep::Default
    }
}

/// A mutator that holds its inner mutator behind a shared pointer and
/// passes every call to it, with no upper bound on complexity.
///
/// A recursive mutator has points of recursion that reach back to this
/// shared mutator through weak references. The library holds no weak
/// reference: the points of recursion look the shared mutator up outside it
/// and then generate through `recursing_ordered_arbitrary`.
pub struct RecursiveMutator<M> {
    pub mutator: Rc<M>,
}

impl<M> RecursiveMutator<M> {
    /// Wraps a shared mutator.
    pub fn new(mutator: Rc<M>) -> (r: Self)
        ensures
            r.mutator == mutator,
    {
        RecursiveMutator { mutator }
    }
}

impl<T, M: Mutator<T>> Mutator<T> for RecursiveMutator<M> {
    type Cache = M::Cache;
    type MutationStep = M::MutationStep;
    type ArbitraryStep = M::ArbitraryStep;
    type UnmutateToken = M::UnmutateToken;

    open spec fn wf(&self) -> bool {
        (*self.mutator).wf()
    }

    open spec fn accepts(&self, v: T) -> bool {
        (*self.mutator).accepts(v)
    }

    open spec fn cache_of(&self, v: T) -> M::Cache {
        (*self.mutator).cache_of(v)
    }

    open spec fn cplx_of(&self, v: T) -> u64 {
        (*self.mutator).cplx_of(v)
    }

    open spec fn min_cplx(&self) -> u64 {
        (*self.mutator).min_cplx()
    }

    open spec fn max_cplx(&self) -> u64 {
        UNBOUNDED_COMPLEXITY
    }

    open spec fn undo(&self, v: T, c: M::Cache, t: M::UnmutateToken) -> (T, M::Cache) {
        (*self.mutator).undo(v, c, t)
    }

    open spec fn mutate_next(&self, v: T, step: M::MutationStep, max_cplx: u64) -> Option<
        (T, M::MutationStep),
    > {
        (*self.mutator).mutate_next(v, step, max_cplx)
    }

    open spec fn arbitrary_next(&self, step: M::ArbitraryStep, max_cplx: u64) -> Option<
        (T, M::ArbitraryStep),
    > {
        (*self.mutator).arbitrary_next(step, max_cplx)
    }

    open spec fn initial_arbitrary_step(&self) -> M::ArbitraryStep {
        (*self.mutator).initial_arbitrary_step()
    }

    open spec fn initial_mutation_step(&self, v: T) -> M::MutationStep {
        (*self.mutator).initial_mutation_step(v)
    }

    proof fn lemma_cplx_bounds(&self, v: T) {
        (*self.mutator).lemma_cplx_bounds(v);
    }

    fn default_arbitrary_step(&self) -> (r: M::ArbitraryStep) {
        (*self.mutator).default_arbitrary_step()
    }

    fn validate_value(&self, v: &T) -> (r: Option<M::Cache>) {
        (*self.mutator).validate_value(v)
    }

    fn default_mutation_step(&self, v: &T, c: &M::Cache) -> (r: M::MutationStep) {
        (*self.mutator).default_mutation_step(v, c)
    }

    fn max_complexity(&self) -> (r: u64) {
        UNBOUNDED_COMPLEXITY
    }

    fn min_complexity(&self) -> (r: u64) {
        (*self.mutator).min_complexity()
    }

    fn complexity(&self, v: &T, c: &M::Cache) -> (r: u64) {
        (*self.mutator).complexity(v, c)
    }

    fn ordered_arbitrary(&self, step: &mut M::ArbitraryStep, max_cplx: u64) -> (r: Option<
        (T, u64),
    >) {
        (*self.mutator).ordered_arbitrary(step, max_cplx)
    }

    fn random_arbitrary(&self, max_cplx: u64) -> (r: (T, u64)) {
        (*self.mutator).random_arbitrary(max_cplx)
    }

    fn ordered_mutate(
        &self,
        v: &mut T,
        c: &mut M::Cache,
        step: &mut M::MutationStep,
        max_cplx: u64,
    ) -> (r: Option<(M::UnmutateToken, u64)>) {
        (*self.mutator).ordered_mutate(v, c, step, max_cplx)
    }

    fn random_mutate(&self, v: &mut T, c: &mut M::Cache, max_cplx: u64) -> (r: (
        M::UnmutateToken,
        u64,
    )) {
        (*self.mutator).random_mutate(v, c, max_cplx)
    }

    fn unmutate(&self, v: &mut T, c: &mut M::Cache, t: M::UnmutateToken) {
        (*self.mutator).unmutate(v, c, t)
    }
}

/// Ordered generation through a recursive mutator gives exactly the shared
/// mutator's values, from the shared mutator's first step; so it repeats no
/// value and ends where the shared mutator's does.
pub proof fn law_recursive_arbitrary_values<T, M: Mutator<T>>(
    rm: RecursiveMutator<M>,
    step: M::ArbitraryStep,
    max_cplx: u64,
    n: nat,
)
    ensures
        rm.initial_arbitrary_step() == (*rm.mutator).initial_arbitrary_step(),
        arbitrary_values(rm, step, max_cplx, n) == arbitrary_values(*rm.mutator, step, max_cplx, n),
    decreases n,
{
    if n > 0 {
        if let Some((x, s)) = (*rm.mutator).arbitrary_next(step, max_cplx) {
            law_recursive_arbitrary_values(rm, s, max_cplx, (n - 1) as nat);
        }
    }
}

} // verus!
