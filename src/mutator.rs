use vstd::prelude::*;

verus! {

/// Complexities are fixed-point numbers with four decimal places: this value
/// stands for a complexity of one.
pub const COMPLEXITY_UNIT: u64 = 10000;

/// A complexity with no upper bound.
pub const UNBOUNDED_COMPLEXITY: u64 = 0xffff_ffff_ffff_ffff;

/// `a + b`, or the unbounded complexity where the sum does not fit.
pub open spec fn cplx_add(a: u64, b: u64) -> u64 {
    if a + b > UNBOUNDED_COMPLEXITY {
        UNBOUNDED_COMPLEXITY
    } else {
        (a + b) as u64
    }
}

/// `a - b`, or zero where `b` is larger.
pub open spec fn cplx_sub(a: u64, b: u64) -> u64 {
    if a < b {
        0
    } else {
        (a - b) as u64
    }
}

/// A mutator generates values of type `V` and mutates them in place,
/// each mutation reversible through the token it hands back.
///
/// Each value comes with a cache that the mutator computes from it; a
/// mutation step records, per value, which mutations were tried; an
/// arbitrary step records which values were generated.
///
/// Lens paths into sub-values, crossover with sub-values of other inputs and
/// an estimate of the size of the whole search space are not part of this
/// trait: the first two hand out type-erased values (`dyn Any` keyed by
/// `TypeId`), the last is a floating-point estimate.
pub trait Mutator<V>: Sized {
    type Cache;
    type MutationStep;
    type ArbitraryStep;
    type UnmutateToken;

    /// The mutator's own invariant.
    spec fn wf(&self) -> bool;

    /// The values in the mutator's domain.
    spec fn accepts(&self, v: V) -> bool;

    /// The cache of a value of the domain.
    spec fn cache_of(&self, v: V) -> Self::Cache;

    /// The complexity of a value of the domain.
    spec fn cplx_of(&self, v: V) -> u64;

    spec fn min_cplx(&self) -> u64;

    spec fn max_cplx(&self) -> u64;

    /// The value and cache that undoing the mutation described by `t` gives back.
    spec fn undo(&self, v: V, c: Self::Cache, t: Self::UnmutateToken) -> (V, Self::Cache);

    /// What ordered mutation of `v` from `step` within `max_cplx` gives: the
    /// mutated value and the next step, or `None` once nothing is left to try.
    spec fn mutate_next(&self, v: V, step: Self::MutationStep, max_cplx: u64) -> Option<
        (V, Self::MutationStep),
    >;

    /// What ordered generation from `step` within `max_cplx` gives: the value
    /// and the next step, or `None` once nothing is left to give.
    spec fn arbitrary_next(&self, step: Self::ArbitraryStep, max_cplx: u64) -> Option<
        (V, Self::ArbitraryStep),
    >;

    /// The step from which ordered generation starts.
    spec fn initial_arbitrary_step(&self) -> Self::ArbitraryStep;

    /// The step from which ordered mutation of `v` starts.
    spec fn initial_mutation_step(&self, v: V) -> Self::MutationStep;

    /// Every value of the domain lies within the mutator's complexity bounds.
    proof fn lemma_cplx_bounds(&self, v: V)
        requires
            self.wf(),
            self.accepts(v),
        ensures
            self.min_cplx() <= self.cplx_of(v) <= self.max_cplx(),
    ;

    /// The first step for ordered generation.
    fn default_arbitrary_step(&self) -> (r: Self::ArbitraryStep)
        requires
            self.wf(),
        ensures
            r == self.initial_arbitrary_step(),
    ;

    /// The cache of `v` if `v` lies in the domain.
    fn validate_value(&self, v: &V) -> (r: Option<Self::Cache>)
        requires
            self.wf(),
        ensures
            r == if self.accepts(*v) {
                Some(self.cache_of(*v))
            } else {
                None
            },
    ;

    /// The first step for ordered mutation of `v`.
    fn default_mutation_step(&self, v: &V, c: &Self::Cache) -> (r: Self::MutationStep)
        requires
            self.wf(),
            self.accepts(*v),
            *c == self.cache_of(*v),
        ensures
            r == self.initial_mutation_step(*v),
    ;

    fn max_complexity(&self) -> (r: u64)
        requires
            self.wf(),
        ensures
            r == self.max_cplx(),
    ;

    fn min_complexity(&self) -> (r: u64)
        requires
            self.wf(),
        ensures
            r == self.min_cplx(),
    ;

    /// The complexity of `v`, from its cache.
    fn complexity(&self, v: &V, c: &Self::Cache) -> (r: u64)
        requires
            self.wf(),
            self.accepts(*v),
            *c == self.cache_of(*v),
        ensures
            r == self.cplx_of(*v),
    ;

    /// The next value in the mutator's order, with its complexity; `None` when
    /// the order is exhausted or nothing fits within `max_cplx`, leaving the step
    /// as it was. Equal steps give equal values.
    fn ordered_arbitrary(&self, step: &mut Self::ArbitraryStep, max_cplx: u64) -> (r: Option<
        (V, u64),
    >)
        requires
            self.wf(),
        ensures
            match self.arbitrary_next(*old(step), max_cplx) {
                None => r is None && *final(step) == *old(step),
                Some((v, s)) => r == Some((v, self.cplx_of(v))) && *final(step) == s
                    && self.accepts(v),
            },
    ;

    /// A new value with its complexity; one of the least complexity where
    /// `max_cplx` is below it.
    fn random_arbitrary(&self, max_cplx: u64) -> (r: (V, u64))
        requires
            self.wf(),
        ensures
            self.accepts(r.0),
            r.1 == self.cplx_of(r.0),
            max_cplx < self.min_cplx() ==> r.1 == self.min_cplx(),
    ;

    /// The next mutation of `v` in the mutator's order; `None` when exhausted,
    /// leaving value, cache and step as they were, so that a call with the same
    /// step gives `None` again.
    fn ordered_mutate(
        &self,
        v: &mut V,
        c: &mut Self::Cache,
        step: &mut Self::MutationStep,
        max_cplx: u64,
    ) -> (r: Option<(Self::UnmutateToken, u64)>)
        requires
            self.wf(),
            self.accepts(*old(v)),
            *old(c) == self.cache_of(*old(v)),
        ensures
            match self.mutate_next(*old(v), *old(step), max_cplx) {
                None => r is None && *final(v) == *old(v) && *final(c) == *old(c) && *final(step)
                    == *old(step),
                Some((nv, s)) => r is Some && *final(v) == nv && *final(step) == s,
            },
            r matches Some((t, cplx)) ==> {
                &&& self.accepts(*final(v))
                &&& *final(c) == self.cache_of(*final(v))
                &&& cplx == self.cplx_of(*final(v))
                &&& self.undo(*final(v), *final(c), t) == (*old(v), *old(c))
            },
    ;

    /// A random mutation of `v`.
    fn random_mutate(&self, v: &mut V, c: &mut Self::Cache, max_cplx: u64) -> (r: (
        Self::UnmutateToken,
        u64,
    ))
        requires
            self.wf(),
            self.accepts(*old(v)),
            *old(c) == self.cache_of(*old(v)),
        ensures
            self.accepts(*final(v)),
            *final(c) == self.cache_of(*final(v)),
            r.1 == self.cplx_of(*final(v)),
            self.undo(*final(v), *final(c), r.0) == (*old(v), *old(c)),
    ;

    /// Undoes the mutation described by `t`.
    fn unmutate(&self, v: &mut V, c: &mut Self::Cache, t: Self::UnmutateToken)
        requires
            self.wf(),
        ensures
            (*final(v), *final(c)) == self.undo(*old(v), *old(c), t),
    ;
}

/// The values that up to `n` ordered generations from `step` within
/// `max_cplx` give, stopping at the first `None`.
pub open spec fn arbitrary_values<V, M: Mutator<V>>(
    m: M,
    step: M::ArbitraryStep,
    max_cplx: u64,
    n: nat,
) -> Seq<V>
    decreases n,
{
    if n == 0 {
        Seq::empty()
    } else {
        match m.arbitrary_next(step, max_cplx) {
            None => Seq::empty(),
            Some((v, s)) => seq![v] + arbitrary_values(m, s, max_cplx, (n - 1) as nat),
        }
    }
}

} // verus!
