use vstd::prelude::*;
use crate::mutator::{arbitrary_values, Mutator};

verus! {

/// A mutator over `Box<T>` that passes every operation to a mutator over `T`.
pub struct BoxMutator<M> {
    pub mutator: M,
}

impl<M> BoxMutator<M> {
    pub fn new(mutator: M) -> (r: Self)
        ensures
            r.mutator == mutator,
    {
        BoxMutator { mutator }
    }
}

impl<T, M: Mutator<T>> Mutator<Box<T>> for BoxMutator<M> {
    type Cache = M::Cache;
    type MutationStep = M::MutationStep;
    type ArbitraryStep = M::ArbitraryStep;
    type UnmutateToken = M::UnmutateToken;

    open spec fn wf(&self) -> bool {
        self.mutator.wf()
    }

    open spec fn accepts(&self, v: Box<T>) -> bool {
        self.mutator.accepts(*v)
    }

    open spec fn cache_of(&self, v: Box<T>) -> M::Cache {
        self.mutator.cache_of(*v)
    }

    open spec fn cplx_of(&self, v: Box<T>) -> u64 {
        self.mutator.cplx_of(*v)
    }

    open spec fn min_cplx(&self) -> u64 {
        self.mutator.min_cplx()
    }

    open spec fn max_cplx(&self) -> u64 {
        self.mutator.max_cplx()
    }

    open spec fn undo(&self, v: Box<T>, c: M::Cache, t: M::UnmutateToken) -> (Box<T>, M::Cache) {
        let (x, c2) = self.mutator.undo(*v, c, t);
        (Box::new(x), c2)
    }

    open spec fn mutate_next(&self, v: Box<T>, step: M::MutationStep, max_cplx: u64) -> Option<
        (Box<T>, M::MutationStep),
    > {
        match self.mutator.mutate_next(*v, step, max_cplx) {
            None => None,
            Some((x, s)) => Some((Box::new(x), s)),
        }
    }

    open spec fn arbitrary_next(&self, step: M::ArbitraryStep, max_cplx: u64) -> Option<
        (Box<T>, M::ArbitraryStep),
    > {
        match self.mutator.arbitrary_next(step, max_cplx) {
            None => None,
            Some((x, s)) => Some((Box::new(x), s)),
        }
    }

    open spec fn initial_arbitrary_step(&self) -> M::ArbitraryStep {
        self.mutator.initial_arbitrary_step()
    }

    open spec fn initial_mutation_step(&self, v: Box<T>) -> M::MutationStep {
        self.mutator.initial_mutation_step(*v)
    }

    proof fn lemma_cplx_bounds(&self, v: Box<T>) {
        self.mutator.lemma_cplx_bounds(*v);
    }

    fn default_arbitrary_step(&self) -> (r: M::ArbitraryStep) {
        self.mutator.default_arbitrary_step()
    }

    fn validate_value(&self, v: &Box<T>) -> (r: Option<M::Cache>) {
        self.mutator.validate_value(&**v)
    }

    fn default_mutation_step(&self, v: &Box<T>, c: &M::Cache) -> (r: M::MutationStep) {
        self.mutator.default_mutation_step(&**v, c)
    }

    fn max_complexity(&self) -> (r: u64) {
        self.mutator.max_complexity()
    }

    fn min_complexity(&self) -> (r: u64) {
        self.mutator.min_complexity()
    }

    fn complexity(&self, v: &Box<T>, c: &M::Cache) -> (r: u64) {
        self.mutator.complexity(&**v, c)
    }

    fn ordered_arbitrary(&self, step: &mut M::ArbitraryStep, max_cplx: u64) -> (r: Option<
        (Box<T>, u64),
    >) {
        match self.mutator.ordered_arbitrary(step, max_cplx) {
            None => None,
            Some((x, c)) => Some((Box::new(x), c)),
        }
    }

    fn random_arbitrary(&self, max_cplx: u64) -> (r: (Box<T>, u64)) {
        let (x, c) = self.mutator.random_arbitrary(max_cplx);
        (Box::new(x), c)
    }

    fn ordered_mutate(
        &self,
        v: &mut Box<T>,
        c: &mut M::Cache,
        step: &mut M::MutationStep,
        max_cplx: u64,
    ) -> (r: Option<(M::UnmutateToken, u64)>) {
        self.mutator.ordered_mutate(&mut **v, c, step, max_cplx)
    }

    fn random_mutate(&self, v: &mut Box<T>, c: &mut M::Cache, max_cplx: u64) -> (r: (
        M::UnmutateToken,
        u64,
    )) {
        self.mutator.random_mutate(&mut **v, c, max_cplx)
    }

    fn unmutate(&self, v: &mut Box<T>, c: &mut M::Cache, t: M::UnmutateToken) {
        self.mutator.unmutate(&mut **v, c, t)
    }
}

/// A boxed mutator is the mutator it holds.
impl<T, M: Mutator<T>> Mutator<T> for Box<M> {
    type Cache = M::Cache;
    type MutationStep = M::MutationStep;
    type ArbitraryStep = M::ArbitraryStep;
    type UnmutateToken = M::UnmutateToken;

    open spec fn wf(&self) -> bool {
        (**self).wf()
    }

    open spec fn accepts(&self, v: T) -> bool {
        (**self).accepts(v)
    }

    open spec fn cache_of(&self, v: T) -> M::Cache {
        (**self).cache_of(v)
    }

    open spec fn cplx_of(&self, v: T) -> u64 {
        (**self).cplx_of(v)
    }

    open spec fn min_cplx(&self) -> u64 {
        (**self).min_cplx()
    }

    open spec fn max_cplx(&self) -> u64 {
        (**self).max_cplx()
    }

    open spec fn undo(&self, v: T, c: M::Cache, t: M::UnmutateToken) -> (T, M::Cache) {
        (**self).undo(v, c, t)
    }

    open spec fn mutate_next(&self, v: T, step: M::MutationStep, max_cplx: u64) -> Option<
        (T, M::MutationStep),
    > {
        (**self).mutate_next(v, step, max_cplx)
    }

    open spec fn arbitrary_next(&self, step: M::ArbitraryStep, max_cplx: u64) -> Option<
        (T, M::ArbitraryStep),
    > {
        (**self).arbitrary_next(step, max_cplx)
    }

    open spec fn initial_arbitrary_step(&self) -> M::ArbitraryStep {
        (**self).initial_arbitrary_step()
    }

    open spec fn initial_mutation_step(&self, v: T) -> M::MutationStep {
        (**self).initial_mutation_step(v)
    }

    proof fn lemma_cplx_bounds(&self, v: T) {
        (**self).lemma_cplx_bounds(v);
    }

    fn default_arbitrary_step(&self) -> (r: M::ArbitraryStep) {
        (**self).default_arbitrary_step()
    }

    fn validate_value(&self, v: &T) -> (r: Option<M::Cache>) {
        (**self).validate_value(v)
    }

    fn default_mutation_step(&self, v: &T, c: &M::Cache) -> (r: M::MutationStep) {
        (**self).default_mutation_step(v, c)
    }

    fn max_complexity(&self) -> (r: u64) {
        (**self).max_complexity()
    }

    fn min_complexity(&self) -> (r: u64) {
        (**self).min_complexity()
    }

    fn complexity(&self, v: &T, c: &M::Cache) -> (r: u64) {
        (**self).complexity(v, c)
    }

    fn ordered_arbitrary(&self, step: &mut M::ArbitraryStep, max_cplx: u64) -> (r: Option<(T, u64)>) {
        (**self).ordered_arbitrary(step, max_cplx)
    }

    fn random_arbitrary(&self, max_cplx: u64) -> (r: (T, u64)) {
        (**self).random_arbitrary(max_cplx)
    }

    fn ordered_mutate(
        &self,
        v: &mut T,
        c: &mut M::Cache,
        step: &mut M::MutationStep,
        max_cplx: u64,
    ) -> (r: Option<(M::UnmutateToken, u64)>) {
        (**self).ordered_mutate(v, c, step, max_cplx)
    }

    fn random_mutate(&self, v: &mut T, c: &mut M::Cache, max_cplx: u64) -> (r: (
        M::UnmutateToken,
        u64,
    )) {
        (**self).random_mutate(v, c, max_cplx)
    }

    fn unmutate(&self, v: &mut T, c: &mut M::Cache, t: M::UnmutateToken) {
        (**self).unmutate(v, c, t)
    }
}

/// Ordered generation through a box mutator gives the inner mutator's
/// values, boxed, from the inner mutator's first step: where the inner
/// values are pairwise distinct, so are the boxed ones, and there are as many.
pub proof fn law_box_arbitrary_values<T, M: Mutator<T>>(
    bm: BoxMutator<M>,
    step: M::ArbitraryStep,
    max_cplx: u64,
    n: nat,
)
    ensures
        bm.initial_arbitrary_step() == bm.mutator.initial_arbitrary_step(),
        arbitrary_values(bm, step, max_cplx, n) == arbitrary_values(bm.mutator, step, max_cplx, n).map_values(
            |x: T| Box::new(x),
        ),
        arbitrary_values(bm.mutator, step, max_cplx, n).no_duplicates() ==> arbitrary_values(
            bm,
            step,
            max_cplx,
            n,
        ).no_duplicates(),
    decreases n,
{
    if n > 0 {
        match bm.mutator.arbitrary_next(step, max_cplx) {
            None => {
                assert(arbitrary_values(bm.mutator, step, max_cplx, n).map_values(|x: T| Box::new(x))
                    =~= Seq::<Box<T>>::empty());
            },
            Some((x, s)) => {
                law_box_arbitrary_values(bm, s, max_cplx, (n - 1) as nat);
                assert(arbitrary_values(bm, step, max_cplx, n) =~= arbitrary_values(
                    bm.mutator,
                    step,
                    max_cplx,
                    n,
                ).map_values(|x: T| Box::new(x)));
            },
        }
    }
    let inner = arbitrary_values(bm.mutator, step, max_cplx, n);
    let outer = arbitrary_values(bm, step, max_cplx, n);
    if inner.no_duplicates() {
        assert forall|i: int, j: int| 0 <= i < outer.len() && 0 <= j < outer.len() && i != j implies outer[i]
            != outer[j] by {
            assert(inner[i] != inner[j]);
        }
    }
}

} // verus!
