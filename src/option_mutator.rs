use vstd::prelude::*;
use crate::mutator::{cplx_add, cplx_sub, Mutator, COMPLEXITY_UNIT, UNBOUNDED_COMPLEXITY};

verus! {

/// Where ordered mutation of an optional value stands.
pub enum OptionMutationStep<MS, AS> {
    /// For a `Some` value: whether the switch to `None` was tried, and the
    /// inner value's own step.
    ForSome { tried_none: bool, mutation: MS },
    /// For `None`: the inner mutator's generation step.
    ForNone { generation: AS },
}

/// Where ordered generation of optional values stands: `None` comes first,
/// then the inner mutator's values.
pub struct OptionArbitraryStep<AS> {
    pub none_done: bool,
    pub inner: AS,
}

/// How to undo a mutation of an optional value.
pub enum OptionUnmutateToken<T, C, IT> {
    /// The value was switched to `None`: put back this value and cache.
    ToSome(T, C),
    /// The value was switched from `None` to `Some`.
    ToNone,
    /// The inner value was mutated.
    Inner(IT),
}

/// A mutator over `Option<T>` built on a mutator over `T`. `None` has a
/// complexity of one; `Some(x)` one more than `x`.
pub struct OptionMutator<M> {
    mutator: M,
    rng: fastrand::Rng,
}

impl<M> OptionMutator<M> {
    /// The mutator of the inner values.
    pub closed spec fn inner(&self) -> M {
        self.mutator
    }

    pub fn new(mutator: M) -> (r: Self)
        ensures
            r.inner() == mutator,
    {
        OptionMutator { mutator, rng: fastrand::Rng::new() }
    }
}

fn add_cplx(a: u64, b: u64) -> (r: u64)
    ensures
        r == cplx_add(a, b),
{
    a.saturating_add(b)
}

fn sub_cplx(a: u64, b: u64) -> (r: u64)
    ensures
        r == cplx_sub(a, b),
{
    a.saturating_sub(b)
}

impl<T, M: Mutator<T>> Mutator<Option<T>> for OptionMutator<M> {
    type Cache = Option<M::Cache>;
    type MutationStep = OptionMutationStep<M::MutationStep, M::ArbitraryStep>;
    type ArbitraryStep = OptionArbitraryStep<M::ArbitraryStep>;
    type UnmutateToken = OptionUnmutateToken<T, M::Cache, M::UnmutateToken>;

    open spec fn wf(&self) -> bool {
        self.inner().wf()
    }

    open spec fn accepts(&self, v: Option<T>) -> bool {
        match v {
            None => true,
            Some(x) => self.inner().accepts(x),
        }
    }

    open spec fn cache_of(&self, v: Option<T>) -> Option<M::Cache> {
        match v {
            None => None,
            Some(x) => Some(self.inner().cache_of(x)),
        }
    }

    open spec fn cplx_of(&self, v: Option<T>) -> u64 {
        match v {
            None => COMPLEXITY_UNIT,
            Some(x) => cplx_add(COMPLEXITY_UNIT, self.inner().cplx_of(x)),
        }
    }

    open spec fn min_cplx(&self) -> u64 {
        COMPLEXITY_UNIT
    }

    open spec fn max_cplx(&self) -> u64 {
        cplx_add(COMPLEXITY_UNIT, self.inner().max_cplx())
    }

    open spec fn undo(&self, v: Option<T>, c: Option<M::Cache>, t: Self::UnmutateToken) -> (
        Option<T>,
        Option<M::Cache>,
    ) {
        match t {
            OptionUnmutateToken::ToSome(x, cx) => (Some(x), Some(cx)),
            OptionUnmutateToken::ToNone => (None, None),
            OptionUnmutateToken::Inner(it) => match (v, c) {
                (Some(x), Some(cx)) => {
                    let (x2, c2) = self.inner().undo(x, cx, it);
                    (Some(x2), Some(c2))
                },
                _ => (v, c),
            },
        }
    }

    open spec fn mutate_next(&self, v: Option<T>, step: Self::MutationStep, max_cplx: u64) -> Option<
        (Option<T>, Self::MutationStep),
    > {
        match (v, step) {
            (Some(x), OptionMutationStep::ForSome { tried_none, mutation: inner }) => {
                if !tried_none {
                    if max_cplx < COMPLEXITY_UNIT {
                        None
                    } else {
                        Some((None, OptionMutationStep::ForSome { tried_none: true, mutation: inner }))
                    }
                } else {
                    match self.inner().mutate_next(x, inner, cplx_sub(max_cplx, COMPLEXITY_UNIT)) {
                        None => None,
                        Some((x2, s2)) => Some(
                            (Some(x2), OptionMutationStep::ForSome { tried_none: true, mutation: s2 }),
                        ),
                    }
                }
            },
            (None, OptionMutationStep::ForNone { generation: inner }) => {
                match self.inner().arbitrary_next(inner, cplx_sub(max_cplx, COMPLEXITY_UNIT)) {
                    None => None,
                    Some((x, s2)) => Some((Some(x), OptionMutationStep::ForNone { generation: s2 })),
                }
            },
            _ => None,
        }
    }

    open spec fn arbitrary_next(&self, step: Self::ArbitraryStep, max_cplx: u64) -> Option<
        (Option<T>, Self::ArbitraryStep),
    > {
        if !step.none_done {
            if max_cplx < COMPLEXITY_UNIT {
                None
            } else {
                Some((None, OptionArbitraryStep { none_done: true, inner: step.inner }))
            }
        } else {
            match self.inner().arbitrary_next(step.inner, cplx_sub(max_cplx, COMPLEXITY_UNIT)) {
                None => None,
                Some((x, s2)) => Some((Some(x), OptionArbitraryStep { none_done: true, inner: s2 })),
            }
        }
    }

    open spec fn initial_arbitrary_step(&self) -> Self::ArbitraryStep {
        OptionArbitraryStep { none_done: false, inner: self.inner().initial_arbitrary_step() }
    }

    open spec fn initial_mutation_step(&self, v: Option<T>) -> Self::MutationStep {
        match v {
            Some(x) => OptionMutationStep::ForSome {
                tried_none: false,
                mutation: self.inner().initial_mutation_step(x),
            },
            None => OptionMutationStep::ForNone {
                generation: self.inner().initial_arbitrary_step(),
            },
        }
    }

    proof fn lemma_cplx_bounds(&self, v: Option<T>) {
        if let Some(x) = v {
            self.inner().lemma_cplx_bounds(x);
        }
    }

    fn default_arbitrary_step(&self) -> (r: Self::ArbitraryStep) {
        OptionArbitraryStep { none_done: false, inner: self.mutator.default_arbitrary_step() }
    }

    fn validate_value(&self, v: &Option<T>) -> (r: Option<Option<M::Cache>>) {
        match v {
            None => Some(None),
            Some(x) => match self.mutator.validate_value(x) {
                None => None,
                Some(c) => Some(Some(c)),
            },
        }
    }

    fn default_mutation_step(&self, v: &Option<T>, c: &Option<M::Cache>) -> (r: Self::MutationStep) {
        match v {
            Some(x) => match c {
                Some(cx) => OptionMutationStep::ForSome {
                    tried_none: false,
                    mutation: self.mutator.default_mutation_step(x, cx),
                },
                None => OptionMutationStep::ForNone { generation: self.mutator.default_arbitrary_step() },
            },
            None => OptionMutationStep::ForNone { generation: self.mutator.default_arbitrary_step() },
        }
    }

    fn max_complexity(&self) -> (r: u64) {
        add_cplx(COMPLEXITY_UNIT, self.mutator.max_complexity())
    }

    fn min_complexity(&self) -> (r: u64) {
        COMPLEXITY_UNIT
    }

    fn complexity(&self, v: &Option<T>, c: &Option<M::Cache>) -> (r: u64) {
        match v {
            None => COMPLEXITY_UNIT,
            Some(x) => match c {
                Some(cx) => add_cplx(COMPLEXITY_UNIT, self.mutator.complexity(x, cx)),
                None => COMPLEXITY_UNIT,
            },
        }
    }

    fn ordered_arbitrary(&self, step: &mut Self::ArbitraryStep, max_cplx: u64) -> (r: Option<
        (Option<T>, u64),
    >) {
        if !step.none_done {
            if max_cplx < COMPLEXITY_UNIT {
                None
            } else {
                step.none_done = true;
                Some((None, COMPLEXITY_UNIT))
            }
        } else {
            match self.mutator.ordered_arbitrary(&mut step.inner, sub_cplx(max_cplx, COMPLEXITY_UNIT)) {
                None => None,
                Some((x, cx)) => Some((Some(x), add_cplx(COMPLEXITY_UNIT, cx))),
            }
        }
    }

    fn random_arbitrary(&self, max_cplx: u64) -> (r: (Option<T>, u64)) {
        let pick_none = self.rng.bool();
        self.arbitrary_with(pick_none, max_cplx)
    }

    fn ordered_mutate(
        &self,
        v: &mut Option<T>,
        c: &mut Option<M::Cache>,
        step: &mut Self::MutationStep,
        max_cplx: u64,
    ) -> (r: Option<(Self::UnmutateToken, u64)>) {
        match step {
            OptionMutationStep::ForSome { tried_none, mutation: inner } => {
                if v.is_none() {
                    return None;
                }
                if !*tried_none {
                    if max_cplx < COMPLEXITY_UNIT {
                        return None;
                    }
                    *tried_none = true;
                    let x = v.take();
                    let cx = c.take();
                    match (x, cx) {
                        (Some(x), Some(cx)) => Some((OptionUnmutateToken::ToSome(x, cx), COMPLEXITY_UNIT)),
                        _ => vstd::pervasive::unreached(),
                    }
                } else {
                    match v {
                        Some(x) => match c {
                            Some(cx) => {
                                match self.mutator.ordered_mutate(
                                    x,
                                    cx,
                                    inner,
                                    sub_cplx(max_cplx, COMPLEXITY_UNIT),
                                ) {
                                    None => None,
                                    Some((t, cplx)) => Some(
                                        (OptionUnmutateToken::Inner(t), add_cplx(COMPLEXITY_UNIT, cplx)),
                                    ),
                                }
                            },
                            None => vstd::pervasive::unreached(),
                        },
                        None => vstd::pervasive::unreached(),
                    }
                }
            },
            OptionMutationStep::ForNone { generation: inner } => {
                if v.is_some() {
                    return None;
                }
                match self.mutator.ordered_arbitrary(inner, sub_cplx(max_cplx, COMPLEXITY_UNIT)) {
                    None => None,
                    Some((x, cplx)) => {
                        let cx = self.mutator.validate_value(&x);
                        match cx {
                            Some(cx) => {
                                *v = Some(x);
                                *c = Some(cx);
                                Some((OptionUnmutateToken::ToNone, add_cplx(COMPLEXITY_UNIT, cplx)))
                            },
                            None => vstd::pervasive::unreached(),
                        }
                    },
                }
            },
        }
    }

    fn random_mutate(&self, v: &mut Option<T>, c: &mut Option<M::Cache>, max_cplx: u64) -> (r: (
        Self::UnmutateToken,
        u64,
    )) {
        let to_none = self.rng.bool();
        self.mutate_with(v, c, to_none, max_cplx)
    }

    fn unmutate(&self, v: &mut Option<T>, c: &mut Option<M::Cache>, t: Self::UnmutateToken) {
        match t {
            OptionUnmutateToken::ToSome(x, cx) => {
                *v = Some(x);
                *c = Some(cx);
            },
            OptionUnmutateToken::ToNone => {
                *v = None;
                *c = None;
            },
            OptionUnmutateToken::Inner(it) => match v {
                Some(x) => match c {
                    Some(cx) => {
                        self.mutator.unmutate(x, cx, it);
                    },
                    None => {},
                },
                None => {},
            },
        }
    }
}

impl<M> OptionMutator<M> {
    /// A new value, `None` where `pick_none` is set or `max_cplx` leaves no
    /// room for more, else `Some` of an inner value drawn at random within
    /// the budget left; with its complexity.
    pub fn arbitrary_with<T>(&self, pick_none: bool, max_cplx: u64) -> (r: (Option<T>, u64)) where
        M: Mutator<T>,
        requires
            self.inner().wf(),
        ensures
            (r.0 is None) == (pick_none || max_cplx < COMPLEXITY_UNIT),
            self.accepts(r.0),
            r.1 == self.cplx_of(r.0),
    {
        if max_cplx < COMPLEXITY_UNIT || pick_none {
            (None, COMPLEXITY_UNIT)
        } else {
            let (x, cx) = self.mutator.random_arbitrary(sub_cplx(max_cplx, COMPLEXITY_UNIT));
            (Some(x), add_cplx(COMPLEXITY_UNIT, cx))
        }
    }

    /// A mutation of `v`: a `Some` value becomes `None` where `to_none` is
    /// set, else its inner value is mutated at random; `None` becomes `Some`
    /// of an inner value drawn at random. Undoing the token gives back the
    /// value and cache.
    pub fn mutate_with<T>(
        &self,
        v: &mut Option<T>,
        c: &mut Option<M::Cache>,
        to_none: bool,
        max_cplx: u64,
    ) -> (r: (OptionUnmutateToken<T, M::Cache, M::UnmutateToken>, u64)) where
        M: Mutator<T>,
        requires
            self.inner().wf(),
            self.accepts(*old(v)),
            *old(c) == self.cache_of(*old(v)),
        ensures
            old(v).is_some() ==> (final(v).is_none() <==> to_none),
            old(v).is_none() ==> final(v).is_some(),
            self.accepts(*final(v)),
            *final(c) == self.cache_of(*final(v)),
            r.1 == self.cplx_of(*final(v)),
            self.undo(*final(v), *final(c), r.0) == (*old(v), *old(c)),
    {
        match v {
            Some(x) => match c {
                Some(cx) => {
                    if !to_none {
                        let (t, cplx) = self.mutator.random_mutate(
                            x,
                            cx,
                            sub_cplx(max_cplx, COMPLEXITY_UNIT),
                        );
                        return (OptionUnmutateToken::Inner(t), add_cplx(COMPLEXITY_UNIT, cplx));
                    }
                },
                None => {
                    return vstd::pervasive::unreached();
                },
            },
            None => {
                let (x, cplx) = self.mutator.random_arbitrary(sub_cplx(max_cplx, COMPLEXITY_UNIT));
                let cx = self.mutator.validate_value(&x);
                match cx {
                    Some(cx) => {
                        *v = Some(x);
                        *c = Some(cx);
                        return (OptionUnmutateToken::ToNone, add_cplx(COMPLEXITY_UNIT, cplx));
                    },
                    None => {
                        return vstd::pervasive::unreached();
                    },
                }
            },
        }
        let x = v.take();
        let cx = c.take();
        match (x, cx) {
            (Some(x), Some(cx)) => (OptionUnmutateToken::ToSome(x, cx), COMPLEXITY_UNIT),
            _ => vstd::pervasive::unreached(),
        }
    }
}

} // verus!
