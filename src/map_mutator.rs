use vstd::prelude::*;
use std::marker::PhantomData;
use crate::mutator::Mutator;

verus! {

/// The cache of a mapped value: the inner value it was parsed to, with the
/// inner value's cache.
#[derive(Clone)]
pub struct Cache<FromT, C> {
    pub from_value: FromT,
    pub from_cache: C,
}

/// A mutator over `ToT` that works on `FromT` values through another
/// mutator: `parse` reads a `ToT` as a `FromT`, `map` turns a `FromT` into a
/// `ToT`, and after each change the `ToT` is recomputed from the `FromT`.
pub struct MapMutator<FromT, ToT, M, ParseFn, MapFn> {
    mutator: M,
    parse: ParseFn,
    map: MapFn,
    _phantom: PhantomData<(ToT, FromT)>,
}

impl<FromT, ToT, M, ParseFn, MapFn> MapMutator<FromT, ToT, M, ParseFn, MapFn> where
    ParseFn: Fn(&ToT) -> Option<FromT>,
    MapFn: Fn(&FromT) -> ToT,
 {
    pub closed spec fn inner(&self) -> M {
        self.mutator
    }

    pub closed spec fn parser(&self) -> ParseFn {
        self.parse
    }

    pub closed spec fn mapper(&self) -> MapFn {
        self.map
    }

    pub fn new(mutator: M, parse: ParseFn, map: MapFn) -> (r: Self)
        ensures
            r.inner() == mutator,
            r.parser() == parse,
            r.mapper() == map,
    {
        MapMutator { mutator, parse, map, _phantom: PhantomData }
    }

    /// What `parse` gives for `t`.
    pub open spec fn parse_of(&self, t: ToT) -> Option<FromT> {
        choose|r: Option<FromT>| call_ensures(self.parser(), (&t,), r)
    }

    /// What `map` gives for `f`.
    pub open spec fn map_of(&self, f: FromT) -> ToT {
        choose|r: ToT| call_ensures(self.mapper(), (&f,), r)
    }

    /// `parse` and `map` may be called on anything, each gives one result
    /// per argument, and a parsed value maps back to what was parsed.
    pub open spec fn functions_wf(&self) -> bool {
        &&& forall|t: ToT| call_requires(self.parser(), (&t,))
        &&& forall|f: FromT| call_requires(self.mapper(), (&f,))
        &&& forall|t: ToT, r1: Option<FromT>, r2: Option<FromT>|
            call_ensures(self.parser(), (&t,), r1) && call_ensures(self.parser(), (&t,), r2) ==> r1 == r2
        &&& forall|f: FromT, r1: ToT, r2: ToT|
            call_ensures(self.mapper(), (&f,), r1) && call_ensures(self.mapper(), (&f,), r2) ==> r1 == r2
        &&& forall|t: ToT| (#[trigger] self.parse_of(t)) is Some ==> self.map_of(self.parse_of(t).unwrap()) == t
    }

    proof fn lemma_parse(&self, t: ToT, r: Option<FromT>)
        requires
            call_ensures(self.parser(), (&t,), r),
            forall|t: ToT, r1: Option<FromT>, r2: Option<FromT>|
                call_ensures(self.parser(), (&t,), r1) && call_ensures(self.parser(), (&t,), r2) ==> r1
                    == r2,
        ensures
            self.parse_of(t) == r,
    {
    }

    proof fn lemma_map(&self, f: FromT, r: ToT)
        requires
            call_ensures(self.mapper(), (&f,), r),
            forall|f: FromT, r1: ToT, r2: ToT|
                call_ensures(self.mapper(), (&f,), r1) && call_ensures(self.mapper(), (&f,), r2) ==> r1 == r2,
        ensures
            self.map_of(f) == r,
    {
    }
}

impl<FromT, ToT, M, ParseFn, MapFn> Mutator<ToT> for MapMutator<FromT, ToT, M, ParseFn, MapFn> where
    M: Mutator<FromT>,
    ParseFn: Fn(&ToT) -> Option<FromT>,
    MapFn: Fn(&FromT) -> ToT,
 {
    type Cache = Cache<FromT, M::Cache>;
    type MutationStep = M::MutationStep;
    type ArbitraryStep = M::ArbitraryStep;
    type UnmutateToken = M::UnmutateToken;

    open spec fn wf(&self) -> bool {
        &&& self.inner().wf()
        &&& self.functions_wf()
        &&& forall|f: FromT| #[trigger] self.inner().accepts(f) ==> self.parse_of(self.map_of(f)) == Some(f)
    }

    open spec fn accepts(&self, v: ToT) -> bool {
        match self.parse_of(v) {
            Some(f) => self.inner().accepts(f),
            None => false,
        }
    }

    open spec fn cache_of(&self, v: ToT) -> Cache<FromT, M::Cache> {
        let f = self.parse_of(v).unwrap();
        Cache { from_value: f, from_cache: self.inner().cache_of(f) }
    }

    open spec fn cplx_of(&self, v: ToT) -> u64 {
        self.inner().cplx_of(self.parse_of(v).unwrap())
    }

    open spec fn min_cplx(&self) -> u64 {
        self.inner().min_cplx()
    }

    open spec fn max_cplx(&self) -> u64 {
        self.inner().max_cplx()
    }

    open spec fn undo(&self, v: ToT, c: Cache<FromT, M::Cache>, t: M::UnmutateToken) -> (
        ToT,
        Cache<FromT, M::Cache>,
    ) {
        let (f, fc) = self.inner().undo(c.from_value, c.from_cache, t);
        (self.map_of(f), Cache { from_value: f, from_cache: fc })
    }

    open spec fn mutate_next(&self, v: ToT, step: M::MutationStep, max_cplx: u64) -> Option<
        (ToT, M::MutationStep),
    > {
        match self.inner().mutate_next(self.parse_of(v).unwrap(), step, max_cplx) {
            None => None,
            Some((f, s)) => Some((self.map_of(f), s)),
        }
    }

    open spec fn arbitrary_next(&self, step: M::ArbitraryStep, max_cplx: u64) -> Option<
        (ToT, M::ArbitraryStep),
    > {
        match self.inner().arbitrary_next(step, max_cplx) {
            None => None,
            Some((f, s)) => Some((self.map_of(f), s)),
        }
    }

    open spec fn initial_arbitrary_step(&self) -> M::ArbitraryStep {
        self.inner().initial_arbitrary_step()
    }

    open spec fn initial_mutation_step(&self, v: ToT) -> M::MutationStep {
        self.inner().initial_mutation_step(self.parse_of(v).unwrap())
    }

    proof fn lemma_cplx_bounds(&self, v: ToT) {
        self.inner().lemma_cplx_bounds(self.parse_of(v).unwrap());
    }

    fn default_arbitrary_step(&self) -> (r: M::ArbitraryStep) {
        self.mutator.default_arbitrary_step()
    }

    fn validate_value(&self, to_value: &ToT) -> (r: Option<Cache<FromT, M::Cache>>) {
        proof {
            assert(self.parser() == self.parse);
        }
        let parsed = (self.parse)(to_value);
        proof {
            self.lemma_parse(*to_value, parsed);
        }
        match parsed {
            None => None,
            Some(from_value) => match self.mutator.validate_value(&from_value) {
                None => None,
                Some(from_cache) => Some(Cache { from_value, from_cache }),
            },
        }
    }

    fn default_mutation_step(&self, v: &ToT, cache: &Cache<FromT, M::Cache>) -> (r: M::MutationStep) {
        self.mutator.default_mutation_step(&cache.from_value, &cache.from_cache)
    }

    fn max_complexity(&self) -> (r: u64) {
        self.mutator.max_complexity()
    }

    fn min_complexity(&self) -> (r: u64) {
        self.mutator.min_complexity()
    }

    fn complexity(&self, v: &ToT, cache: &Cache<FromT, M::Cache>) -> (r: u64) {
        self.mutator.complexity(&cache.from_value, &cache.from_cache)
    }

    fn ordered_arbitrary(&self, step: &mut M::ArbitraryStep, max_cplx: u64) -> (r: Option<(ToT, u64)>) {
        match self.mutator.ordered_arbitrary(step, max_cplx) {
            None => None,
            Some((from_value, cplx)) => {
                proof {
            assert(self.mapper() == self.map);
        }
        let to_value = (self.map)(&from_value);
                proof {
                    self.lemma_map(from_value, to_value);
                }
                Some((to_value, cplx))
            },
        }
    }

    fn random_arbitrary(&self, max_cplx: u64) -> (r: (ToT, u64)) {
        let (from_value, cplx) = self.mutator.random_arbitrary(max_cplx);
        proof {
            assert(self.mapper() == self.map);
        }
        let to_value = (self.map)(&from_value);
        proof {
            self.lemma_map(from_value, to_value);
        }
        (to_value, cplx)
    }

    fn ordered_mutate(
        &self,
        value: &mut ToT,
        cache: &mut Cache<FromT, M::Cache>,
        step: &mut M::MutationStep,
        max_cplx: u64,
    ) -> (r: Option<(M::UnmutateToken, u64)>) {
        match self.mutator.ordered_mutate(&mut cache.from_value, &mut cache.from_cache, step, max_cplx) {
            None => None,
            Some((token, cplx)) => {
                proof {
            assert(self.mapper() == self.map);
        }
        let to_value = (self.map)(&cache.from_value);
                proof {
                    self.lemma_map(cache.from_value, to_value);
                }
                *value = to_value;
                Some((token, cplx))
            },
        }
    }

    fn random_mutate(
        &self,
        value: &mut ToT,
        cache: &mut Cache<FromT, M::Cache>,
        max_cplx: u64,
    ) -> (r: (M::UnmutateToken, u64)) {
        let (token, cplx) = self.mutator.random_mutate(
            &mut cache.from_value,
            &mut cache.from_cache,
            max_cplx,
        );
        proof {
            assert(self.mapper() == self.map);
        }
        let to_value = (self.map)(&cache.from_value);
        proof {
            self.lemma_map(cache.from_value, to_value);
        }
        *value = to_value;
        (token, cplx)
    }

    fn unmutate(&self, value: &mut ToT, cache: &mut Cache<FromT, M::Cache>, t: M::UnmutateToken) {
        self.mutator.unmutate(&mut cache.from_value, &mut cache.from_cache, t);
        proof {
            assert(self.mapper() == self.map);
        }
        let to_value = (self.map)(&cache.from_value);
        proof {
            self.lemma_map(cache.from_value, to_value);
        }
        *value = to_value;
    }
}

/// A mutator over pairs `(ToT, FromT)`: it mutates the `FromT` part through
/// another mutator and keeps the `ToT` part derived from it by `map`, which
/// is handed the former `ToT` value to fill in again, so that its storage is
/// reused instead of built anew.
pub struct AndMapMutator<FromT, ToT, M, MapFn> {
    mutator: M,
    map: MapFn,
    storage_to: ToT,
    _phantom: PhantomData<FromT>,
}

impl<FromT, ToT, M, MapFn> AndMapMutator<FromT, ToT, M, MapFn> where
    ToT: Clone + PartialEq + vstd::std_specs::cmp::PartialEqSpec,
    MapFn: Fn(&FromT, ToT) -> ToT,
 {
    pub closed spec fn inner(&self) -> M {
        self.mutator
    }

    pub closed spec fn mapper(&self) -> MapFn {
        self.map
    }

    /// `storage` is cloned for each new value and handed to `map` to fill.
    pub fn new(mutator: M, map: MapFn, storage: ToT) -> (r: Self)
        ensures
            r.inner() == mutator,
            r.mapper() == map,
    {
        AndMapMutator { mutator, map, storage_to: storage, _phantom: PhantomData }
    }

    /// `map` gives `g(x)` for every `x`, whatever storage it is handed.
    pub open spec fn computes(&self, g: spec_fn(FromT) -> ToT) -> bool {
        forall|x: &FromT, y: ToT, r: ToT| #[trigger] call_ensures(self.mapper(), (x, y), r) ==> r == g(*x)
    }

    /// What `map` gives for `f`.
    pub open spec fn companion_of(&self, f: FromT) -> ToT {
        let g = choose|g: spec_fn(FromT) -> ToT| self.computes(g);
        g(f)
    }

    /// `map` may be called on anything and what it gives depends on the
    /// `FromT` value alone; `==` on `ToT` is equality.
    pub open spec fn functions_wf(&self) -> bool {
        &&& forall|x: &FromT, y: ToT| call_requires(self.mapper(), (x, y))
        &&& exists|g: spec_fn(FromT) -> ToT| self.computes(g)
        &&& ToT::obeys_eq_spec()
        &&& forall|a: ToT, b: ToT| a.eq_spec(&b) <==> a == b
    }

    fn companion(&self, f: &FromT) -> (r: ToT)
        requires
            self.functions_wf(),
        ensures
            r == self.companion_of(*f),
    {
        let storage = self.storage_to.clone();
        proof {
            assert(self.mapper() == self.map);
        }
        (self.map)(f, storage)
    }

    /// Recomputes the `ToT` part of `value` from its `FromT` part, in the
    /// former `ToT` part's storage.
    fn refill(&self, value: &mut (ToT, FromT))
        requires
            self.functions_wf(),
        ensures
            final(value).1 == old(value).1,
            final(value).0 == self.companion_of(old(value).1),
    {
        let mut storage = self.storage_to.clone();
        std::mem::swap(&mut value.0, &mut storage);
        proof {
            assert(self.mapper() == self.map);
        }
        value.0 = (self.map)(&value.1, storage);
    }
}

impl<FromT, ToT, M, MapFn> Mutator<(ToT, FromT)> for AndMapMutator<FromT, ToT, M, MapFn> where
    M: Mutator<FromT>,
    ToT: Clone + PartialEq + vstd::std_specs::cmp::PartialEqSpec,
    MapFn: Fn(&FromT, ToT) -> ToT,
 {
    type Cache = M::Cache;
    type MutationStep = M::MutationStep;
    type ArbitraryStep = M::ArbitraryStep;
    type UnmutateToken = M::UnmutateToken;

    open spec fn wf(&self) -> bool {
        self.inner().wf() && self.functions_wf()
    }

    open spec fn accepts(&self, v: (ToT, FromT)) -> bool {
        self.inner().accepts(v.1) && v.0 == self.companion_of(v.1)
    }

    open spec fn cache_of(&self, v: (ToT, FromT)) -> M::Cache {
        self.inner().cache_of(v.1)
    }

    open spec fn cplx_of(&self, v: (ToT, FromT)) -> u64 {
        self.inner().cplx_of(v.1)
    }

    open spec fn min_cplx(&self) -> u64 {
        self.inner().min_cplx()
    }

    open spec fn max_cplx(&self) -> u64 {
        self.inner().max_cplx()
    }

    open spec fn undo(&self, v: (ToT, FromT), c: M::Cache, t: M::UnmutateToken) -> (
        (ToT, FromT),
        M::Cache,
    ) {
        let (f, fc) = self.inner().undo(v.1, c, t);
        ((self.companion_of(f), f), fc)
    }

    open spec fn mutate_next(&self, v: (ToT, FromT), step: M::MutationStep, max_cplx: u64) -> Option<
        ((ToT, FromT), M::MutationStep),
    > {
        match self.inner().mutate_next(v.1, step, max_cplx) {
            None => None,
            Some((f, s)) => Some(((self.companion_of(f), f), s)),
        }
    }

    open spec fn arbitrary_next(&self, step: M::ArbitraryStep, max_cplx: u64) -> Option<
        ((ToT, FromT), M::ArbitraryStep),
    > {
        match self.inner().arbitrary_next(step, max_cplx) {
            None => None,
            Some((f, s)) => Some(((self.companion_of(f), f), s)),
        }
    }

    open spec fn initial_arbitrary_step(&self) -> M::ArbitraryStep {
        self.inner().initial_arbitrary_step()
    }

    open spec fn initial_mutation_step(&self, v: (ToT, FromT)) -> M::MutationStep {
        self.inner().initial_mutation_step(v.1)
    }

    proof fn lemma_cplx_bounds(&self, v: (ToT, FromT)) {
        self.inner().lemma_cplx_bounds(v.1);
    }

    fn default_arbitrary_step(&self) -> (r: M::ArbitraryStep) {
        self.mutator.default_arbitrary_step()
    }

    fn validate_value(&self, value: &(ToT, FromT)) -> (r: Option<M::Cache>) {
        match self.mutator.validate_value(&value.1) {
            None => None,
            Some(from_cache) => {
                let expected = self.companion(&value.1);
                if expected == value.0 {
                    Some(from_cache)
                } else {
                    None
                }
            },
        }
    }

    fn default_mutation_step(&self, value: &(ToT, FromT), cache: &M::Cache) -> (r: M::MutationStep) {
        self.mutator.default_mutation_step(&value.1, cache)
    }

    fn max_complexity(&self) -> (r: u64) {
        self.mutator.max_complexity()
    }

    fn min_complexity(&self) -> (r: u64) {
        self.mutator.min_complexity()
    }

    fn complexity(&self, value: &(ToT, FromT), cache: &M::Cache) -> (r: u64) {
        self.mutator.complexity(&value.1, cache)
    }

    fn ordered_arbitrary(&self, step: &mut M::ArbitraryStep, max_cplx: u64) -> (r: Option<
        ((ToT, FromT), u64),
    >) {
        match self.mutator.ordered_arbitrary(step, max_cplx) {
            None => None,
            Some((from_value, cplx)) => {
                let to_value = self.companion(&from_value);
                Some(((to_value, from_value), cplx))
            },
        }
    }

    fn random_arbitrary(&self, max_cplx: u64) -> (r: ((ToT, FromT), u64)) {
        let (from_value, cplx) = self.mutator.random_arbitrary(max_cplx);
        let to_value = self.companion(&from_value);
        ((to_value, from_value), cplx)
    }

    fn ordered_mutate(
        &self,
        value: &mut (ToT, FromT),
        cache: &mut M::Cache,
        step: &mut M::MutationStep,
        max_cplx: u64,
    ) -> (r: Option<(M::UnmutateToken, u64)>) {
        match self.mutator.ordered_mutate(&mut value.1, cache, step, max_cplx) {
            None => None,
            Some((token, cplx)) => {
                self.refill(value);
                Some((token, cplx))
            },
        }
    }

    fn random_mutate(&self, value: &mut (ToT, FromT), cache: &mut M::Cache, max_cplx: u64) -> (r: (
        M::UnmutateToken,
        u64,
    )) {
        let (token, cplx) = self.mutator.random_mutate(&mut value.1, cache, max_cplx);
        self.refill(value);
        (token, cplx)
    }

    fn unmutate(&self, value: &mut (ToT, FromT), cache: &mut M::Cache, t: M::UnmutateToken) {
        self.mutator.unmutate(&mut value.1, cache, t);
        self.refill(value);
    }
}

} // verus!
