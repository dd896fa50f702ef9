use vstd::prelude::*;
use crate::pool::{CorpusDelta, PoolStorageIndex};

verus! {

#[verifier::external_type_specification]
#[verifier::external_body]
#[verifier::reject_recursive_types(K)]
#[verifier::reject_recursive_types(V)]
#[verifier::reject_recursive_types(S)]
pub struct ExAHashMap<K, V, S>(ahash::AHashMap<K, V, S>);

#[verifier::external_type_specification]
#[verifier::external_body]
pub struct ExRandomState(ahash::RandomState);

/// A value observed in a slot: `(slot, value)`.
pub type SlotValue = (usize, u64);

/// A map from `(slot, value)` to the complexity of the best input seen for
/// that value and the key of that input.
pub type BestMap = ahash::AHashMap<(usize, u64), (u64, usize)>;

/// The entries of a map from `(slot, value)` to `(complexity, input key)`.
pub uninterp spec fn best_entries(m: BestMap) -> Map<
    (usize, u64),
    (u64, usize),
>;

/// Relies on ahash::AHashMap::new: a map without entries.
#[verifier::external_body]
fn best_map_new() -> (r: BestMap)
    ensures
        best_entries(r).dom() == Set::<SlotValue>::empty(),
{
    ahash::AHashMap::new()
}

/// Relies on ahash::AHashMap::get: the entry of `k`, if there is one.
#[verifier::external_body]
fn best_map_get(m: &BestMap, k: (usize, u64)) -> (r: Option<
    (u64, usize),
>)
    ensures
        r == if best_entries(*m).contains_key(k) {
            Some(best_entries(*m)[k])
        } else {
            None
        },
{
    m.get(&k).copied()
}

/// Relies on ahash::AHashMap::insert: the entry of `k` becomes `v`, the others stay.
#[verifier::external_body]
fn best_map_insert(
    m: &mut BestMap,
    k: (usize, u64),
    v: (u64, usize),
)
    ensures
        best_entries(*final(m)) == best_entries(*old(m)).insert(k, v),
{
    m.insert(k, v);
}

/// What the pool knows of a stored input: its handle, its score, and the
/// observed values for which it is the best input.
pub struct InputView {
    pub data: PoolStorageIndex,
    pub score: u64,
    pub best_for: Set<SlotValue>,
}

struct Input {
    data: PoolStorageIndex,
    score: u64,
    best_for_values: Ghost<Set<SlotValue>>,
}

impl Input {
    closed spec fn view(&self) -> InputView {
        InputView { data: self.data, score: self.score, best_for: self.best_for_values@ }
    }
}

/// The statistics of a unique-values pool: its name and the number of inputs it holds.
#[derive(Clone)]
pub struct UniqueValuesPoolStats {
    pub name: String,
    pub size: usize,
}

/// Every best entry lies in a slot of the pool and names a stored input that
/// counts the entry among its values; every stored input counts at least one
/// value, scores the number of them, and is the best input of each.
pub open spec fn pool_wf(size: nat, best: Map<SlotValue, (u64, usize)>, slots: Seq<Option<InputView>>) -> bool {
    &&& forall|k: SlotValue|
        #[trigger] best.contains_key(k) ==> {
            &&& k.0 < size
            &&& best[k].1 < slots.len()
            &&& slots[best[k].1 as int] is Some
            &&& slots[best[k].1 as int].unwrap().best_for.contains(k)
        }
    &&& forall|i: int| 0 <= i < slots.len() && #[trigger] slots[i] is Some ==> input_wf(best, slots[i].unwrap(), i)
}

/// A stored input at position `i` counts at least one value, scores the
/// number of them, and is the best input of each.
pub open spec fn input_wf(best: Map<SlotValue, (u64, usize)>, iv: InputView, i: int) -> bool {
    &&& iv.best_for.finite()
    &&& iv.score == iv.best_for.len()
    &&& iv.best_for.len() > 0
    &&& forall|k: SlotValue|
        #[trigger] iv.best_for.contains(k) ==> best.contains_key(k) && best[k].1 == i
}

/// The observed values on which an input of complexity `cplx` beats the best so far.
pub open spec fn improved(best: Map<SlotValue, (u64, usize)>, obs: Seq<SlotValue>, cplx: u64) -> Set<
    SlotValue,
> {
    Set::new(|k: SlotValue| obs.contains(k) && (!best.contains_key(k) || cplx < best[k].0))
}

/// The best entries after an input of complexity `cplx`, stored at `key`,
/// beats the others on the values `won`.
pub open spec fn best_after(
    best: Map<SlotValue, (u64, usize)>,
    won: Set<SlotValue>,
    cplx: u64,
    key: usize,
) -> Map<SlotValue, (u64, usize)> {
    best.union_prefer_right(Map::new(|k: SlotValue| won.contains(k), |k: SlotValue| (cplx, key)))
}

/// The handle and score of each stored input, by position.
pub open spec fn ranked_inputs(slots: Seq<Option<InputView>>) -> Seq<(PoolStorageIndex, u64)>
    decreases slots.len(),
{
    if slots.len() == 0 {
        Seq::empty()
    } else {
        let rest = ranked_inputs(slots.drop_last());
        match slots.last() {
            Some(iv) => rest.push((iv.data, iv.score)),
            None => rest,
        }
    }
}

/// `d` is the handle of an input among the first `n` that `before` holds and `after` does not.
pub open spec fn evicted_handle(
    before: Seq<Option<InputView>>,
    after: Seq<Option<InputView>>,
    n: int,
    d: PoolStorageIndex,
) -> bool {
    exists|i: int|
        0 <= i < n && #[trigger] before[i] is Some && after[i] is None && d == before[i].unwrap().data
}

/// The number of the first `n` positions that `before` holds and `after` does not.
pub open spec fn evicted_count(before: Seq<Option<InputView>>, after: Seq<Option<InputView>>, n: nat) -> nat
    decreases n,
{
    if n == 0 {
        0
    } else {
        evicted_count(before, after, (n - 1) as nat) + if before[n - 1] is Some && after[n - 1] is None {
            1nat
        } else {
            0nat
        }
    }
}

proof fn lemma_evicted_count_update(
    before: Seq<Option<InputView>>,
    after: Seq<Option<InputView>>,
    n: nat,
    pk: int,
    x: Option<InputView>,
)
    requires
        0 <= pk < after.len(),
        n <= after.len(),
    ensures
        evicted_count(before, after.update(pk, x), n) + (if pk < n && before[pk] is Some && after[pk] is None {
            1nat
        } else {
            0nat
        }) == evicted_count(before, after, n) + (if pk < n && before[pk] is Some && x is None {
            1nat
        } else {
            0nat
        }),
    decreases n,
{
    if n > 0 {
        lemma_evicted_count_update(before, after, (n - 1) as nat, pk, x);
        assert(after.update(pk, x)[n - 1] == if n - 1 == pk {
            x
        } else {
            after[n - 1]
        });
    }
}

proof fn lemma_evicted_count_none(before: Seq<Option<InputView>>, after: Seq<Option<InputView>>, n: nat)
    requires
        forall|i: int| 0 <= i < n ==> before[i] == after[i],
    ensures
        evicted_count(before, after, n) == 0,
    decreases n,
{
    if n > 0 {
        lemma_evicted_count_none(before, after, (n - 1) as nat);
    }
}

/// The number of stored inputs.
pub open spec fn live_count(slots: Seq<Option<InputView>>) -> nat
    decreases slots.len(),
{
    if slots.len() == 0 {
        0
    } else {
        live_count(slots.drop_last()) + if slots.last() is Some {
            1nat
        } else {
            0nat
        }
    }
}

/// A pool that keeps, for each value observed in each slot, the least
/// complex input that produced it.
pub struct UniqueValuesPool {
    name: String,
    size: usize,
    best_input_for_value: BestMap,
    inputs: Vec<Option<Input>>,
    history: Ghost<Seq<(Seq<SlotValue>, u64)>>,
    positions: Ghost<Seq<usize>>,
}

proof fn lemma_push_contains<A>(s: Seq<A>, a: A, x: A)
    ensures
        s.push(a).contains(x) <==> (s.contains(x) || x == a),
{
    if s.contains(x) {
        let w = choose|w: int| 0 <= w < s.len() && s[w] == x;
        assert(s.push(a)[w] == x);
    }
    if x == a {
        assert(s.push(a)[s.len() as int] == a);
    }
}

proof fn lemma_singleton<A>(s: Set<A>, a: A, b: A)
    requires
        s.finite(),
        s.len() == 1,
        s.contains(a),
        s.contains(b),
    ensures
        a == b,
{
    s.remove(a).lemma_len0_is_empty();
    assert(!s.remove(a).contains(b));
}

fn vec_contains(v: &Vec<SlotValue>, k: SlotValue) -> (r: bool)
    ensures
        r == v@.contains(k),
{
    let n = v.len();
    let mut j: usize = 0;
    while j < n
        invariant
            j <= n,
            n == v@.len(),
            forall|i: int| 0 <= i < j ==> v@[i] != k,
        decreases n - j,
    {
        let (slot, value) = v[j];
        if slot == k.0 && value == k.1 {
            return true;
        }
        j = j + 1;
    }
    false
}

impl UniqueValuesPool {
    pub closed spec fn name(&self) -> Seq<char> {
        self.name@
    }

    /// The number of slots.
    pub closed spec fn size(&self) -> nat {
        self.size as nat
    }

    /// For each value seen in a slot: the complexity of the best input and its position.
    pub closed spec fn best(&self) -> Map<SlotValue, (u64, usize)> {
        best_entries(self.best_input_for_value)
    }

    /// The inputs by position; `None` where an input was evicted.
    pub closed spec fn slots(&self) -> Seq<Option<InputView>> {
        self.inputs@.map_values(
            |o: Option<Input>|
                match o {
                    Some(i) => Some(i.view()),
                    None => None,
                },
        )
    }

    /// The observations processed so far, each with the complexity of its run.
    pub closed spec fn observed(&self) -> Seq<(Seq<SlotValue>, u64)> {
        self.history@
    }

    /// For each observation processed, the position its input was given.
    pub closed spec fn observed_positions(&self) -> Seq<usize> {
        self.positions@
    }

    /// Besides the structure of `pool_wf`, the best entries are those that
    /// replaying the observations processed so far gives.
    pub open spec fn wf(&self) -> bool {
        &&& pool_wf(self.size(), self.best(), self.slots())
        &&& self.observed().len() == self.observed_positions().len()
        &&& self.best() == replay(self.observed(), self.observed_positions())
    }

    /// A pool named `name` for observations in `size` slots.
    pub fn new(name: &str, size: usize) -> (r: Self)
        ensures
            r.wf(),
            r.name() == name@,
            r.size() == size,
            r.best() == Map::<SlotValue, (u64, usize)>::empty(),
            r.slots() == Seq::<Option<InputView>>::empty(),
            r.observed() == Seq::<(Seq<SlotValue>, u64)>::empty(),
    {
        let r = UniqueValuesPool {
            name: name.to_owned(),
            size,
            best_input_for_value: best_map_new(),
            inputs: Vec::new(),
            history: Ghost(Seq::empty()),
            positions: Ghost(Seq::empty()),
        };
        assert(r.best() =~= Map::<SlotValue, (u64, usize)>::empty());
        assert(r.slots() =~= Seq::<Option<InputView>>::empty());
        r
    }

    pub fn stats(&self) -> (r: UniqueValuesPoolStats)
        ensures
            r.name@ == self.name(),
            r.size == live_count(self.slots()),
    {
        let n = self.inputs.len();
        let mut count: usize = 0;
        let mut i: usize = 0;
        while i < n
            invariant
                i <= n,
                n == self.inputs@.len(),
                count == live_count(self.slots().take(i as int)),
                count <= i,
            decreases n - i,
        {
            assert(self.slots().take((i + 1) as int).drop_last() =~= self.slots().take(i as int));
            if self.inputs[i].is_some() {
                count = count + 1;
            }
            i = i + 1;
        }
        assert(self.slots().take(n as int) =~= self.slots());
        UniqueValuesPoolStats { name: self.name.clone(), size: count }
    }

    /// Each stored input with its score, by position.
    pub fn ranked_test_cases(&self) -> (r: Vec<(PoolStorageIndex, u64)>)
        ensures
            r@ == ranked_inputs(self.slots()),
    {
        let n = self.inputs.len();
        let mut r: Vec<(PoolStorageIndex, u64)> = Vec::new();
        let mut i: usize = 0;
        while i < n
            invariant
                i <= n,
                n == self.inputs@.len(),
                r@ == ranked_inputs(self.slots().take(i as int)),
            decreases n - i,
        {
            assert(self.slots().take((i + 1) as int).drop_last() =~= self.slots().take(i as int));
            match &self.inputs[i] {
                Some(input) => {
                    assert(self.slots()[i as int] == Some(input.view()));
                    r.push((input.data, input.score));
                },
                None => {},
            }
            i = i + 1;
        }
        assert(self.slots().take(n as int) =~= self.slots());
        r
    }

    /// Adds an observation to the history, with the position its input would
    /// take; the new best entries must already be in place.
    fn record_observation(&mut self, observations: &Vec<SlotValue>, cplx: u64, key: usize)
        ensures
            final(self).observed() == old(self).observed().push((observations@, cplx)),
            final(self).observed_positions() == old(self).observed_positions().push(key),
            final(self).best() == old(self).best(),
            final(self).slots() == old(self).slots(),
            final(self).size() == old(self).size(),
            final(self).name() == old(self).name(),
    {
        self.history = Ghost(self.history@.push((observations@, cplx)));
        self.positions = Ghost(self.positions@.push(key));
    }

    /// Takes the observations of one run of `input`, of complexity `cplx`:
    /// the values, each in its slot, that the run produced.
    ///
    /// Where the input beats the best so far on no value, nothing changes and
    /// no delta is handed back. Otherwise the input is stored at the next
    /// position, as the best input of the values it won, with their number as
    /// its score; each input that thereby is the best of nothing any more is
    /// evicted; and one delta adds the input under the pool's name and
    /// removes the evicted inputs.
    #[verifier::rlimit(50)]
    pub fn process(
        &mut self,
        input: PoolStorageIndex,
        observations: &Vec<SlotValue>,
        cplx: u64,
    ) -> (r: Vec<CorpusDelta>)
        requires
            old(self).wf(),
            forall|i: int| 0 <= i < observations@.len() ==> #[trigger] observations@[i].0 < old(self).size(),
            old(self).slots().len() < usize::MAX,
        ensures
            final(self).wf(),
            final(self).name() == old(self).name(),
            final(self).size() == old(self).size(),
            final(self).observed() == old(self).observed().push((observations@, cplx)),
            final(self).observed_positions() == old(self).observed_positions().push(
                old(self).slots().len() as usize,
            ),
            final(self).best() == best_after_observation(
                old(self).best(),
                observations@,
                cplx,
                old(self).slots().len() as usize,
            ),
            ({
                let won = improved(old(self).best(), observations@, cplx);
                let key = old(self).slots().len();
                if won.is_empty() {
                    &&& r@.len() == 0
                    &&& final(self).best() == old(self).best()
                    &&& final(self).slots() == old(self).slots()
                } else {
                    &&& final(self).best() == best_after(old(self).best(), won, cplx, key as usize)
                    &&& final(self).slots().len() == key + 1
                    &&& final(self).slots()[key as int] == Some(
                        InputView { data: input, score: won.len() as u64, best_for: won },
                    )
                    &&& forall|i: int|
                        0 <= i < key && #[trigger] final(self).slots()[i] is Some ==> old(self).slots()[i] is Some && final(self).slots()[i].unwrap().data == old(self).slots()[i].unwrap().data
                    &&& r@.len() == 1
                    &&& r@[0].add
                    &&& r@[0].path@.len() == 1
                    &&& r@[0].path@[0]@ == old(self).name()
                    &&& forall|j: int|
                        0 <= j < r@[0].remove@.len() ==> evicted_handle(
                            old(self).slots(),
                            final(self).slots(),
                            key as int,
                            #[trigger] r@[0].remove@[j],
                        )
                    &&& r@[0].remove@.len() == evicted_count(old(self).slots(), final(self).slots(), key)
                    &&& forall|i: int|
                        0 <= i < key && #[trigger] old(self).slots()[i] is Some && final(self).slots()[i] is None ==> r@[0].remove@.contains(
                            old(self).slots()[i].unwrap().data,
                        )
                }
            }),
    {
        let ghost old_best = self.best();
        let ghost old_slots = self.slots();
        let ghost won = improved(old_best, observations@, cplx);
        let mut fresh: Vec<SlotValue> = Vec::new();
        let n = observations.len();
        let mut i: usize = 0;
        while i < n
            invariant
                i <= n,
                n == observations@.len(),
                self.best() == old_best,
                fresh@.no_duplicates(),
                forall|k: SlotValue|
                    #[trigger] fresh@.contains(k) <==> (observations@.take(i as int).contains(k) && (
                    !old_best.contains_key(k) || cplx < old_best[k].0)),
            decreases n - i,
        {
            let k = observations[i];
            let better = match best_map_get(&self.best_input_for_value, k) {
                None => true,
                Some(entry) => cplx < entry.0,
            };
            assert(observations@.take((i + 1) as int) =~= observations@.take(i as int).push(k));
            let ghost before = fresh@;
            if better && !vec_contains(&fresh, k) {
                fresh.push(k);
                assert forall|a: int, b: int|
                    0 <= a < fresh@.len() && 0 <= b < fresh@.len() && a != b implies fresh@[a]
                    != fresh@[b] by {
                    if a < before.len() && b < before.len() {
                        assert(before[a] != before[b]);
                    } else if a < before.len() {
                        assert(before.contains(before[a]));
                    } else {
                        assert(before.contains(before[b]));
                    }
                }
            }
            assert forall|x: SlotValue|
                #[trigger] fresh@.contains(x) <==> (observations@.take((i + 1) as int).contains(x) && (
                !old_best.contains_key(x) || cplx < old_best[x].0)) by {
                lemma_push_contains(before, k, x);
                lemma_push_contains(observations@.take(i as int), k, x);
            }
            i = i + 1;
        }
        assert(observations@.take(n as int) =~= observations@);
        assert(fresh@.to_set() =~= won);
        if fresh.len() == 0 {
            assert(won =~= Set::<SlotValue>::empty());
            let key = self.inputs.len();
            self.record_observation(observations, cplx, key);
            assert(self.observed().drop_last() =~= old(self).observed());
            assert(self.observed_positions().drop_last() =~= old(self).observed_positions());
            return Vec::new();
        }
        proof {
            fresh@.unique_seq_to_set();
            assert(fresh@.contains(fresh@[0]));
        }
        let key = self.inputs.len();
        let score = fresh.len() as u64;
        self.inputs.push(Some(Input { data: input, score, best_for_values: Ghost(won) }));
        assert(self.slots() =~= old_slots.push(
            Some(InputView { data: input, score, best_for: won }),
        ));
        let mut removed: Vec<PoolStorageIndex> = Vec::new();
        proof {
            lemma_evicted_count_none(old_slots, self.slots(), key as nat);
        }
        let m = fresh.len();
        let mut j: usize = 0;
        while j < m
            invariant
                j <= m,
                m == fresh@.len(),
                fresh@.no_duplicates(),
                fresh@.to_set() == won,
                pool_wf(old(self).size(), old_best, old_slots),
                old(self).size() == self.size,
                key == old_slots.len(),
                self.size == old(self).size,
                self.name == old(self).name,
                self.history == old(self).history,
                self.positions == old(self).positions,
                self.slots().len() == key + 1,
                self.slots()[key as int] == Some(InputView { data: input, score, best_for: won }),
                score == won.len(),
                won.finite(),
                won.len() > 0,
                forall|k: SlotValue| #[trigger] won.contains(k) ==> k.0 < self.size,
                self.best() == best_after(old_best, fresh@.take(j as int).to_set(), cplx, key),
                forall|k: SlotValue|
                    #[trigger] self.best().contains_key(k) ==> {
                        &&& k.0 < self.size
                        &&& self.best()[k].1 < self.slots().len()
                        &&& self.slots()[self.best()[k].1 as int] is Some
                        &&& self.slots()[self.best()[k].1 as int].unwrap().best_for.contains(k)
                    },
                forall|i: int|
                    0 <= i < key && #[trigger] self.slots()[i] is Some ==> input_wf(
                        self.best(),
                        self.slots()[i].unwrap(),
                        i,
                    ),
                forall|k: SlotValue|
                    #[trigger] fresh@.take(j as int).contains(k) ==> self.best().contains_key(k)
                        && self.best()[k].1 == key,
                forall|i: int|
                    0 <= i < key && #[trigger] self.slots()[i] is Some ==> old_slots[i] is Some
                        && self.slots()[i].unwrap().data == old_slots[i].unwrap().data,
                forall|x: int|
                    0 <= x < removed@.len() ==> evicted_handle(
                        old_slots,
                        self.slots(),
                        key as int,
                        #[trigger] removed@[x],
                    ),
                forall|i: int|
                    0 <= i < key && #[trigger] old_slots[i] is Some && self.slots()[i] is None
                        ==> removed@.contains(old_slots[i].unwrap().data),
                removed@.len() == evicted_count(old_slots, self.slots(), key as nat),
            decreases m - j,
        {
            let k = fresh[j];
            let ghost cur_best = self.best();
            let ghost cur_slots = self.slots();
            let ghost cur_removed = removed@;
            let ghost done = fresh@.take(j as int);
            proof {
                if done.contains(k) {
                    let w = choose|w: int| 0 <= w < done.len() && done[w] == k;
                    assert(fresh@[w] == fresh@[j as int]);
                }
                assert(fresh@.contains(k));
                assert(won.contains(k));
                assert(fresh@.take((j + 1) as int) =~= done.push(k));
                assert forall|x: SlotValue| #[trigger] fresh@.take((j + 1) as int).to_set().contains(x)
                    <==> done.to_set().contains(x) || x == k by {
                    lemma_push_contains(done, k, x);
                }
                assert(fresh@.take((j + 1) as int).to_set() =~= done.to_set().insert(k));
                if old_best.contains_key(k) {
                    assert(cur_best[k] == old_best[k]);
                }
            }
            let prev = best_map_get(&self.best_input_for_value, k);
            best_map_insert(&mut self.best_input_for_value, k, (cplx, key));
            assert(self.best() =~= best_after(old_best, fresh@.take((j + 1) as int).to_set(), cplx, key));
            match prev {
                None => {
                    assert forall|i: int|
                        0 <= i < key && #[trigger] self.slots()[i] is Some implies input_wf(
                        self.best(),
                        self.slots()[i].unwrap(),
                        i,
                    ) by {
                        assert(input_wf(cur_best, cur_slots[i].unwrap(), i));
                        assert(!cur_slots[i].unwrap().best_for.contains(k));
                    }
                },
                Some(entry) => {
                    let pk = entry.1;
                    assert(pk < key);
                    assert(cur_slots[pk as int] is Some);
                    let ghost pv = cur_slots[pk as int].unwrap();
                    assert(input_wf(cur_best, pv, pk as int));
                    let (data, old_score, bf) = match &self.inputs[pk] {
                        Some(inp) => (inp.data, inp.score, inp.best_for_values),
                        None => vstd::pervasive::unreached(),
                    };
                    assert(bf@ == pv.best_for && old_score == pv.score && data == pv.data);
                    if old_score == 1 {
                        removed.push(data);
                        self.inputs.set(pk, None);
                        assert(self.slots() =~= cur_slots.update(pk as int, None));
                        proof {
                            lemma_evicted_count_update(old_slots, cur_slots, key as nat, pk as int, None);
                        }
                        assert forall|k2: SlotValue| #[trigger] self.best().contains_key(k2) && k2 != k
                            implies self.best()[k2].1 != pk by {
                            if self.best()[k2].1 == pk {
                                assert(pv.best_for.contains(k2));
                                lemma_singleton(pv.best_for, k, k2);
                            }
                        }
                        assert forall|x: int|
                            0 <= x < removed@.len() implies evicted_handle(
                            old_slots,
                            self.slots(),
                            key as int,
                            #[trigger] removed@[x],
                        ) by {
                            if x < cur_removed.len() {
                                assert(evicted_handle(old_slots, cur_slots, key as int, cur_removed[x]));
                                let w = choose|w: int|
                                    0 <= w < key && #[trigger] old_slots[w] is Some && cur_slots[w] is None
                                        && cur_removed[x] == old_slots[w].unwrap().data;
                                assert(self.slots()[w] is None);
                            } else {
                                assert(old_slots[pk as int] is Some && self.slots()[pk as int] is None);
                            }
                        }
                        assert forall|i: int|
                            0 <= i < key && #[trigger] old_slots[i] is Some && self.slots()[i] is None
                            implies removed@.contains(old_slots[i].unwrap().data) by {
                            lemma_push_contains(cur_removed, data, old_slots[i].unwrap().data);
                        }
                        assert forall|i: int|
                            0 <= i < key && #[trigger] self.slots()[i] is Some implies input_wf(
                            self.best(),
                            self.slots()[i].unwrap(),
                            i,
                        ) by {
                            assert(input_wf(cur_best, cur_slots[i].unwrap(), i));
                        }
                    } else {
                        self.inputs.set(
                            pk,
                            Some(
                                Input {
                                    data,
                                    score: old_score - 1,
                                    best_for_values: Ghost(bf@.remove(k)),
                                },
                            ),
                        );
                        assert(self.slots() =~= cur_slots.update(
                            pk as int,
                            Some(InputView { data, score: (old_score - 1) as u64, best_for: pv.best_for.remove(k) }),
                        ));
                        proof {
                            lemma_evicted_count_update(
                                old_slots,
                                cur_slots,
                                key as nat,
                                pk as int,
                                Some(InputView { data, score: (old_score - 1) as u64, best_for: pv.best_for.remove(k) }),
                            );
                        }
                        assert forall|i: int|
                            0 <= i < key && #[trigger] self.slots()[i] is Some implies input_wf(
                            self.best(),
                            self.slots()[i].unwrap(),
                            i,
                        ) by {
                            if i != pk {
                                assert(input_wf(cur_best, cur_slots[i].unwrap(), i));
                            }
                        }
                        assert forall|x: int|
                            0 <= x < removed@.len() implies evicted_handle(
                            old_slots,
                            self.slots(),
                            key as int,
                            #[trigger] removed@[x],
                        ) by {
                            assert(evicted_handle(old_slots, cur_slots, key as int, removed@[x]));
                            let w = choose|w: int|
                                0 <= w < key && #[trigger] old_slots[w] is Some && cur_slots[w] is None
                                    && removed@[x] == old_slots[w].unwrap().data;
                            assert(self.slots()[w] is None);
                        }
                    }
                },
            }
            assert(fresh@.take((j + 1) as int) =~= fresh@.take(j as int).push(k));
            j = j + 1;
        }
        assert(fresh@.take(m as int) =~= fresh@);
        proof {
            assert(self.best() =~= best_after_observation(old_best, observations@, cplx, key));
        }
        self.record_observation(observations, cplx, key);
        assert(self.observed().drop_last() =~= old(self).observed());
        assert(self.observed_positions().drop_last() =~= old(self).observed_positions());
        let mut path: Vec<String> = Vec::new();
        path.push(self.name.clone());
        let mut deltas: Vec<CorpusDelta> = Vec::new();
        deltas.push(CorpusDelta { path, add: true, remove: removed });
        deltas
    }
}

/// The entries after one observation (see `UniqueValuesPool::process`).
pub open spec fn best_after_observation(
    best: Map<SlotValue, (u64, usize)>,
    obs: Seq<SlotValue>,
    cplx: u64,
    key: usize,
) -> Map<SlotValue, (u64, usize)> {
    let won = improved(best, obs, cplx);
    if won.is_empty() {
        best
    } else {
        best_after(best, won, cplx, key)
    }
}

/// Best tracking: after an observation of complexity `cplx`, each observed
/// value holds the smaller of its former best complexity and `cplx` (ties
/// keep the former input), every other value keeps its entry; in a
/// well-formed pool each entry names a stored input. So after any sequence
/// of observations each value holds the least complexity observed with it.
pub proof fn law_best_tracking(
    best: Map<SlotValue, (u64, usize)>,
    obs: Seq<SlotValue>,
    cplx: u64,
    key: usize,
    k: SlotValue,
)
    ensures
        ({
            let after = best_after_observation(best, obs, cplx, key);
            &&& obs.contains(k) ==> after.contains_key(k) && after[k].0 == (if best.contains_key(k)
                && best[k].0 <= cplx {
                best[k].0
            } else {
                cplx
            })
            &&& obs.contains(k) && best.contains_key(k) && best[k].0 <= cplx ==> after[k] == best[k]
            &&& obs.contains(k) && (!best.contains_key(k) || cplx < best[k].0) ==> after[k] == (
            cplx,
            key,
            )
            &&& !obs.contains(k) ==> after.contains_key(k) == best.contains_key(k) && (
            best.contains_key(k) ==> after[k] == best[k])
        }),
{
    let won = improved(best, obs, cplx);
    if obs.contains(k) && (!best.contains_key(k) || cplx < best[k].0) {
        assert(won.contains(k));
        assert(!won.is_empty());
    }
    assert(!won.contains(k) ==> !(Map::new(|x: SlotValue| won.contains(x), |x: SlotValue| (cplx, key))).contains_key(k));
}

/// The least complexity observed with `k` over a sequence of observations,
/// each a list of values with the complexity of the run that produced them.
pub open spec fn least_observed(history: Seq<(Seq<SlotValue>, u64)>, k: SlotValue) -> Option<u64>
    decreases history.len(),
{
    if history.len() == 0 {
        None
    } else {
        let before = least_observed(history.drop_last(), k);
        let (obs, cplx) = history.last();
        if obs.contains(k) {
            match before {
                Some(c) => Some(if c <= cplx {
                    c
                } else {
                    cplx
                }),
                None => Some(cplx),
            }
        } else {
            before
        }
    }
}

/// The best entries after a sequence of observations from an empty pool,
/// where the `i`-th observation's input would be stored at `keys[i]`.
pub open spec fn replay(history: Seq<(Seq<SlotValue>, u64)>, keys: Seq<usize>) -> Map<
    SlotValue,
    (u64, usize),
>
    decreases history.len(),
{
    if history.len() == 0 || keys.len() == 0 {
        Map::empty()
    } else {
        best_after_observation(
            replay(history.drop_last(), keys.drop_last()),
            history.last().0,
            history.last().1,
            keys.last(),
        )
    }
}

/// After any sequence of observations, a value has a best entry exactly when
/// it was observed, and the entry holds the least complexity observed with it.
pub proof fn law_best_is_least_observed(
    history: Seq<(Seq<SlotValue>, u64)>,
    keys: Seq<usize>,
    k: SlotValue,
)
    requires
        keys.len() == history.len(),
    ensures
        replay(history, keys).contains_key(k) <==> least_observed(history, k) is Some,
        least_observed(history, k) matches Some(c) ==> replay(history, keys)[k].0 == c,
    decreases history.len(),
{
    if history.len() > 0 {
        law_best_is_least_observed(history.drop_last(), keys.drop_last(), k);
        law_best_tracking(
            replay(history.drop_last(), keys.drop_last()),
            history.last().0,
            history.last().1,
            keys.last(),
            k,
        );
    }
}

/// The position of the first observation of `k` that attains the least
/// complexity observed with it, or -1 where `k` was never observed.
pub open spec fn least_position(history: Seq<(Seq<SlotValue>, u64)>, k: SlotValue) -> int
    decreases history.len(),
{
    if history.len() == 0 {
        -1
    } else {
        let before = least_observed(history.drop_last(), k);
        let (obs, cplx) = history.last();
        if obs.contains(k) && (before is None || cplx < before.unwrap()) {
            history.len() - 1
        } else {
            least_position(history.drop_last(), k)
        }
    }
}

/// After any sequence of observations, the best entry of an observed value
/// names the input of the first observation that attained the least
/// complexity observed with it: a later tie keeps the earlier input.
pub proof fn law_best_names_first_least(
    history: Seq<(Seq<SlotValue>, u64)>,
    keys: Seq<usize>,
    k: SlotValue,
)
    requires
        keys.len() == history.len(),
    ensures
        least_observed(history, k) is Some ==> {
            let p = least_position(history, k);
            &&& 0 <= p < history.len()
            &&& history[p].0.contains(k)
            &&& history[p].1 == least_observed(history, k).unwrap()
            &&& replay(history, keys)[k] == (history[p].1, keys[p])
        },
        least_observed(history, k) is None ==> least_position(history, k) == -1,
    decreases history.len(),
{
    if history.len() > 0 {
        let h = history.drop_last();
        let ks = keys.drop_last();
        law_best_names_first_least(h, ks, k);
        law_best_is_least_observed(h, ks, k);
        law_best_tracking(replay(h, ks), history.last().0, history.last().1, keys.last(), k);
        let p = least_position(history, k);
        if p >= 0 && p < h.len() {
            assert(history[p] == h[p]);
            assert(keys[p] == ks[p]);
        }
    }
}

/// Best tracking over the calls a pool has taken: a value has a best entry
/// exactly when some processed observation held it; the entry holds the
/// least complexity observed with it and names the position given to the
/// input of the first observation that attained it; and that input is stored.
pub proof fn law_pool_best_tracking(pool: &UniqueValuesPool, k: SlotValue)
    requires
        pool.wf(),
    ensures
        pool.best().contains_key(k) <==> least_observed(pool.observed(), k) is Some,
        least_observed(pool.observed(), k) is Some ==> {
            let p = least_position(pool.observed(), k);
            &&& 0 <= p < pool.observed().len()
            &&& pool.observed()[p].0.contains(k)
            &&& pool.observed()[p].1 == least_observed(pool.observed(), k).unwrap()
            &&& pool.best()[k] == (pool.observed()[p].1, pool.observed_positions()[p])
            &&& pool.observed_positions()[p] < pool.slots().len()
            &&& pool.slots()[pool.observed_positions()[p] as int] is Some
        },
{
    law_best_is_least_observed(pool.observed(), pool.observed_positions(), k);
    law_best_names_first_least(pool.observed(), pool.observed_positions(), k);
}

/// In a well-formed pool every best entry names a stored input.
pub proof fn law_best_is_stored(pool: &UniqueValuesPool, k: SlotValue)
    requires
        pool.wf(),
        pool.best().contains_key(k),
    ensures
        pool.best()[k].1 < pool.slots().len(),
        pool.slots()[pool.best()[k].1 as int] is Some,
{
}

/// Eviction: the stored inputs are exactly those that are the best input of
/// some observed value.
pub proof fn law_stored_iff_best(pool: &UniqueValuesPool, i: int)
    requires
        pool.wf(),
        0 <= i < pool.slots().len(),
    ensures
        pool.slots()[i] is Some <==> exists|k: SlotValue|
            #[trigger] pool.best().contains_key(k) && pool.best()[k].1 == i,
{
    if pool.slots()[i] is Some {
        let s = pool.slots()[i].unwrap().best_for;
        assert(input_wf(pool.best(), pool.slots()[i].unwrap(), i));
        if forall|k: SlotValue| !s.contains(k) {
            assert(s =~= Set::<SlotValue>::empty());
        }
        let k = choose|k: SlotValue| s.contains(k);
        assert(pool.best().contains_key(k) && pool.best()[k].1 == i);
    }
}

} // verus!
