use vstd::prelude::*;
use crate::pool::{
    complexity_notation, complexity_string, decimal, decimal_string, CorpusDelta,
    PoolStorageIndex,
};

verus! {

/// The number of inputs kept for one failure at one complexity.
pub const NBR_ARTIFACTS_PER_ERROR_AND_CPLX: usize = 8;

/// A test failure, identified by `id` and shown as `display`.
#[derive(Clone, Debug)]
pub struct TestFailure {
    pub display: String,
    pub id: u64,
}

impl TestFailure {
    pub fn duplicate(&self) -> (r: TestFailure)
        ensures
            r == *self,
    {
        TestFailure { display: self.display.clone(), id: self.id }
    }
}

fn duplicate_observation(o: &Option<TestFailure>) -> (r: Option<TestFailure>)
    ensures
        r == *o,
{
    match o {
        None => None,
        Some(f) => Some(f.duplicate()),
    }
}

/// A sensor that records the failure of one test run.
///
/// The failure itself is written, while the test runs, into a slot that the
/// caller owns and hands to `start_recording` and `stop_recording`.
pub struct TestFailureSensor {
    error: Option<TestFailure>,
}

impl TestFailureSensor {
    /// The failure recorded in the last run, until it is taken.
    pub closed spec fn recorded(&self) -> Option<TestFailure> {
        self.error
    }

    pub fn new() -> (r: Self)
        ensures
            r.recorded() is None,
    {
        TestFailureSensor { error: None }
    }

    /// Starts a run: forgets what was recorded and empties the slot, so that
    /// nothing from an earlier run can be observed in this one.
    pub fn start_recording(&mut self, slot: &mut Option<TestFailure>)
        ensures
            final(self).recorded() is None,
            *final(slot) is None,
    {
        self.error = None;
        *slot = None;
    }

    /// Ends a run: records what the slot holds.
    pub fn stop_recording(&mut self, slot: &Option<TestFailure>)
        ensures
            final(self).recorded() == *slot,
    {
        self.error = duplicate_observation(slot);
    }

    /// Takes the recorded failure.
    pub fn get_observations(&mut self) -> (r: Option<TestFailure>)
        ensures
            r == old(self).recorded(),
            final(self).recorded() is None,
    {
        self.error.take()
    }
}

/// Isolation of runs: `start_recording` leaves the slot empty, and
/// `stop_recording` records what the slot holds; so a run during which the
/// test writes nothing into the slot observes no failure, whatever earlier
/// runs recorded.
pub proof fn law_sensor_isolation(
    slot_after_start: Option<TestFailure>,
    slot_at_stop: Option<TestFailure>,
    stopped: TestFailureSensor,
)
    requires
        slot_after_start is None,
        slot_at_stop == slot_after_start,
        stopped.recorded() == slot_at_stop,
    ensures
        stopped.recorded() is None,
{
}

impl Default for TestFailureSensor {
    fn default() -> (r: Self)
        ensures
            r.recorded() is None,
    {
        TestFailureSensor::new()
    }
}

/// The statistics of a failure pool: the number of distinct failures.
#[derive(Clone, Copy)]
pub struct TestFailurePoolStats {
    pub count: usize,
}

/// A group of inputs of equal complexity that cause one failure.
pub struct FailureTierView {
    pub cplx: u64,
    pub inputs: Seq<PoolStorageIndex>,
}

/// A failure with its tiers of inputs, from the most complex to the least.
pub struct FailureClassView {
    pub id: u64,
    pub display: Seq<char>,
    pub tiers: Seq<FailureTierView>,
}

struct TestFailureListForError {
    cplx: u64,
    inputs: Vec<PoolStorageIndex>,
}

impl TestFailureListForError {
    closed spec fn view(&self) -> FailureTierView {
        FailureTierView { cplx: self.cplx, inputs: self.inputs@ }
    }
}

struct TestFailureList {
    error: TestFailure,
    inputs: Vec<TestFailureListForError>,
}

impl TestFailureList {
    closed spec fn view(&self) -> FailureClassView {
        FailureClassView {
            id: self.error.id,
            display: self.error.display@,
            tiers: self.inputs@.map_values(|t: TestFailureListForError| t.view()),
        }
    }
}

/// Every failure is held once, each with at least one tier; within a failure
/// the complexities of the tiers strictly decrease, and every tier holds
/// between one and eight inputs.
pub open spec fn classes_wf(cs: Seq<FailureClassView>) -> bool {
    &&& forall|k: int, j: int| 0 <= k < cs.len() && 0 <= j < cs.len() && k != j ==> #[trigger] cs[k].id != #[trigger] cs[j].id
    &&& forall|k: int| 0 <= k < cs.len() ==> #[trigger] cs[k].tiers.len() >= 1
    &&& forall|k: int, a: int, b: int|
        0 <= k < cs.len() && 0 <= a < b < cs[k].tiers.len() ==> #[trigger] cs[k].tiers[a].cplx
            > #[trigger] cs[k].tiers[b].cplx
    &&& forall|k: int, t: int|
        0 <= k < cs.len() && 0 <= t < cs[k].tiers.len() ==> 1 <= #[trigger] cs[k].tiers[t].inputs.len()
            <= NBR_ARTIFACTS_PER_ERROR_AND_CPLX
}

/// The position of the failure `id`, or -1.
pub open spec fn find_class(cs: Seq<FailureClassView>, id: u64) -> int {
    if exists|k: int| 0 <= k < cs.len() && cs[k].id == id {
        choose|k: int| 0 <= k < cs.len() && cs[k].id == id
    } else {
        -1
    }
}

/// A tier of one input.
pub open spec fn single_tier(cplx: u64, input: PoolStorageIndex) -> FailureTierView {
    FailureTierView { cplx, inputs: seq![input] }
}

/// The failures after observing the failure `(id, display)` for `input` of
/// complexity `cplx`, or `None` where the observation is not kept:
/// a new failure gets a class of its own; a complexity below the failure's
/// smallest gets a new tier; the smallest complexity again adds the input to
/// the last tier while it holds fewer than eight and no other failure is
/// shown the same way.
pub open spec fn add_failure(
    cs: Seq<FailureClassView>,
    input: PoolStorageIndex,
    id: u64,
    display: Seq<char>,
    cplx: u64,
) -> Option<Seq<FailureClassView>> {
    let k = find_class(cs, id);
    if k < 0 {
        Some(cs.push(FailureClassView { id, display, tiers: seq![single_tier(cplx, input)] }))
    } else {
        let c = cs[k];
        if c.tiers.len() == 0 || cplx < c.tiers.last().cplx {
            Some(
                cs.update(
                    k,
                    FailureClassView {
                        id: c.id,
                        display: c.display,
                        tiers: c.tiers.push(single_tier(cplx, input)),
                    },
                ),
            )
        } else if cplx == c.tiers.last().cplx && c.tiers.last().inputs.len()
            < NBR_ARTIFACTS_PER_ERROR_AND_CPLX && (forall|j: int|
            0 <= j < cs.len() && j != k ==> #[trigger] cs[j].display != display) {
            let last = c.tiers.last();
            Some(
                cs.update(
                    k,
                    FailureClassView {
                        id: c.id,
                        display: c.display,
                        tiers: c.tiers.update(
                            c.tiers.len() - 1,
                            FailureTierView { cplx: last.cplx, inputs: last.inputs.push(input) },
                        ),
                    },
                ),
            )
        } else {
            None
        }
    }
}

/// The inputs of the last tier of each failure, in order, each of weight one.
pub open spec fn ranked_failures(cs: Seq<FailureClassView>) -> Seq<(PoolStorageIndex, u64)>
    decreases cs.len(),
{
    if cs.len() == 0 {
        Seq::empty()
    } else {
        ranked_failures(cs.drop_last()) + cs.last().tiers.last().inputs.map_values(
            |i: PoolStorageIndex| (i, 1u64),
        )
    }
}

/// A pool that keeps failing inputs: per failure, the least complex ones seen.
pub struct TestFailurePool {
    name: String,
    inputs: Vec<TestFailureList>,
}

impl TestFailurePool {
    /// The name of the pool, the first component of the paths it hands out.
    pub closed spec fn name(&self) -> Seq<char> {
        self.name@
    }

    /// The failures kept, in the order they were first seen.
    pub closed spec fn classes(&self) -> Seq<FailureClassView> {
        self.inputs@.map_values(|l: TestFailureList| l.view())
    }

    pub open spec fn wf(&self) -> bool {
        classes_wf(self.classes())
    }

    pub fn new(name: &str) -> (r: Self)
        ensures
            r.wf(),
            r.name() == name@,
            r.classes() == Seq::<FailureClassView>::empty(),
    {
        let r = TestFailurePool { name: name.to_owned(), inputs: Vec::new() };
        assert(r.classes() =~= Seq::<FailureClassView>::empty());
        r
    }

    pub fn stats(&self) -> (r: TestFailurePoolStats)
        ensures
            r.count == self.classes().len(),
    {
        TestFailurePoolStats { count: self.inputs.len() }
    }

    /// The inputs of the least complex tier of each failure, each of weight one.
    pub fn ranked_test_cases(&self) -> (r: Vec<(PoolStorageIndex, u64)>)
        requires
            self.wf(),
        ensures
            r@ == ranked_failures(self.classes()),
    {
        let mut ranked: Vec<(PoolStorageIndex, u64)> = Vec::new();
        let n = self.inputs.len();
        let mut k: usize = 0;
        while k < n
            invariant
                k <= n,
                n == self.inputs@.len(),
                self.wf(),
                ranked@ == ranked_failures(self.classes().take(k as int)),
            decreases n - k,
        {
            let list = &self.inputs[k];
            assert(self.classes()[k as int] == list.view());
            assert(list.view().tiers.len() >= 1);
            let last = &list.inputs[list.inputs.len() - 1];
            assert(list.view().tiers.last() == last.view());
            let m = last.inputs.len();
            let ghost start = ranked@;
            let mut j: usize = 0;
            while j < m
                invariant
                    j <= m,
                    m == last.inputs@.len(),
                    ranked@ == start + last.inputs@.take(j as int).map_values(
                        |i: PoolStorageIndex| (i, 1u64),
                    ),
                decreases m - j,
            {
                ranked.push((last.inputs[j], 1u64));
                j = j + 1;
                assert(ranked@ =~= start + last.inputs@.take(j as int).map_values(
                    |i: PoolStorageIndex| (i, 1u64),
                ));
            }
            assert(last.inputs@.take(m as int) =~= last.inputs@);
            assert(self.classes().take((k + 1) as int).drop_last() =~= self.classes().take(k as int));
            k = k + 1;
        }
        assert(self.classes().take(n as int) =~= self.classes());
        ranked
    }

    fn display_elsewhere(&self, k: usize, display: &String) -> (r: bool)
        requires
            k < self.inputs@.len(),
        ensures
            r == exists|j: int|
                0 <= j < self.classes().len() && j != k && #[trigger] self.classes()[j].display
                    == display@,
    {
        let n = self.inputs.len();
        let mut j: usize = 0;
        while j < n
            invariant
                j <= n,
                n == self.inputs@.len(),
                forall|i: int| 0 <= i < j && i != k ==> #[trigger] self.classes()[i].display != display@,
            decreases n - j,
        {
            assert(self.classes()[j as int] == self.inputs@[j as int].view());
            if j != k && self.inputs[j].error.display == *display {
                assert(self.classes()[j as int].display == display@);
                return true;
            }
            j = j + 1;
        }
        false
    }

    /// Takes the observation of one run of `input`, of complexity `cplx`.
    /// Where the failure is kept (see `add_failure`), hands back one delta that
    /// adds the input under `name/id/cplx`, the complexity with four decimal
    /// places, and removes nothing; otherwise hands back no delta.
    pub fn process(
        &mut self,
        input: PoolStorageIndex,
        observation: Option<TestFailure>,
        cplx: u64,
    ) -> (r: Vec<CorpusDelta>)
        requires
            old(self).wf(),
        ensures
            final(self).wf(),
            final(self).name() == old(self).name(),
            match observation {
                None => final(self).classes() == old(self).classes() && r@.len() == 0,
                Some(e) => match add_failure(old(self).classes(), input, e.id, e.display@, cplx) {
                    None => final(self).classes() == old(self).classes() && r@.len() == 0,
                    Some(cs) => {
                        &&& final(self).classes() == cs
                        &&& r@.len() == 1
                        &&& r@[0].add
                        &&& r@[0].remove@.len() == 0
                        &&& r@[0].path@.len() == 3
                        &&& r@[0].path@[0]@ == old(self).name()
                        &&& r@[0].path@[1]@ == decimal(e.id as nat)
                        &&& r@[0].path@[2]@ == complexity_notation(cplx)
                    },
                },
            },
    {
        let error = match observation {
            None => {
                return Vec::new();
            },
            Some(e) => e,
        };
        let ghost cs = self.classes();
        let n = self.inputs.len();
        let mut k: usize = 0;
        while k < n
            invariant
                k <= n,
                n == self.inputs@.len(),
                cs == self.classes(),
                forall|j: int| 0 <= j < k ==> #[trigger] cs[j].id != error.id,
            ensures
                k <= n,
                k < n ==> cs[k as int].id == error.id,
                forall|j: int| 0 <= j < k ==> #[trigger] cs[j].id != error.id,
            decreases n - k,
        {
            assert(cs[k as int] == self.inputs@[k as int].view());
            if self.inputs[k].error.id == error.id {
                break;
            }
            k = k + 1;
        }
        let mut path: Vec<String> = Vec::new();
        path.push(self.name.clone());
        path.push(decimal_string(error.id));
        path.push(complexity_string(cplx));
        let ghost display = error.display@;
        let ghost id = error.id;
        if k == n {
            assert(find_class(cs, id) == -1);
            let mut tiers: Vec<TestFailureListForError> = Vec::new();
            let mut first: Vec<PoolStorageIndex> = Vec::new();
            first.push(input);
            tiers.push(TestFailureListForError { cplx, inputs: first });
            let list = TestFailureList { error, inputs: tiers };
            assert(list.view().tiers =~= seq![single_tier(cplx, input)]);
            self.inputs.push(list);
            assert(self.classes() =~= cs.push(
                FailureClassView { id, display, tiers: seq![single_tier(cplx, input)] },
            ));
        } else {
            assert(cs[k as int].id == id);
            assert(find_class(cs, id) == k);
            let ghost c = cs[k as int];
            assert(c == self.inputs@[k as int].view());
            let t = self.inputs[k].inputs.len();
            assert(t >= 1);
            let last_cplx = self.inputs[k].inputs[t - 1].cplx;
            let last_len = self.inputs[k].inputs[t - 1].inputs.len();
            assert(c.tiers.last() == self.inputs@[k as int].inputs@[t - 1].view());
            if cplx < last_cplx {
                let mut list = self.inputs.remove(k);
                let mut first: Vec<PoolStorageIndex> = Vec::new();
                first.push(input);
                list.inputs.push(TestFailureListForError { cplx, inputs: first });
                assert(list.view().tiers =~= c.tiers.push(single_tier(cplx, input)));
                self.inputs.insert(k, list);
                assert(self.classes() =~= cs.update(
                    k as int,
                    FailureClassView {
                        id: c.id,
                        display: c.display,
                        tiers: c.tiers.push(single_tier(cplx, input)),
                    },
                ));
            } else if cplx == last_cplx && last_len < NBR_ARTIFACTS_PER_ERROR_AND_CPLX
                && !self.display_elsewhere(k, &error.display) {
                let mut list = self.inputs.remove(k);
                let mut tier = list.inputs.pop().unwrap();
                tier.inputs.push(input);
                let ghost last = c.tiers.last();
                list.inputs.push(tier);
                assert(list.view().tiers =~= c.tiers.update(
                    c.tiers.len() - 1,
                    FailureTierView { cplx: last.cplx, inputs: last.inputs.push(input) },
                ));
                self.inputs.insert(k, list);
                assert(self.classes() =~= cs.update(
                    k as int,
                    FailureClassView {
                        id: c.id,
                        display: c.display,
                        tiers: c.tiers.update(
                            c.tiers.len() - 1,
                            FailureTierView { cplx: last.cplx, inputs: last.inputs.push(input) },
                        ),
                    },
                ));
            } else {
                return Vec::new();
            }
        }
        let mut deltas: Vec<CorpusDelta> = Vec::new();
        deltas.push(CorpusDelta { path, add: true, remove: Vec::new() });
        deltas
    }
}

} // verus!
