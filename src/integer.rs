use vstd::prelude::*;
use crate::mutator::{arbitrary_values, Mutator, COMPLEXITY_UNIT};
use crate::random::random_u64_between;

verus! {

/// The `step`-th offset of the walk through `low..=high` that visits the
/// midpoint first, then the midpoints of the upper and lower halves in turn.
pub open spec fn schedule(low: int, high: int, step: int) -> int
    decreases high - low,
{
    if high <= low {
        low
    } else if low + 1 == high {
        if step % 2 == 0 {
            high
        } else {
            low
        }
    } else {
        let next = low + (high - low) / 2;
        if step == 0 {
            next
        } else if step % 2 == 1 {
            schedule(next + 1, high, step / 2)
        } else {
            schedule(low, next - 1, (step - 1) / 2)
        }
    }
}

/// The walk stays within its range.
pub proof fn lemma_schedule_in_range(low: int, high: int, step: int)
    requires
        low <= high,
        0 <= step,
    ensures
        low <= schedule(low, high, step) <= high,
    decreases high - low,
{
    if low + 1 < high {
        let next = low + (high - low) / 2;
        if step != 0 {
            if step % 2 == 1 {
                lemma_schedule_in_range(next + 1, high, step / 2);
            } else {
                lemma_schedule_in_range(low, next - 1, (step - 1) / 2);
            }
        }
    }
}

/// The first `high - low + 1` steps of the walk visit pairwise distinct values.
pub proof fn lemma_schedule_injective(low: int, high: int, s1: int, s2: int)
    requires
        low <= high,
        0 <= s1 <= high - low,
        0 <= s2 <= high - low,
        s1 != s2,
    ensures
        schedule(low, high, s1) != schedule(low, high, s2),
    decreases high - low,
{
    if low + 1 < high {
        let next = low + (high - low) / 2;
        if s1 != 0 {
            if s1 % 2 == 1 {
                lemma_schedule_in_range(next + 1, high, s1 / 2);
            } else {
                lemma_schedule_in_range(low, next - 1, (s1 - 1) / 2);
            }
        }
        if s2 != 0 {
            if s2 % 2 == 1 {
                lemma_schedule_in_range(next + 1, high, s2 / 2);
            } else {
                lemma_schedule_in_range(low, next - 1, (s2 - 1) / 2);
            }
        }
        if s1 != 0 && s2 != 0 {
            if s1 % 2 == 1 && s2 % 2 == 1 {
                lemma_schedule_injective(next + 1, high, s1 / 2, s2 / 2);
            } else if s1 % 2 == 0 && s2 % 2 == 0 {
                lemma_schedule_injective(low, next - 1, (s1 - 1) / 2, (s2 - 1) / 2);
            }
        }
    }
}

/// The `step`-th value of the walk through `low..=high` (see `schedule`).
pub fn binary_search_arbitrary(low: u64, high: u64, step: u64) -> (r: u64)
    requires
        low <= high,
    ensures
        r == schedule(low as int, high as int, step as int),
    decreases high - low,
{
    if high <= low {
        low
    } else if low + 1 == high {
        if step % 2 == 0 {
            high
        } else {
            low
        }
    } else {
        let next = low + (high - low) / 2;
        if step == 0 {
            next
        } else if step % 2 == 1 {
            binary_search_arbitrary(next + 1, high, step / 2)
        } else {
            binary_search_arbitrary(low, next - 1, (step - 1) / 2)
        }
    }
}

/// The step after `step`, starting over after the largest.
pub open spec fn next_step(step: u64) -> u64 {
    if step == 0xffff_ffff_ffff_ffff {
        0
    } else {
        (step + 1) as u64
    }
}

/// The complexity of every `u8`: its 8 bits.
pub const U8_COMPLEXITY: u64 = 8 * COMPLEXITY_UNIT;

/// A mutator over the `u8` values of an inclusive range.
pub struct U8WithinRangeMutator {
    start_range: u8,
    len_range: u64,
    rng: fastrand::Rng,
}

impl U8WithinRangeMutator {
    /// The smallest value of the range.
    pub closed spec fn start(&self) -> int {
        self.start_range as int
    }

    /// The largest value of the range.
    pub closed spec fn end(&self) -> int {
        self.start_range as int + self.len_range as int
    }

    /// The value that the `step`-th ordered generation or mutation yields.
    pub open spec fn value_at(&self, step: int) -> int {
        self.start() + schedule(0, self.end() - self.start(), step)
    }

    /// A mutator over `start..=end`, which must not be empty.
    pub fn new(start: u8, end: u8) -> (r: Self)
        requires
            start <= end,
        ensures
            r.wf(),
            r.start() == start,
            r.end() == end,
    {
        U8WithinRangeMutator {
            start_range: start,
            len_range: (end as i128 - start as i128) as u64,
            rng: fastrand::Rng::new(),
        }
    }

    /// The value `offset` above the start of the range, which the offset
    /// must not leave.
    pub fn offset_value(&self, offset: u64) -> (r: u8)
        requires
            offset <= self.end() - self.start(),
            self.end() <= 255,
        ensures
            r == self.start() + offset,
    {
        (self.start_range as i128 + offset as i128) as u8
    }

    fn scheduled(&self, step: u64) -> (r: u8)
        requires
            step <= self.len_range,
            self.end() <= 255,
        ensures
            r == self.value_at(step as int),
            self.start() <= r <= self.end(),
    {
        proof {
            lemma_schedule_in_range(0, self.len_range as int, step as int);
        }
        let offset = binary_search_arbitrary(0, self.len_range, step);
        self.offset_value(offset)
    }
}

impl Mutator<u8> for U8WithinRangeMutator {
    type Cache = ();
    type MutationStep = u64;
    type ArbitraryStep = u64;
    type UnmutateToken = u8;

    open spec fn wf(&self) -> bool {
        self.start() <= self.end() <= 255
    }

    open spec fn accepts(&self, v: u8) -> bool {
        self.start() <= v <= self.end()
    }

    open spec fn cache_of(&self, v: u8) -> () {
        ()
    }

    open spec fn cplx_of(&self, v: u8) -> u64 {
        U8_COMPLEXITY
    }

    open spec fn min_cplx(&self) -> u64 {
        U8_COMPLEXITY
    }

    open spec fn max_cplx(&self) -> u64 {
        U8_COMPLEXITY
    }

    open spec fn undo(&self, v: u8, c: (), t: u8) -> (u8, ()) {
        (t, ())
    }

    open spec fn mutate_next(&self, v: u8, step: u64, max_cplx: u64) -> Option<(u8, u64)> {
        if max_cplx < U8_COMPLEXITY || step > self.end() - self.start() {
            None
        } else {
            Some((self.value_at(step as int) as u8, next_step(step)))
        }
    }

    open spec fn arbitrary_next(&self, step: u64, max_cplx: u64) -> Option<(u8, u64)> {
        if max_cplx < U8_COMPLEXITY || step > self.end() - self.start() {
            None
        } else {
            Some((self.value_at(step as int) as u8, next_step(step)))
        }
    }

    open spec fn initial_arbitrary_step(&self) -> u64 {
        0
    }

    open spec fn initial_mutation_step(&self, v: u8) -> u64 {
        0
    }

    proof fn lemma_cplx_bounds(&self, v: u8) {
    }

    fn default_arbitrary_step(&self) -> (r: u64) {
        0
    }

    fn validate_value(&self, v: &u8) -> (r: Option<()>) {
        if self.start_range <= *v && (*v as i128 - self.start_range as i128) <= self.len_range as i128 {
            Some(())
        } else {
            None
        }
    }

    fn default_mutation_step(&self, v: &u8, c: &()) -> (r: u64) {
        0
    }

    fn max_complexity(&self) -> (r: u64) {
        U8_COMPLEXITY
    }

    fn min_complexity(&self) -> (r: u64) {
        U8_COMPLEXITY
    }

    fn complexity(&self, v: &u8, c: &()) -> (r: u64) {
        U8_COMPLEXITY
    }

    fn ordered_arbitrary(&self, step: &mut u64, max_cplx: u64) -> (r: Option<(u8, u64)>) {
        if max_cplx < U8_COMPLEXITY || *step > self.len_range {
            return None;
        }
        let v = self.scheduled(*step);
        *step = step.wrapping_add(1);
        Some((v, U8_COMPLEXITY))
    }

    fn random_arbitrary(&self, max_cplx: u64) -> (r: (u8, u64)) {
        let offset = random_u64_between(&self.rng, 0, self.len_range);
        (self.offset_value(offset), U8_COMPLEXITY)
    }

    fn ordered_mutate(&self, v: &mut u8, c: &mut (), step: &mut u64, max_cplx: u64) -> (r: Option<
        (u8, u64),
    >) {
        if max_cplx < U8_COMPLEXITY || *step > self.len_range {
            return None;
        }
        let token = *v;
        *v = self.scheduled(*step);
        *step = step.wrapping_add(1);
        Some((token, U8_COMPLEXITY))
    }

    fn random_mutate(&self, v: &mut u8, c: &mut (), max_cplx: u64) -> (r: (u8, u64)) {
        let token = *v;
        let offset = random_u64_between(&self.rng, 0, self.len_range);
        *v = self.offset_value(offset);
        (token, U8_COMPLEXITY)
    }

    fn unmutate(&self, v: &mut u8, c: &mut (), t: u8) {
        *v = t;
    }
}

/// The complexity of every `u16`: its 16 bits.
pub const U16_COMPLEXITY: u64 = 16 * COMPLEXITY_UNIT;

/// A mutator over the `u16` values of an inclusive range.
pub struct U16WithinRangeMutator {
    start_range: u16,
    len_range: u64,
    rng: fastrand::Rng,
}

impl U16WithinRangeMutator {
    /// The smallest value of the range.
    pub closed spec fn start(&self) -> int {
        self.start_range as int
    }

    /// The largest value of the range.
    pub closed spec fn end(&self) -> int {
        self.start_range as int + self.len_range as int
    }

    /// The value that the `step`-th ordered generation or mutation yields.
    pub open spec fn value_at(&self, step: int) -> int {
        self.start() + schedule(0, self.end() - self.start(), step)
    }

    /// A mutator over `start..=end`, which must not be empty.
    pub fn new(start: u16, end: u16) -> (r: Self)
        requires
            start <= end,
        ensures
            r.wf(),
            r.start() == start,
            r.end() == end,
    {
        U16WithinRangeMutator {
            start_range: start,
            len_range: (end as i128 - start as i128) as u64,
            rng: fastrand::Rng::new(),
        }
    }

    /// The value `offset` above the start of the range, which the offset
    /// must not leave.
    pub fn offset_value(&self, offset: u64) -> (r: u16)
        requires
            offset <= self.end() - self.start(),
            self.end() <= 0xffff,
        ensures
            r == self.start() + offset,
    {
        (self.start_range as i128 + offset as i128) as u16
    }

    fn scheduled(&self, step: u64) -> (r: u16)
        requires
            step <= self.len_range,
            self.end() <= 0xffff,
        ensures
            r == self.value_at(step as int),
            self.start() <= r <= self.end(),
    {
        proof {
            lemma_schedule_in_range(0, self.len_range as int, step as int);
        }
        let offset = binary_search_arbitrary(0, self.len_range, step);
        self.offset_value(offset)
    }
}

impl Mutator<u16> for U16WithinRangeMutator {
    type Cache = ();
    type MutationStep = u64;
    type ArbitraryStep = u64;
    type UnmutateToken = u16;

    open spec fn wf(&self) -> bool {
        self.start() <= self.end() <= 0xffff
    }

    open spec fn accepts(&self, v: u16) -> bool {
        self.start() <= v <= self.end()
    }

    open spec fn cache_of(&self, v: u16) -> () {
        ()
    }

    open spec fn cplx_of(&self, v: u16) -> u64 {
        U16_COMPLEXITY
    }

    open spec fn min_cplx(&self) -> u64 {
        U16_COMPLEXITY
    }

    open spec fn max_cplx(&self) -> u64 {
        U16_COMPLEXITY
    }

    open spec fn undo(&self, v: u16, c: (), t: u16) -> (u16, ()) {
        (t, ())
    }

    open spec fn mutate_next(&self, v: u16, step: u64, max_cplx: u64) -> Option<(u16, u64)> {
        if max_cplx < U16_COMPLEXITY || step > self.end() - self.start() {
            None
        } else {
            Some((self.value_at(step as int) as u16, next_step(step)))
        }
    }

    open spec fn arbitrary_next(&self, step: u64, max_cplx: u64) -> Option<(u16, u64)> {
        if max_cplx < U16_COMPLEXITY || step > self.end() - self.start() {
            None
        } else {
            Some((self.value_at(step as int) as u16, next_step(step)))
        }
    }

    open spec fn initial_arbitrary_step(&self) -> u64 {
        0
    }

    open spec fn initial_mutation_step(&self, v: u16) -> u64 {
        0
    }

    proof fn lemma_cplx_bounds(&self, v: u16) {
    }

    fn default_arbitrary_step(&self) -> (r: u64) {
        0
    }

    fn validate_value(&self, v: &u16) -> (r: Option<()>) {
        if self.start_range <= *v && (*v as i128 - self.start_range as i128) <= self.len_range as i128 {
            Some(())
        } else {
            None
        }
    }

    fn default_mutation_step(&self, v: &u16, c: &()) -> (r: u64) {
        0
    }

    fn max_complexity(&self) -> (r: u64) {
        U16_COMPLEXITY
    }

    fn min_complexity(&self) -> (r: u64) {
        U16_COMPLEXITY
    }

    fn complexity(&self, v: &u16, c: &()) -> (r: u64) {
        U16_COMPLEXITY
    }

    fn ordered_arbitrary(&self, step: &mut u64, max_cplx: u64) -> (r: Option<(u16, u64)>) {
        if max_cplx < U16_COMPLEXITY || *step > self.len_range {
            return None;
        }
        let v = self.scheduled(*step);
        *step = step.wrapping_add(1);
        Some((v, U16_COMPLEXITY))
    }

    fn random_arbitrary(&self, max_cplx: u64) -> (r: (u16, u64)) {
        let offset = random_u64_between(&self.rng, 0, self.len_range);
        (self.offset_value(offset), U16_COMPLEXITY)
    }

    fn ordered_mutate(&self, v: &mut u16, c: &mut (), step: &mut u64, max_cplx: u64) -> (r: Option<
        (u16, u64),
    >) {
        if max_cplx < U16_COMPLEXITY || *step > self.len_range {
            return None;
        }
        let token = *v;
        *v = self.scheduled(*step);
        *step = step.wrapping_add(1);
        Some((token, U16_COMPLEXITY))
    }

    fn random_mutate(&self, v: &mut u16, c: &mut (), max_cplx: u64) -> (r: (u16, u64)) {
        let token = *v;
        let offset = random_u64_between(&self.rng, 0, self.len_range);
        *v = self.offset_value(offset);
        (token, U16_COMPLEXITY)
    }

    fn unmutate(&self, v: &mut u16, c: &mut (), t: u16) {
        *v = t;
    }
}

/// The complexity of every `u32`: its 32 bits.
pub const U32_COMPLEXITY: u64 = 32 * COMPLEXITY_UNIT;

/// A mutator over the `u32` values of an inclusive range.
pub struct U32WithinRangeMutator {
    start_range: u32,
    len_range: u64,
    rng: fastrand::Rng,
}

impl U32WithinRangeMutator {
    /// The smallest value of the range.
    pub closed spec fn start(&self) -> int {
        self.start_range as int
    }

    /// The largest value of the range.
    pub closed spec fn end(&self) -> int {
        self.start_range as int + self.len_range as int
    }

    /// The value that the `step`-th ordered generation or mutation yields.
    pub open spec fn value_at(&self, step: int) -> int {
        self.start() + schedule(0, self.end() - self.start(), step)
    }

    /// A mutator over `start..=end`, which must not be empty.
    pub fn new(start: u32, end: u32) -> (r: Self)
        requires
            start <= end,
        ensures
            r.wf(),
            r.start() == start,
            r.end() == end,
    {
        U32WithinRangeMutator {
            start_range: start,
            len_range: (end as i128 - start as i128) as u64,
            rng: fastrand::Rng::new(),
        }
    }

    /// The value `offset` above the start of the range, which the offset
    /// must not leave.
    pub fn offset_value(&self, offset: u64) -> (r: u32)
        requires
            offset <= self.end() - self.start(),
            self.end() <= 0xffff_ffff,
        ensures
            r == self.start() + offset,
    {
        (self.start_range as i128 + offset as i128) as u32
    }

    fn scheduled(&self, step: u64) -> (r: u32)
        requires
            step <= self.len_range,
            self.end() <= 0xffff_ffff,
        ensures
            r == self.value_at(step as int),
            self.start() <= r <= self.end(),
    {
        proof {
            lemma_schedule_in_range(0, self.len_range as int, step as int);
        }
        let offset = binary_search_arbitrary(0, self.len_range, step);
        self.offset_value(offset)
    }
}

impl Mutator<u32> for U32WithinRangeMutator {
    type Cache = ();
    type MutationStep = u64;
    type ArbitraryStep = u64;
    type UnmutateToken = u32;

    open spec fn wf(&self) -> bool {
        self.start() <= self.end() <= 0xffff_ffff
    }

    open spec fn accepts(&self, v: u32) -> bool {
        self.start() <= v <= self.end()
    }

    open spec fn cache_of(&self, v: u32) -> () {
        ()
    }

    open spec fn cplx_of(&self, v: u32) -> u64 {
        U32_COMPLEXITY
    }

    open spec fn min_cplx(&self) -> u64 {
        U32_COMPLEXITY
    }

    open spec fn max_cplx(&self) -> u64 {
        U32_COMPLEXITY
    }

    open spec fn undo(&self, v: u32, c: (), t: u32) -> (u32, ()) {
        (t, ())
    }

    open spec fn mutate_next(&self, v: u32, step: u64, max_cplx: u64) -> Option<(u32, u64)> {
        if max_cplx < U32_COMPLEXITY || step > self.end() - self.start() {
            None
        } else {
            Some((self.value_at(step as int) as u32, next_step(step)))
        }
    }

    open spec fn arbitrary_next(&self, step: u64, max_cplx: u64) -> Option<(u32, u64)> {
        if max_cplx < U32_COMPLEXITY || step > self.end() - self.start() {
            None
        } else {
            Some((self.value_at(step as int) as u32, next_step(step)))
        }
    }

    open spec fn initial_arbitrary_step(&self) -> u64 {
        0
    }

    open spec fn initial_mutation_step(&self, v: u32) -> u64 {
        0
    }

    proof fn lemma_cplx_bounds(&self, v: u32) {
    }

    fn default_arbitrary_step(&self) -> (r: u64) {
        0
    }

    fn validate_value(&self, v: &u32) -> (r: Option<()>) {
        if self.start_range <= *v && (*v as i128 - self.start_range as i128) <= self.len_range as i128 {
            Some(())
        } else {
            None
        }
    }

    fn default_mutation_step(&self, v: &u32, c: &()) -> (r: u64) {
        0
    }

    fn max_complexity(&self) -> (r: u64) {
        U32_COMPLEXITY
    }

    fn min_complexity(&self) -> (r: u64) {
        U32_COMPLEXITY
    }

    fn complexity(&self, v: &u32, c: &()) -> (r: u64) {
        U32_COMPLEXITY
    }

    fn ordered_arbitrary(&self, step: &mut u64, max_cplx: u64) -> (r: Option<(u32, u64)>) {
        if max_cplx < U32_COMPLEXITY || *step > self.len_range {
            return None;
        }
        let v = self.scheduled(*step);
        *step = step.wrapping_add(1);
        Some((v, U32_COMPLEXITY))
    }

    fn random_arbitrary(&self, max_cplx: u64) -> (r: (u32, u64)) {
        let offset = random_u64_between(&self.rng, 0, self.len_range);
        (self.offset_value(offset), U32_COMPLEXITY)
    }

    fn ordered_mutate(&self, v: &mut u32, c: &mut (), step: &mut u64, max_cplx: u64) -> (r: Option<
        (u32, u64),
    >) {
        if max_cplx < U32_COMPLEXITY || *step > self.len_range {
            return None;
        }
        let token = *v;
        *v = self.scheduled(*step);
        *step = step.wrapping_add(1);
        Some((token, U32_COMPLEXITY))
    }

    fn random_mutate(&self, v: &mut u32, c: &mut (), max_cplx: u64) -> (r: (u32, u64)) {
        let token = *v;
        let offset = random_u64_between(&self.rng, 0, self.len_range);
        *v = self.offset_value(offset);
        (token, U32_COMPLEXITY)
    }

    fn unmutate(&self, v: &mut u32, c: &mut (), t: u32) {
        *v = t;
    }
}

/// The complexity of every `u64`: its 64 bits.
pub const U64_COMPLEXITY: u64 = 64 * COMPLEXITY_UNIT;

/// A mutator over the `u64` values of an inclusive range.
pub struct U64WithinRangeMutator {
    start_range: u64,
    len_range: u64,
    rng: fastrand::Rng,
}

impl U64WithinRangeMutator {
    /// The smallest value of the range.
    pub closed spec fn start(&self) -> int {
        self.start_range as int
    }

    /// The largest value of the range.
    pub closed spec fn end(&self) -> int {
        self.start_range as int + self.len_range as int
    }

    /// The value that the `step`-th ordered generation or mutation yields.
    pub open spec fn value_at(&self, step: int) -> int {
        self.start() + schedule(0, self.end() - self.start(), step)
    }

    /// A mutator over `start..=end`, which must not be empty.
    pub fn new(start: u64, end: u64) -> (r: Self)
        requires
            start <= end,
        ensures
            r.wf(),
            r.start() == start,
            r.end() == end,
    {
        U64WithinRangeMutator {
            start_range: start,
            len_range: (end as i128 - start as i128) as u64,
            rng: fastrand::Rng::new(),
        }
    }

    /// The value `offset` above the start of the range, which the offset
    /// must not leave.
    pub fn offset_value(&self, offset: u64) -> (r: u64)
        requires
            offset <= self.end() - self.start(),
            self.end() <= 0xffff_ffff_ffff_ffff,
        ensures
            r == self.start() + offset,
    {
        (self.start_range as i128 + offset as i128) as u64
    }

    fn scheduled(&self, step: u64) -> (r: u64)
        requires
            step <= self.len_range,
            self.end() <= 0xffff_ffff_ffff_ffff,
        ensures
            r == self.value_at(step as int),
            self.start() <= r <= self.end(),
    {
        proof {
            lemma_schedule_in_range(0, self.len_range as int, step as int);
        }
        let offset = binary_search_arbitrary(0, self.len_range, step);
        self.offset_value(offset)
    }
}

impl Mutator<u64> for U64WithinRangeMutator {
    type Cache = ();
    type MutationStep = u64;
    type ArbitraryStep = u64;
    type UnmutateToken = u64;

    open spec fn wf(&self) -> bool {
        self.start() <= self.end() <= 0xffff_ffff_ffff_ffff
    }

    open spec fn accepts(&self, v: u64) -> bool {
        self.start() <= v <= self.end()
    }

    open spec fn cache_of(&self, v: u64) -> () {
        ()
    }

    open spec fn cplx_of(&self, v: u64) -> u64 {
        U64_COMPLEXITY
    }

    open spec fn min_cplx(&self) -> u64 {
        U64_COMPLEXITY
    }

    open spec fn max_cplx(&self) -> u64 {
        U64_COMPLEXITY
    }

    open spec fn undo(&self, v: u64, c: (), t: u64) -> (u64, ()) {
        (t, ())
    }

    open spec fn mutate_next(&self, v: u64, step: u64, max_cplx: u64) -> Option<(u64, u64)> {
        if max_cplx < U64_COMPLEXITY || step > self.end() - self.start() {
            None
        } else {
            Some((self.value_at(step as int) as u64, next_step(step)))
        }
    }

    open spec fn arbitrary_next(&self, step: u64, max_cplx: u64) -> Option<(u64, u64)> {
        if max_cplx < U64_COMPLEXITY || step > self.end() - self.start() {
            None
        } else {
            Some((self.value_at(step as int) as u64, next_step(step)))
        }
    }

    open spec fn initial_arbitrary_step(&self) -> u64 {
        0
    }

    open spec fn initial_mutation_step(&self, v: u64) -> u64 {
        0
    }

    proof fn lemma_cplx_bounds(&self, v: u64) {
    }

    fn default_arbitrary_step(&self) -> (r: u64) {
        0
    }

    fn validate_value(&self, v: &u64) -> (r: Option<()>) {
        if self.start_range <= *v && (*v as i128 - self.start_range as i128) <= self.len_range as i128 {
            Some(())
        } else {
            None
        }
    }

    fn default_mutation_step(&self, v: &u64, c: &()) -> (r: u64) {
        0
    }

    fn max_complexity(&self) -> (r: u64) {
        U64_COMPLEXITY
    }

    fn min_complexity(&self) -> (r: u64) {
        U64_COMPLEXITY
    }

    fn complexity(&self, v: &u64, c: &()) -> (r: u64) {
        U64_COMPLEXITY
    }

    fn ordered_arbitrary(&self, step: &mut u64, max_cplx: u64) -> (r: Option<(u64, u64)>) {
        if max_cplx < U64_COMPLEXITY || *step > self.len_range {
            return None;
        }
        let v = self.scheduled(*step);
        *step = step.wrapping_add(1);
        Some((v, U64_COMPLEXITY))
    }

    fn random_arbitrary(&self, max_cplx: u64) -> (r: (u64, u64)) {
        let offset = random_u64_between(&self.rng, 0, self.len_range);
        (self.offset_value(offset), U64_COMPLEXITY)
    }

    fn ordered_mutate(&self, v: &mut u64, c: &mut (), step: &mut u64, max_cplx: u64) -> (r: Option<
        (u64, u64),
    >) {
        if max_cplx < U64_COMPLEXITY || *step > self.len_range {
            return None;
        }
        let token = *v;
        *v = self.scheduled(*step);
        *step = step.wrapping_add(1);
        Some((token, U64_COMPLEXITY))
    }

    fn random_mutate(&self, v: &mut u64, c: &mut (), max_cplx: u64) -> (r: (u64, u64)) {
        let token = *v;
        let offset = random_u64_between(&self.rng, 0, self.len_range);
        *v = self.offset_value(offset);
        (token, U64_COMPLEXITY)
    }

    fn unmutate(&self, v: &mut u64, c: &mut (), t: u64) {
        *v = t;
    }
}

/// The complexity of every `i8`: its 8 bits.
pub const I8_COMPLEXITY: u64 = 8 * COMPLEXITY_UNIT;

/// A mutator over the `i8` values of an inclusive range.
pub struct I8WithinRangeMutator {
    start_range: i8,
    len_range: u64,
    rng: fastrand::Rng,
}

impl I8WithinRangeMutator {
    /// The smallest value of the range.
    pub closed spec fn start(&self) -> int {
        self.start_range as int
    }

    /// The largest value of the range.
    pub closed spec fn end(&self) -> int {
        self.start_range as int + self.len_range as int
    }

    /// The value that the `step`-th ordered generation or mutation yields.
    pub open spec fn value_at(&self, step: int) -> int {
        self.start() + schedule(0, self.end() - self.start(), step)
    }

    /// A mutator over `start..=end`, which must not be empty.
    pub fn new(start: i8, end: i8) -> (r: Self)
        requires
            start <= end,
        ensures
            r.wf(),
            r.start() == start,
            r.end() == end,
    {
        I8WithinRangeMutator {
            start_range: start,
            len_range: (end as i128 - start as i128) as u64,
            rng: fastrand::Rng::new(),
        }
    }

    /// The value `offset` above the start of the range, which the offset
    /// must not leave.
    pub fn offset_value(&self, offset: u64) -> (r: i8)
        requires
            offset <= self.end() - self.start(),
            self.end() <= 127,
        ensures
            r == self.start() + offset,
    {
        (self.start_range as i128 + offset as i128) as i8
    }

    fn scheduled(&self, step: u64) -> (r: i8)
        requires
            step <= self.len_range,
            self.end() <= 127,
        ensures
            r == self.value_at(step as int),
            self.start() <= r <= self.end(),
    {
        proof {
            lemma_schedule_in_range(0, self.len_range as int, step as int);
        }
        let offset = binary_search_arbitrary(0, self.len_range, step);
        self.offset_value(offset)
    }
}

impl Mutator<i8> for I8WithinRangeMutator {
    type Cache = ();
    type MutationStep = u64;
    type ArbitraryStep = u64;
    type UnmutateToken = i8;

    open spec fn wf(&self) -> bool {
        self.start() <= self.end() <= 127
    }

    open spec fn accepts(&self, v: i8) -> bool {
        self.start() <= v <= self.end()
    }

    open spec fn cache_of(&self, v: i8) -> () {
        ()
    }

    open spec fn cplx_of(&self, v: i8) -> u64 {
        I8_COMPLEXITY
    }

    open spec fn min_cplx(&self) -> u64 {
        I8_COMPLEXITY
    }

    open spec fn max_cplx(&self) -> u64 {
        I8_COMPLEXITY
    }

    open spec fn undo(&self, v: i8, c: (), t: i8) -> (i8, ()) {
        (t, ())
    }

    open spec fn mutate_next(&self, v: i8, step: u64, max_cplx: u64) -> Option<(i8, u64)> {
        if max_cplx < I8_COMPLEXITY || step > self.end() - self.start() {
            None
        } else {
            Some((self.value_at(step as int) as i8, next_step(step)))
        }
    }

    open spec fn arbitrary_next(&self, step: u64, max_cplx: u64) -> Option<(i8, u64)> {
        if max_cplx < I8_COMPLEXITY || step > self.end() - self.start() {
            None
        } else {
            Some((self.value_at(step as int) as i8, next_step(step)))
        }
    }

    open spec fn initial_arbitrary_step(&self) -> u64 {
        0
    }

    open spec fn initial_mutation_step(&self, v: i8) -> u64 {
        0
    }

    proof fn lemma_cplx_bounds(&self, v: i8) {
    }

    fn default_arbitrary_step(&self) -> (r: u64) {
        0
    }

    fn validate_value(&self, v: &i8) -> (r: Option<()>) {
        if self.start_range <= *v && (*v as i128 - self.start_range as i128) <= self.len_range as i128 {
            Some(())
        } else {
            None
        }
    }

    fn default_mutation_step(&self, v: &i8, c: &()) -> (r: u64) {
        0
    }

    fn max_complexity(&self) -> (r: u64) {
        I8_COMPLEXITY
    }

    fn min_complexity(&self) -> (r: u64) {
        I8_COMPLEXITY
    }

    fn complexity(&self, v: &i8, c: &()) -> (r: u64) {
        I8_COMPLEXITY
    }

    fn ordered_arbitrary(&self, step: &mut u64, max_cplx: u64) -> (r: Option<(i8, u64)>) {
        if max_cplx < I8_COMPLEXITY || *step > self.len_range {
            return None;
        }
        let v = self.scheduled(*step);
        *step = step.wrapping_add(1);
        Some((v, I8_COMPLEXITY))
    }

    fn random_arbitrary(&self, max_cplx: u64) -> (r: (i8, u64)) {
        let offset = random_u64_between(&self.rng, 0, self.len_range);
        (self.offset_value(offset), I8_COMPLEXITY)
    }

    fn ordered_mutate(&self, v: &mut i8, c: &mut (), step: &mut u64, max_cplx: u64) -> (r: Option<
        (i8, u64),
    >) {
        if max_cplx < I8_COMPLEXITY || *step > self.len_range {
            return None;
        }
        let token = *v;
        *v = self.scheduled(*step);
        *step = step.wrapping_add(1);
        Some((token, I8_COMPLEXITY))
    }

    fn random_mutate(&self, v: &mut i8, c: &mut (), max_cplx: u64) -> (r: (i8, u64)) {
        let token = *v;
        let offset = random_u64_between(&self.rng, 0, self.len_range);
        *v = self.offset_value(offset);
        (token, I8_COMPLEXITY)
    }

    fn unmutate(&self, v: &mut i8, c: &mut (), t: i8) {
        *v = t;
    }
}

/// The complexity of every `i16`: its 16 bits.
pub const I16_COMPLEXITY: u64 = 16 * COMPLEXITY_UNIT;

/// A mutator over the `i16` values of an inclusive range.
pub struct I16WithinRangeMutator {
    start_range: i16,
    len_range: u64,
    rng: fastrand::Rng,
}

impl I16WithinRangeMutator {
    /// The smallest value of the range.
    pub closed spec fn start(&self) -> int {
        self.start_range as int
    }

    /// The largest value of the range.
    pub closed spec fn end(&self) -> int {
        self.start_range as int + self.len_range as int
    }

    /// The value that the `step`-th ordered generation or mutation yields.
    pub open spec fn value_at(&self, step: int) -> int {
        self.start() + schedule(0, self.end() - self.start(), step)
    }

    /// A mutator over `start..=end`, which must not be empty.
    pub fn new(start: i16, end: i16) -> (r: Self)
        requires
            start <= end,
        ensures
            r.wf(),
            r.start() == start,
            r.end() == end,
    {
        I16WithinRangeMutator {
            start_range: start,
            len_range: (end as i128 - start as i128) as u64,
            rng: fastrand::Rng::new(),
        }
    }

    /// The value `offset` above the start of the range, which the offset
    /// must not leave.
    pub fn offset_value(&self, offset: u64) -> (r: i16)
        requires
            offset <= self.end() - self.start(),
            self.end() <= 0x7fff,
        ensures
            r == self.start() + offset,
    {
        (self.start_range as i128 + offset as i128) as i16
    }

    fn scheduled(&self, step: u64) -> (r: i16)
        requires
            step <= self.len_range,
            self.end() <= 0x7fff,
        ensures
            r == self.value_at(step as int),
            self.start() <= r <= self.end(),
    {
        proof {
            lemma_schedule_in_range(0, self.len_range as int, step as int);
        }
        let offset = binary_search_arbitrary(0, self.len_range, step);
        self.offset_value(offset)
    }
}

impl Mutator<i16> for I16WithinRangeMutator {
    type Cache = ();
    type MutationStep = u64;
    type ArbitraryStep = u64;
    type UnmutateToken = i16;

    open spec fn wf(&self) -> bool {
        self.start() <= self.end() <= 0x7fff
    }

    open spec fn accepts(&self, v: i16) -> bool {
        self.start() <= v <= self.end()
    }

    open spec fn cache_of(&self, v: i16) -> () {
        ()
    }

    open spec fn cplx_of(&self, v: i16) -> u64 {
        I16_COMPLEXITY
    }

    open spec fn min_cplx(&self) -> u64 {
        I16_COMPLEXITY
    }

    open spec fn max_cplx(&self) -> u64 {
        I16_COMPLEXITY
    }

    open spec fn undo(&self, v: i16, c: (), t: i16) -> (i16, ()) {
        (t, ())
    }

    open spec fn mutate_next(&self, v: i16, step: u64, max_cplx: u64) -> Option<(i16, u64)> {
        if max_cplx < I16_COMPLEXITY || step > self.end() - self.start() {
            None
        } else {
            Some((self.value_at(step as int) as i16, next_step(step)))
        }
    }

    open spec fn arbitrary_next(&self, step: u64, max_cplx: u64) -> Option<(i16, u64)> {
        if max_cplx < I16_COMPLEXITY || step > self.end() - self.start() {
            None
        } else {
            Some((self.value_at(step as int) as i16, next_step(step)))
        }
    }

    open spec fn initial_arbitrary_step(&self) -> u64 {
        0
    }

    open spec fn initial_mutation_step(&self, v: i16) -> u64 {
        0
    }

    proof fn lemma_cplx_bounds(&self, v: i16) {
    }

    fn default_arbitrary_step(&self) -> (r: u64) {
        0
    }

    fn validate_value(&self, v: &i16) -> (r: Option<()>) {
        if self.start_range <= *v && (*v as i128 - self.start_range as i128) <= self.len_range as i128 {
            Some(())
        } else {
            None
        }
    }

    fn default_mutation_step(&self, v: &i16, c: &()) -> (r: u64) {
        0
    }

    fn max_complexity(&self) -> (r: u64) {
        I16_COMPLEXITY
    }

    fn min_complexity(&self) -> (r: u64) {
        I16_COMPLEXITY
    }

    fn complexity(&self, v: &i16, c: &()) -> (r: u64) {
        I16_COMPLEXITY
    }

    fn ordered_arbitrary(&self, step: &mut u64, max_cplx: u64) -> (r: Option<(i16, u64)>) {
        if max_cplx < I16_COMPLEXITY || *step > self.len_range {
            return None;
        }
        let v = self.scheduled(*step);
        *step = step.wrapping_add(1);
        Some((v, I16_COMPLEXITY))
    }

    fn random_arbitrary(&self, max_cplx: u64) -> (r: (i16, u64)) {
        let offset = random_u64_between(&self.rng, 0, self.len_range);
        (self.offset_value(offset), I16_COMPLEXITY)
    }

    fn ordered_mutate(&self, v: &mut i16, c: &mut (), step: &mut u64, max_cplx: u64) -> (r: Option<
        (i16, u64),
    >) {
        if max_cplx < I16_COMPLEXITY || *step > self.len_range {
            return None;
        }
        let token = *v;
        *v = self.scheduled(*step);
        *step = step.wrapping_add(1);
        Some((token, I16_COMPLEXITY))
    }

    fn random_mutate(&self, v: &mut i16, c: &mut (), max_cplx: u64) -> (r: (i16, u64)) {
        let token = *v;
        let offset = random_u64_between(&self.rng, 0, self.len_range);
        *v = self.offset_value(offset);
        (token, I16_COMPLEXITY)
    }

    fn unmutate(&self, v: &mut i16, c: &mut (), t: i16) {
        *v = t;
    }
}

/// The complexity of every `i32`: its 32 bits.
pub const I32_COMPLEXITY: u64 = 32 * COMPLEXITY_UNIT;

/// A mutator over the `i32` values of an inclusive range.
pub struct I32WithinRangeMutator {
    start_range: i32,
    len_range: u64,
    rng: fastrand::Rng,
}

impl I32WithinRangeMutator {
    /// The smallest value of the range.
    pub closed spec fn start(&self) -> int {
        self.start_range as int
    }

    /// The largest value of the range.
    pub closed spec fn end(&self) -> int {
        self.start_range as int + self.len_range as int
    }

    /// The value that the `step`-th ordered generation or mutation yields.
    pub open spec fn value_at(&self, step: int) -> int {
        self.start() + schedule(0, self.end() - self.start(), step)
    }

    /// A mutator over `start..=end`, which must not be empty.
    pub fn new(start: i32, end: i32) -> (r: Self)
        requires
            start <= end,
        ensures
            r.wf(),
            r.start() == start,
            r.end() == end,
    {
        I32WithinRangeMutator {
            start_range: start,
            len_range: (end as i128 - start as i128) as u64,
            rng: fastrand::Rng::new(),
        }
    }

    /// The value `offset` above the start of the range, which the offset
    /// must not leave.
    pub fn offset_value(&self, offset: u64) -> (r: i32)
        requires
            offset <= self.end() - self.start(),
            self.end() <= 0x7fff_ffff,
        ensures
            r == self.start() + offset,
    {
        (self.start_range as i128 + offset as i128) as i32
    }

    fn scheduled(&self, step: u64) -> (r: i32)
        requires
            step <= self.len_range,
            self.end() <= 0x7fff_ffff,
        ensures
            r == self.value_at(step as int),
            self.start() <= r <= self.end(),
    {
        proof {
            lemma_schedule_in_range(0, self.len_range as int, step as int);
        }
        let offset = binary_search_arbitrary(0, self.len_range, step);
        self.offset_value(offset)
    }
}

impl Mutator<i32> for I32WithinRangeMutator {
    type Cache = ();
    type MutationStep = u64;
    type ArbitraryStep = u64;
    type UnmutateToken = i32;

    open spec fn wf(&self) -> bool {
        self.start() <= self.end() <= 0x7fff_ffff
    }

    open spec fn accepts(&self, v: i32) -> bool {
        self.start() <= v <= self.end()
    }

    open spec fn cache_of(&self, v: i32) -> () {
        ()
    }

    open spec fn cplx_of(&self, v: i32) -> u64 {
        I32_COMPLEXITY
    }

    open spec fn min_cplx(&self) -> u64 {
        I32_COMPLEXITY
    }

    open spec fn max_cplx(&self) -> u64 {
        I32_COMPLEXITY
    }

    open spec fn undo(&self, v: i32, c: (), t: i32) -> (i32, ()) {
        (t, ())
    }

    open spec fn mutate_next(&self, v: i32, step: u64, max_cplx: u64) -> Option<(i32, u64)> {
        if max_cplx < I32_COMPLEXITY || step > self.end() - self.start() {
            None
        } else {
            Some((self.value_at(step as int) as i32, next_step(step)))
        }
    }

    open spec fn arbitrary_next(&self, step: u64, max_cplx: u64) -> Option<(i32, u64)> {
        if max_cplx < I32_COMPLEXITY || step > self.end() - self.start() {
            None
        } else {
            Some((self.value_at(step as int) as i32, next_step(step)))
        }
    }

    open spec fn initial_arbitrary_step(&self) -> u64 {
        0
    }

    open spec fn initial_mutation_step(&self, v: i32) -> u64 {
        0
    }

    proof fn lemma_cplx_bounds(&self, v: i32) {
    }

    fn default_arbitrary_step(&self) -> (r: u64) {
        0
    }

    fn validate_value(&self, v: &i32) -> (r: Option<()>) {
        if self.start_range <= *v && (*v as i128 - self.start_range as i128) <= self.len_range as i128 {
            Some(())
        } else {
            None
        }
    }

    fn default_mutation_step(&self, v: &i32, c: &()) -> (r: u64) {
        0
    }

    fn max_complexity(&self) -> (r: u64) {
        I32_COMPLEXITY
    }

    fn min_complexity(&self) -> (r: u64) {
        I32_COMPLEXITY
    }

    fn complexity(&self, v: &i32, c: &()) -> (r: u64) {
        I32_COMPLEXITY
    }

    fn ordered_arbitrary(&self, step: &mut u64, max_cplx: u64) -> (r: Option<(i32, u64)>) {
        if max_cplx < I32_COMPLEXITY || *step > self.len_range {
            return None;
        }
        let v = self.scheduled(*step);
        *step = step.wrapping_add(1);
        Some((v, I32_COMPLEXITY))
    }

    fn random_arbitrary(&self, max_cplx: u64) -> (r: (i32, u64)) {
        let offset = random_u64_between(&self.rng, 0, self.len_range);
        (self.offset_value(offset), I32_COMPLEXITY)
    }

    fn ordered_mutate(&self, v: &mut i32, c: &mut (), step: &mut u64, max_cplx: u64) -> (r: Option<
        (i32, u64),
    >) {
        if max_cplx < I32_COMPLEXITY || *step > self.len_range {
            return None;
        }
        let token = *v;
        *v = self.scheduled(*step);
        *step = step.wrapping_add(1);
        Some((token, I32_COMPLEXITY))
    }

    fn random_mutate(&self, v: &mut i32, c: &mut (), max_cplx: u64) -> (r: (i32, u64)) {
        let token = *v;
        let offset = random_u64_between(&self.rng, 0, self.len_range);
        *v = self.offset_value(offset);
        (token, I32_COMPLEXITY)
    }

    fn unmutate(&self, v: &mut i32, c: &mut (), t: i32) {
        *v = t;
    }
}

/// The complexity of every `i64`: its 64 bits.
pub const I64_COMPLEXITY: u64 = 64 * COMPLEXITY_UNIT;

/// A mutator over the `i64` values of an inclusive range.
pub struct I64WithinRangeMutator {
    start_range: i64,
    len_range: u64,
    rng: fastrand::Rng,
}

impl I64WithinRangeMutator {
    /// The smallest value of the range.
    pub closed spec fn start(&self) -> int {
        self.start_range as int
    }

    /// The largest value of the range.
    pub closed spec fn end(&self) -> int {
        self.start_range as int + self.len_range as int
    }

    /// The value that the `step`-th ordered generation or mutation yields.
    pub open spec fn value_at(&self, step: int) -> int {
        self.start() + schedule(0, self.end() - self.start(), step)
    }

    /// A mutator over `start..=end`, which must not be empty.
    pub fn new(start: i64, end: i64) -> (r: Self)
        requires
            start <= end,
        ensures
            r.wf(),
            r.start() == start,
            r.end() == end,
    {
        I64WithinRangeMutator {
            start_range: start,
            len_range: (end as i128 - start as i128) as u64,
            rng: fastrand::Rng::new(),
        }
    }

    /// The value `offset` above the start of the range, which the offset
    /// must not leave.
    pub fn offset_value(&self, offset: u64) -> (r: i64)
        requires
            offset <= self.end() - self.start(),
            self.end() <= 0x7fff_ffff_ffff_ffff,
        ensures
            r == self.start() + offset,
    {
        (self.start_range as i128 + offset as i128) as i64
    }

    fn scheduled(&self, step: u64) -> (r: i64)
        requires
            step <= self.len_range,
            self.end() <= 0x7fff_ffff_ffff_ffff,
        ensures
            r == self.value_at(step as int),
            self.start() <= r <= self.end(),
    {
        proof {
            lemma_schedule_in_range(0, self.len_range as int, step as int);
        }
        let offset = binary_search_arbitrary(0, self.len_range, step);
        self.offset_value(offset)
    }
}

impl Mutator<i64> for I64WithinRangeMutator {
    type Cache = ();
    type MutationStep = u64;
    type ArbitraryStep = u64;
    type UnmutateToken = i64;

    open spec fn wf(&self) -> bool {
        self.start() <= self.end() <= 0x7fff_ffff_ffff_ffff
    }

    open spec fn accepts(&self, v: i64) -> bool {
        self.start() <= v <= self.end()
    }

    open spec fn cache_of(&self, v: i64) -> () {
        ()
    }

    open spec fn cplx_of(&self, v: i64) -> u64 {
        I64_COMPLEXITY
    }

    open spec fn min_cplx(&self) -> u64 {
        I64_COMPLEXITY
    }

    open spec fn max_cplx(&self) -> u64 {
        I64_COMPLEXITY
    }

    open spec fn undo(&self, v: i64, c: (), t: i64) -> (i64, ()) {
        (t, ())
    }

    open spec fn mutate_next(&self, v: i64, step: u64, max_cplx: u64) -> Option<(i64, u64)> {
        if max_cplx < I64_COMPLEXITY || step > self.end() - self.start() {
            None
        } else {
            Some((self.value_at(step as int) as i64, next_step(step)))
        }
    }

    open spec fn arbitrary_next(&self, step: u64, max_cplx: u64) -> Option<(i64, u64)> {
        if max_cplx < I64_COMPLEXITY || step > self.end() - self.start() {
            None
        } else {
            Some((self.value_at(step as int) as i64, next_step(step)))
        }
    }

    open spec fn initial_arbitrary_step(&self) -> u64 {
        0
    }

    open spec fn initial_mutation_step(&self, v: i64) -> u64 {
        0
    }

    proof fn lemma_cplx_bounds(&self, v: i64) {
    }

    fn default_arbitrary_step(&self) -> (r: u64) {
        0
    }

    fn validate_value(&self, v: &i64) -> (r: Option<()>) {
        if self.start_range <= *v && (*v as i128 - self.start_range as i128) <= self.len_range as i128 {
            Some(())
        } else {
            None
        }
    }

    fn default_mutation_step(&self, v: &i64, c: &()) -> (r: u64) {
        0
    }

    fn max_complexity(&self) -> (r: u64) {
        I64_COMPLEXITY
    }

    fn min_complexity(&self) -> (r: u64) {
        I64_COMPLEXITY
    }

    fn complexity(&self, v: &i64, c: &()) -> (r: u64) {
        I64_COMPLEXITY
    }

    fn ordered_arbitrary(&self, step: &mut u64, max_cplx: u64) -> (r: Option<(i64, u64)>) {
        if max_cplx < I64_COMPLEXITY || *step > self.len_range {
            return None;
        }
        let v = self.scheduled(*step);
        *step = step.wrapping_add(1);
        Some((v, I64_COMPLEXITY))
    }

    fn random_arbitrary(&self, max_cplx: u64) -> (r: (i64, u64)) {
        let offset = random_u64_between(&self.rng, 0, self.len_range);
        (self.offset_value(offset), I64_COMPLEXITY)
    }

    fn ordered_mutate(&self, v: &mut i64, c: &mut (), step: &mut u64, max_cplx: u64) -> (r: Option<
        (i64, u64),
    >) {
        if max_cplx < I64_COMPLEXITY || *step > self.len_range {
            return None;
        }
        let token = *v;
        *v = self.scheduled(*step);
        *step = step.wrapping_add(1);
        Some((token, I64_COMPLEXITY))
    }

    fn random_mutate(&self, v: &mut i64, c: &mut (), max_cplx: u64) -> (r: (i64, u64)) {
        let token = *v;
        let offset = random_u64_between(&self.rng, 0, self.len_range);
        *v = self.offset_value(offset);
        (token, I64_COMPLEXITY)
    }

    fn unmutate(&self, v: &mut i64, c: &mut (), t: i64) {
        *v = t;
    }
}

/// Ordered generation of `u8` values moves the step up by one each time,
/// yields pairwise distinct values of the range, and is exhausted after as
/// many values as the range holds.
pub proof fn law_ordered_arbitrary_distinct_u8(
    m: U8WithinRangeMutator,
    s1: u64,
    s2: u64,
    max_cplx: u64,
)
    requires
        m.wf(),
        max_cplx >= U8_COMPLEXITY,
        s1 != s2,
        m.arbitrary_next(s1, max_cplx) is Some,
        m.arbitrary_next(s2, max_cplx) is Some,
    ensures
        m.arbitrary_next(s1, max_cplx).unwrap().0 != m.arbitrary_next(s2, max_cplx).unwrap().0,
        m.arbitrary_next(s1, max_cplx).unwrap().1 == next_step(s1),
        s1 < 0xffff_ffff_ffff_ffff ==> next_step(s1) == s1 + 1,
        s1 <= m.end() - m.start(),
        m.end() - m.start() < 0xffff_ffff_ffff_ffff ==> m.arbitrary_next(
            (m.end() - m.start() + 1) as u64,
            max_cplx,
        ) is None,
{
    lemma_schedule_in_range(0, m.end() - m.start(), s1 as int);
    lemma_schedule_in_range(0, m.end() - m.start(), s2 as int);
    lemma_schedule_injective(0, m.end() - m.start(), s1 as int, s2 as int);
}

/// Ordered generation of `u16` values moves the step up by one each time,
/// yields pairwise distinct values of the range, and is exhausted after as
/// many values as the range holds.
pub proof fn law_ordered_arbitrary_distinct_u16(
    m: U16WithinRangeMutator,
    s1: u64,
    s2: u64,
    max_cplx: u64,
)
    requires
        m.wf(),
        max_cplx >= U16_COMPLEXITY,
        s1 != s2,
        m.arbitrary_next(s1, max_cplx) is Some,
        m.arbitrary_next(s2, max_cplx) is Some,
    ensures
        m.arbitrary_next(s1, max_cplx).unwrap().0 != m.arbitrary_next(s2, max_cplx).unwrap().0,
        m.arbitrary_next(s1, max_cplx).unwrap().1 == next_step(s1),
        s1 < 0xffff_ffff_ffff_ffff ==> next_step(s1) == s1 + 1,
        s1 <= m.end() - m.start(),
        m.end() - m.start() < 0xffff_ffff_ffff_ffff ==> m.arbitrary_next(
            (m.end() - m.start() + 1) as u64,
            max_cplx,
        ) is None,
{
    lemma_schedule_in_range(0, m.end() - m.start(), s1 as int);
    lemma_schedule_in_range(0, m.end() - m.start(), s2 as int);
    lemma_schedule_injective(0, m.end() - m.start(), s1 as int, s2 as int);
}

/// Ordered generation of `u32` values moves the step up by one each time,
/// yields pairwise distinct values of the range, and is exhausted after as
/// many values as the range holds.
pub proof fn law_ordered_arbitrary_distinct_u32(
    m: U32WithinRangeMutator,
    s1: u64,
    s2: u64,
    max_cplx: u64,
)
    requires
        m.wf(),
        max_cplx >= U32_COMPLEXITY,
        s1 != s2,
        m.arbitrary_next(s1, max_cplx) is Some,
        m.arbitrary_next(s2, max_cplx) is Some,
    ensures
        m.arbitrary_next(s1, max_cplx).unwrap().0 != m.arbitrary_next(s2, max_cplx).unwrap().0,
        m.arbitrary_next(s1, max_cplx).unwrap().1 == next_step(s1),
        s1 < 0xffff_ffff_ffff_ffff ==> next_step(s1) == s1 + 1,
        s1 <= m.end() - m.start(),
        m.end() - m.start() < 0xffff_ffff_ffff_ffff ==> m.arbitrary_next(
            (m.end() - m.start() + 1) as u64,
            max_cplx,
        ) is None,
{
    lemma_schedule_in_range(0, m.end() - m.start(), s1 as int);
    lemma_schedule_in_range(0, m.end() - m.start(), s2 as int);
    lemma_schedule_injective(0, m.end() - m.start(), s1 as int, s2 as int);
}

/// Ordered generation of `u64` values moves the step up by one each time,
/// yields pairwise distinct values of the range, and is exhausted after as
/// many values as the range holds.
pub proof fn law_ordered_arbitrary_distinct_u64(
    m: U64WithinRangeMutator,
    s1: u64,
    s2: u64,
    max_cplx: u64,
)
    requires
        m.wf(),
        max_cplx >= U64_COMPLEXITY,
        s1 != s2,
        m.arbitrary_next(s1, max_cplx) is Some,
        m.arbitrary_next(s2, max_cplx) is Some,
    ensures
        m.arbitrary_next(s1, max_cplx).unwrap().0 != m.arbitrary_next(s2, max_cplx).unwrap().0,
        m.arbitrary_next(s1, max_cplx).unwrap().1 == next_step(s1),
        s1 < 0xffff_ffff_ffff_ffff ==> next_step(s1) == s1 + 1,
        s1 <= m.end() - m.start(),
        m.end() - m.start() < 0xffff_ffff_ffff_ffff ==> m.arbitrary_next(
            (m.end() - m.start() + 1) as u64,
            max_cplx,
        ) is None,
{
    lemma_schedule_in_range(0, m.end() - m.start(), s1 as int);
    lemma_schedule_in_range(0, m.end() - m.start(), s2 as int);
    lemma_schedule_injective(0, m.end() - m.start(), s1 as int, s2 as int);
}

/// Ordered generation of `i8` values moves the step up by one each time,
/// yields pairwise distinct values of the range, and is exhausted after as
/// many values as the range holds.
pub proof fn law_ordered_arbitrary_distinct_i8(
    m: I8WithinRangeMutator,
    s1: u64,
    s2: u64,
    max_cplx: u64,
)
    requires
        m.wf(),
        max_cplx >= I8_COMPLEXITY,
        s1 != s2,
        m.arbitrary_next(s1, max_cplx) is Some,
        m.arbitrary_next(s2, max_cplx) is Some,
    ensures
        m.arbitrary_next(s1, max_cplx).unwrap().0 != m.arbitrary_next(s2, max_cplx).unwrap().0,
        m.arbitrary_next(s1, max_cplx).unwrap().1 == next_step(s1),
        s1 < 0xffff_ffff_ffff_ffff ==> next_step(s1) == s1 + 1,
        s1 <= m.end() - m.start(),
        m.end() - m.start() < 0xffff_ffff_ffff_ffff ==> m.arbitrary_next(
            (m.end() - m.start() + 1) as u64,
            max_cplx,
        ) is None,
{
    lemma_schedule_in_range(0, m.end() - m.start(), s1 as int);
    lemma_schedule_in_range(0, m.end() - m.start(), s2 as int);
    lemma_schedule_injective(0, m.end() - m.start(), s1 as int, s2 as int);
}

/// Ordered generation of `i16` values moves the step up by one each time,
/// yields pairwise distinct values of the range, and is exhausted after as
/// many values as the range holds.
pub proof fn law_ordered_arbitrary_distinct_i16(
    m: I16WithinRangeMutator,
    s1: u64,
    s2: u64,
    max_cplx: u64,
)
    requires
        m.wf(),
        max_cplx >= I16_COMPLEXITY,
        s1 != s2,
        m.arbitrary_next(s1, max_cplx) is Some,
        m.arbitrary_next(s2, max_cplx) is Some,
    ensures
        m.arbitrary_next(s1, max_cplx).unwrap().0 != m.arbitrary_next(s2, max_cplx).unwrap().0,
        m.arbitrary_next(s1, max_cplx).unwrap().1 == next_step(s1),
        s1 < 0xffff_ffff_ffff_ffff ==> next_step(s1) == s1 + 1,
        s1 <= m.end() - m.start(),
        m.end() - m.start() < 0xffff_ffff_ffff_ffff ==> m.arbitrary_next(
            (m.end() - m.start() + 1) as u64,
            max_cplx,
        ) is None,
{
    lemma_schedule_in_range(0, m.end() - m.start(), s1 as int);
    lemma_schedule_in_range(0, m.end() - m.start(), s2 as int);
    lemma_schedule_injective(0, m.end() - m.start(), s1 as int, s2 as int);
}

/// Ordered generation of `i32` values moves the step up by one each time,
/// yields pairwise distinct values of the range, and is exhausted after as
/// many values as the range holds.
pub proof fn law_ordered_arbitrary_distinct_i32(
    m: I32WithinRangeMutator,
    s1: u64,
    s2: u64,
    max_cplx: u64,
)
    requires
        m.wf(),
        max_cplx >= I32_COMPLEXITY,
        s1 != s2,
        m.arbitrary_next(s1, max_cplx) is Some,
        m.arbitrary_next(s2, max_cplx) is Some,
    ensures
        m.arbitrary_next(s1, max_cplx).unwrap().0 != m.arbitrary_next(s2, max_cplx).unwrap().0,
        m.arbitrary_next(s1, max_cplx).unwrap().1 == next_step(s1),
        s1 < 0xffff_ffff_ffff_ffff ==> next_step(s1) == s1 + 1,
        s1 <= m.end() - m.start(),
        m.end() - m.start() < 0xffff_ffff_ffff_ffff ==> m.arbitrary_next(
            (m.end() - m.start() + 1) as u64,
            max_cplx,
        ) is None,
{
    lemma_schedule_in_range(0, m.end() - m.start(), s1 as int);
    lemma_schedule_in_range(0, m.end() - m.start(), s2 as int);
    lemma_schedule_injective(0, m.end() - m.start(), s1 as int, s2 as int);
}

/// Ordered generation of `i64` values moves the step up by one each time,
/// yields pairwise distinct values of the range, and is exhausted after as
/// many values as the range holds.
pub proof fn law_ordered_arbitrary_distinct_i64(
    m: I64WithinRangeMutator,
    s1: u64,
    s2: u64,
    max_cplx: u64,
)
    requires
        m.wf(),
        max_cplx >= I64_COMPLEXITY,
        s1 != s2,
        m.arbitrary_next(s1, max_cplx) is Some,
        m.arbitrary_next(s2, max_cplx) is Some,
    ensures
        m.arbitrary_next(s1, max_cplx).unwrap().0 != m.arbitrary_next(s2, max_cplx).unwrap().0,
        m.arbitrary_next(s1, max_cplx).unwrap().1 == next_step(s1),
        s1 < 0xffff_ffff_ffff_ffff ==> next_step(s1) == s1 + 1,
        s1 <= m.end() - m.start(),
        m.end() - m.start() < 0xffff_ffff_ffff_ffff ==> m.arbitrary_next(
            (m.end() - m.start() + 1) as u64,
            max_cplx,
        ) is None,
{
    lemma_schedule_in_range(0, m.end() - m.start(), s1 as int);
    lemma_schedule_in_range(0, m.end() - m.start(), s2 as int);
    lemma_schedule_injective(0, m.end() - m.start(), s1 as int, s2 as int);
}

proof fn lemma_arbitrary_values_u8(m: U8WithinRangeMutator, s: int, max_cplx: u64, n: nat)
    requires
        m.wf(),
        max_cplx >= U8_COMPLEXITY,
        m.end() - m.start() < 0xffff_ffff_ffff_ffff,
        0 <= s <= m.end() - m.start() + 1,
    ensures
        ({
            let vs = arbitrary_values(m, s as u64, max_cplx, n);
            &&& vs.len() == vstd::math::min(n as int, m.end() - m.start() + 1 - s)
            &&& forall|i: int| 0 <= i < vs.len() ==> vs[i] == m.value_at(s + i)
        }),
    decreases n,
{
    if n > 0 && s <= m.end() - m.start() {
        lemma_arbitrary_values_u8(m, s + 1, max_cplx, (n - 1) as nat);
        lemma_schedule_in_range(0, m.end() - m.start(), s);
        let rest = arbitrary_values(m, (s + 1) as u64, max_cplx, (n - 1) as nat);
        let vs = arbitrary_values(m, s as u64, max_cplx, n);
        assert(vs == seq![m.value_at(s) as u8] + rest);
        assert forall|i: int| 0 <= i < vs.len() implies vs[i] == m.value_at(s + i) by {
            if i > 0 {
                assert(vs[i] == rest[i - 1]);
            }
        }
    }
}

/// Ordered generation of `u8` values from the first step never gives a
/// value twice, and gives at most as many values as the range holds.
pub proof fn law_arbitrary_values_distinct_u8(m: U8WithinRangeMutator, max_cplx: u64, n: nat)
    requires
        m.wf(),
        max_cplx >= U8_COMPLEXITY,
        m.end() - m.start() < 0xffff_ffff_ffff_ffff,
    ensures
        arbitrary_values(m, m.initial_arbitrary_step(), max_cplx, n).no_duplicates(),
        arbitrary_values(m, m.initial_arbitrary_step(), max_cplx, n).len() <= m.end() - m.start() + 1,
{
    lemma_arbitrary_values_u8(m, 0, max_cplx, n);
    let vs = arbitrary_values(m, 0, max_cplx, n);
    assert forall|i: int, j: int| 0 <= i < vs.len() && 0 <= j < vs.len() && i != j implies vs[i]
        != vs[j] by {
        lemma_schedule_injective(0, m.end() - m.start(), i, j);
    }
}

proof fn lemma_arbitrary_values_u16(m: U16WithinRangeMutator, s: int, max_cplx: u64, n: nat)
    requires
        m.wf(),
        max_cplx >= U16_COMPLEXITY,
        m.end() - m.start() < 0xffff_ffff_ffff_ffff,
        0 <= s <= m.end() - m.start() + 1,
    ensures
        ({
            let vs = arbitrary_values(m, s as u64, max_cplx, n);
            &&& vs.len() == vstd::math::min(n as int, m.end() - m.start() + 1 - s)
            &&& forall|i: int| 0 <= i < vs.len() ==> vs[i] == m.value_at(s + i)
        }),
    decreases n,
{
    if n > 0 && s <= m.end() - m.start() {
        lemma_arbitrary_values_u16(m, s + 1, max_cplx, (n - 1) as nat);
        lemma_schedule_in_range(0, m.end() - m.start(), s);
        let rest = arbitrary_values(m, (s + 1) as u64, max_cplx, (n - 1) as nat);
        let vs = arbitrary_values(m, s as u64, max_cplx, n);
        assert(vs == seq![m.value_at(s) as u16] + rest);
        assert forall|i: int| 0 <= i < vs.len() implies vs[i] == m.value_at(s + i) by {
            if i > 0 {
                assert(vs[i] == rest[i - 1]);
            }
        }
    }
}

/// Ordered generation of `u16` values from the first step never gives a
/// value twice, and gives at most as many values as the range holds.
pub proof fn law_arbitrary_values_distinct_u16(m: U16WithinRangeMutator, max_cplx: u64, n: nat)
    requires
        m.wf(),
        max_cplx >= U16_COMPLEXITY,
        m.end() - m.start() < 0xffff_ffff_ffff_ffff,
    ensures
        arbitrary_values(m, m.initial_arbitrary_step(), max_cplx, n).no_duplicates(),
        arbitrary_values(m, m.initial_arbitrary_step(), max_cplx, n).len() <= m.end() - m.start() + 1,
{
    lemma_arbitrary_values_u16(m, 0, max_cplx, n);
    let vs = arbitrary_values(m, 0, max_cplx, n);
    assert forall|i: int, j: int| 0 <= i < vs.len() && 0 <= j < vs.len() && i != j implies vs[i]
        != vs[j] by {
        lemma_schedule_injective(0, m.end() - m.start(), i, j);
    }
}

proof fn lemma_arbitrary_values_u32(m: U32WithinRangeMutator, s: int, max_cplx: u64, n: nat)
    requires
        m.wf(),
        max_cplx >= U32_COMPLEXITY,
        m.end() - m.start() < 0xffff_ffff_ffff_ffff,
        0 <= s <= m.end() - m.start() + 1,
    ensures
        ({
            let vs = arbitrary_values(m, s as u64, max_cplx, n);
            &&& vs.len() == vstd::math::min(n as int, m.end() - m.start() + 1 - s)
            &&& forall|i: int| 0 <= i < vs.len() ==> vs[i] == m.value_at(s + i)
        }),
    decreases n,
{
    if n > 0 && s <= m.end() - m.start() {
        lemma_arbitrary_values_u32(m, s + 1, max_cplx, (n - 1) as nat);
        lemma_schedule_in_range(0, m.end() - m.start(), s);
        let rest = arbitrary_values(m, (s + 1) as u64, max_cplx, (n - 1) as nat);
        let vs = arbitrary_values(m, s as u64, max_cplx, n);
        assert(vs == seq![m.value_at(s) as u32] + rest);
        assert forall|i: int| 0 <= i < vs.len() implies vs[i] == m.value_at(s + i) by {
            if i > 0 {
                assert(vs[i] == rest[i - 1]);
            }
        }
    }
}

/// Ordered generation of `u32` values from the first step never gives a
/// value twice, and gives at most as many values as the range holds.
pub proof fn law_arbitrary_values_distinct_u32(m: U32WithinRangeMutator, max_cplx: u64, n: nat)
    requires
        m.wf(),
        max_cplx >= U32_COMPLEXITY,
        m.end() - m.start() < 0xffff_ffff_ffff_ffff,
    ensures
        arbitrary_values(m, m.initial_arbitrary_step(), max_cplx, n).no_duplicates(),
        arbitrary_values(m, m.initial_arbitrary_step(), max_cplx, n).len() <= m.end() - m.start() + 1,
{
    lemma_arbitrary_values_u32(m, 0, max_cplx, n);
    let vs = arbitrary_values(m, 0, max_cplx, n);
    assert forall|i: int, j: int| 0 <= i < vs.len() && 0 <= j < vs.len() && i != j implies vs[i]
        != vs[j] by {
        lemma_schedule_injective(0, m.end() - m.start(), i, j);
    }
}

proof fn lemma_arbitrary_values_u64(m: U64WithinRangeMutator, s: int, max_cplx: u64, n: nat)
    requires
        m.wf(),
        max_cplx >= U64_COMPLEXITY,
        m.end() - m.start() < 0xffff_ffff_ffff_ffff,
        0 <= s <= m.end() - m.start() + 1,
    ensures
        ({
            let vs = arbitrary_values(m, s as u64, max_cplx, n);
            &&& vs.len() == vstd::math::min(n as int, m.end() - m.start() + 1 - s)
            &&& forall|i: int| 0 <= i < vs.len() ==> vs[i] == m.value_at(s + i)
        }),
    decreases n,
{
    if n > 0 && s <= m.end() - m.start() {
        lemma_arbitrary_values_u64(m, s + 1, max_cplx, (n - 1) as nat);
        lemma_schedule_in_range(0, m.end() - m.start(), s);
        let rest = arbitrary_values(m, (s + 1) as u64, max_cplx, (n - 1) as nat);
        let vs = arbitrary_values(m, s as u64, max_cplx, n);
        assert(vs == seq![m.value_at(s) as u64] + rest);
        assert forall|i: int| 0 <= i < vs.len() implies vs[i] == m.value_at(s + i) by {
            if i > 0 {
                assert(vs[i] == rest[i - 1]);
            }
        }
    }
}

/// Ordered generation of `u64` values from the first step never gives a
/// value twice, and gives at most as many values as the range holds.
pub proof fn law_arbitrary_values_distinct_u64(m: U64WithinRangeMutator, max_cplx: u64, n: nat)
    requires
        m.wf(),
        max_cplx >= U64_COMPLEXITY,
        m.end() - m.start() < 0xffff_ffff_ffff_ffff,
    ensures
        arbitrary_values(m, m.initial_arbitrary_step(), max_cplx, n).no_duplicates(),
        arbitrary_values(m, m.initial_arbitrary_step(), max_cplx, n).len() <= m.end() - m.start() + 1,
{
    lemma_arbitrary_values_u64(m, 0, max_cplx, n);
    let vs = arbitrary_values(m, 0, max_cplx, n);
    assert forall|i: int, j: int| 0 <= i < vs.len() && 0 <= j < vs.len() && i != j implies vs[i]
        != vs[j] by {
        lemma_schedule_injective(0, m.end() - m.start(), i, j);
    }
}

proof fn lemma_arbitrary_values_i8(m: I8WithinRangeMutator, s: int, max_cplx: u64, n: nat)
    requires
        m.wf(),
        max_cplx >= I8_COMPLEXITY,
        m.end() - m.start() < 0xffff_ffff_ffff_ffff,
        0 <= s <= m.end() - m.start() + 1,
    ensures
        ({
            let vs = arbitrary_values(m, s as u64, max_cplx, n);
            &&& vs.len() == vstd::math::min(n as int, m.end() - m.start() + 1 - s)
            &&& forall|i: int| 0 <= i < vs.len() ==> vs[i] == m.value_at(s + i)
        }),
    decreases n,
{
    if n > 0 && s <= m.end() - m.start() {
        lemma_arbitrary_values_i8(m, s + 1, max_cplx, (n - 1) as nat);
        lemma_schedule_in_range(0, m.end() - m.start(), s);
        let rest = arbitrary_values(m, (s + 1) as u64, max_cplx, (n - 1) as nat);
        let vs = arbitrary_values(m, s as u64, max_cplx, n);
        assert(vs == seq![m.value_at(s) as i8] + rest);
        assert forall|i: int| 0 <= i < vs.len() implies vs[i] == m.value_at(s + i) by {
            if i > 0 {
                assert(vs[i] == rest[i - 1]);
            }
        }
    }
}

/// Ordered generation of `i8` values from the first step never gives a
/// value twice, and gives at most as many values as the range holds.
pub proof fn law_arbitrary_values_distinct_i8(m: I8WithinRangeMutator, max_cplx: u64, n: nat)
    requires
        m.wf(),
        max_cplx >= I8_COMPLEXITY,
        m.end() - m.start() < 0xffff_ffff_ffff_ffff,
    ensures
        arbitrary_values(m, m.initial_arbitrary_step(), max_cplx, n).no_duplicates(),
        arbitrary_values(m, m.initial_arbitrary_step(), max_cplx, n).len() <= m.end() - m.start() + 1,
{
    lemma_arbitrary_values_i8(m, 0, max_cplx, n);
    let vs = arbitrary_values(m, 0, max_cplx, n);
    assert forall|i: int, j: int| 0 <= i < vs.len() && 0 <= j < vs.len() && i != j implies vs[i]
        != vs[j] by {
        lemma_schedule_injective(0, m.end() - m.start(), i, j);
    }
}

proof fn lemma_arbitrary_values_i16(m: I16WithinRangeMutator, s: int, max_cplx: u64, n: nat)
    requires
        m.wf(),
        max_cplx >= I16_COMPLEXITY,
        m.end() - m.start() < 0xffff_ffff_ffff_ffff,
        0 <= s <= m.end() - m.start() + 1,
    ensures
        ({
            let vs = arbitrary_values(m, s as u64, max_cplx, n);
            &&& vs.len() == vstd::math::min(n as int, m.end() - m.start() + 1 - s)
            &&& forall|i: int| 0 <= i < vs.len() ==> vs[i] == m.value_at(s + i)
        }),
    decreases n,
{
    if n > 0 && s <= m.end() - m.start() {
        lemma_arbitrary_values_i16(m, s + 1, max_cplx, (n - 1) as nat);
        lemma_schedule_in_range(0, m.end() - m.start(), s);
        let rest = arbitrary_values(m, (s + 1) as u64, max_cplx, (n - 1) as nat);
        let vs = arbitrary_values(m, s as u64, max_cplx, n);
        assert(vs == seq![m.value_at(s) as i16] + rest);
        assert forall|i: int| 0 <= i < vs.len() implies vs[i] == m.value_at(s + i) by {
            if i > 0 {
                assert(vs[i] == rest[i - 1]);
            }
        }
    }
}

/// Ordered generation of `i16` values from the first step never gives a
/// value twice, and gives at most as many values as the range holds.
pub proof fn law_arbitrary_values_distinct_i16(m: I16WithinRangeMutator, max_cplx: u64, n: nat)
    requires
        m.wf(),
        max_cplx >= I16_COMPLEXITY,
        m.end() - m.start() < 0xffff_ffff_ffff_ffff,
    ensures
        arbitrary_values(m, m.initial_arbitrary_step(), max_cplx, n).no_duplicates(),
        arbitrary_values(m, m.initial_arbitrary_step(), max_cplx, n).len() <= m.end() - m.start() + 1,
{
    lemma_arbitrary_values_i16(m, 0, max_cplx, n);
    let vs = arbitrary_values(m, 0, max_cplx, n);
    assert forall|i: int, j: int| 0 <= i < vs.len() && 0 <= j < vs.len() && i != j implies vs[i]
        != vs[j] by {
        lemma_schedule_injective(0, m.end() - m.start(), i, j);
    }
}

proof fn lemma_arbitrary_values_i32(m: I32WithinRangeMutator, s: int, max_cplx: u64, n: nat)
    requires
        m.wf(),
        max_cplx >= I32_COMPLEXITY,
        m.end() - m.start() < 0xffff_ffff_ffff_ffff,
        0 <= s <= m.end() - m.start() + 1,
    ensures
        ({
            let vs = arbitrary_values(m, s as u64, max_cplx, n);
            &&& vs.len() == vstd::math::min(n as int, m.end() - m.start() + 1 - s)
            &&& forall|i: int| 0 <= i < vs.len() ==> vs[i] == m.value_at(s + i)
        }),
    decreases n,
{
    if n > 0 && s <= m.end() - m.start() {
        lemma_arbitrary_values_i32(m, s + 1, max_cplx, (n - 1) as nat);
        lemma_schedule_in_range(0, m.end() - m.start(), s);
        let rest = arbitrary_values(m, (s + 1) as u64, max_cplx, (n - 1) as nat);
        let vs = arbitrary_values(m, s as u64, max_cplx, n);
        assert(vs == seq![m.value_at(s) as i32] + rest);
        assert forall|i: int| 0 <= i < vs.len() implies vs[i] == m.value_at(s + i) by {
            if i > 0 {
                assert(vs[i] == rest[i - 1]);
            }
        }
    }
}

/// Ordered generation of `i32` values from the first step never gives a
/// value twice, and gives at most as many values as the range holds.
pub proof fn law_arbitrary_values_distinct_i32(m: I32WithinRangeMutator, max_cplx: u64, n: nat)
    requires
        m.wf(),
        max_cplx >= I32_COMPLEXITY,
        m.end() - m.start() < 0xffff_ffff_ffff_ffff,
    ensures
        arbitrary_values(m, m.initial_arbitrary_step(), max_cplx, n).no_duplicates(),
        arbitrary_values(m, m.initial_arbitrary_step(), max_cplx, n).len() <= m.end() - m.start() + 1,
{
    lemma_arbitrary_values_i32(m, 0, max_cplx, n);
    let vs = arbitrary_values(m, 0, max_cplx, n);
    assert forall|i: int, j: int| 0 <= i < vs.len() && 0 <= j < vs.len() && i != j implies vs[i]
        != vs[j] by {
        lemma_schedule_injective(0, m.end() - m.start(), i, j);
    }
}

proof fn lemma_arbitrary_values_i64(m: I64WithinRangeMutator, s: int, max_cplx: u64, n: nat)
    requires
        m.wf(),
        max_cplx >= I64_COMPLEXITY,
        m.end() - m.start() < 0xffff_ffff_ffff_ffff,
        0 <= s <= m.end() - m.start() + 1,
    ensures
        ({
            let vs = arbitrary_values(m, s as u64, max_cplx, n);
            &&& vs.len() == vstd::math::min(n as int, m.end() - m.start() + 1 - s)
            &&& forall|i: int| 0 <= i < vs.len() ==> vs[i] == m.value_at(s + i)
        }),
    decreases n,
{
    if n > 0 && s <= m.end() - m.start() {
        lemma_arbitrary_values_i64(m, s + 1, max_cplx, (n - 1) as nat);
        lemma_schedule_in_range(0, m.end() - m.start(), s);
        let rest = arbitrary_values(m, (s + 1) as u64, max_cplx, (n - 1) as nat);
        let vs = arbitrary_values(m, s as u64, max_cplx, n);
        assert(vs == seq![m.value_at(s) as i64] + rest);
        assert forall|i: int| 0 <= i < vs.len() implies vs[i] == m.value_at(s + i) by {
            if i > 0 {
                assert(vs[i] == rest[i - 1]);
            }
        }
    }
}

/// Ordered generation of `i64` values from the first step never gives a
/// value twice, and gives at most as many values as the range holds.
pub proof fn law_arbitrary_values_distinct_i64(m: I64WithinRangeMutator, max_cplx: u64, n: nat)
    requires
        m.wf(),
        max_cplx >= I64_COMPLEXITY,
        m.end() - m.start() < 0xffff_ffff_ffff_ffff,
    ensures
        arbitrary_values(m, m.initial_arbitrary_step(), max_cplx, n).no_duplicates(),
        arbitrary_values(m, m.initial_arbitrary_step(), max_cplx, n).len() <= m.end() - m.start() + 1,
{
    lemma_arbitrary_values_i64(m, 0, max_cplx, n);
    let vs = arbitrary_values(m, 0, max_cplx, n);
    assert forall|i: int, j: int| 0 <= i < vs.len() && 0 <= j < vs.len() && i != j implies vs[i]
        != vs[j] by {
        lemma_schedule_injective(0, m.end() - m.start(), i, j);
    }
}

} // verus!
