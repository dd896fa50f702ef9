use vstd::prelude::*;

verus! {

/// Number of bits held by one block.
pub const BITS: usize = 64;

/// Bit `i` (counted from the least significant end) of the word `w`.
pub open spec fn word_bit(w: u64, i: u64) -> bool {
    (w >> i) & 1u64 == 1u64
}

/// Bit `i` of a sequence of blocks, block `i / 64` holding bits `64 * (i / 64) ..`.
pub open spec fn block_bit(blocks: Seq<u64>, i: int) -> bool {
    word_bit(blocks[i / 64], (i % 64) as u64)
}

/// The first `n` bits of a sequence of blocks.
pub open spec fn bits_of(blocks: Seq<u64>, n: nat) -> Seq<bool> {
    Seq::new(n, |i: int| block_bit(blocks, i))
}

/// The number of blocks needed to hold `bits` bits.
pub open spec fn blocks_for(bits: nat) -> nat {
    (bits + 63) / 64
}

/// `blocks` is the exact block representation of `bits`: the right number of
/// blocks, the bits in order, every bit past the end clear.
pub open spec fn represents(blocks: Seq<u64>, bits: Seq<bool>) -> bool {
    &&& blocks.len() == blocks_for(bits.len())
    &&& forall|i: int| 0 <= i < bits.len() ==> #[trigger] block_bit(blocks, i) == bits[i]
    &&& forall|i: int| bits.len() <= i < 64 * blocks.len() ==> !#[trigger] block_bit(blocks, i)
}

/// Bit `i` of `s`, where every bit past the end is clear.
pub open spec fn bit_at(s: Seq<bool>, i: int) -> bool {
    0 <= i < s.len() && s[i]
}

/// The number of set bits in `s`.
pub open spec fn count_true(s: Seq<bool>) -> nat
    decreases s.len(),
{
    if s.len() == 0 {
        0
    } else {
        count_true(s.drop_last()) + if s.last() {
            1nat
        } else {
            0nat
        }
    }
}

/// The number of set bits of `w` below bit `n`.
pub open spec fn word_ones(w: u64, n: nat) -> nat
    decreases n,
{
    if n == 0 {
        0
    } else {
        word_ones(w, (n - 1) as nat) + if word_bit(w, (n - 1) as u64) {
            1nat
        } else {
            0nat
        }
    }
}

/// The number of set bits in the first `k` blocks.
pub open spec fn blocks_ones(blocks: Seq<u64>, k: nat) -> nat
    decreases k,
{
    if k == 0 {
        0
    } else {
        blocks_ones(blocks, (k - 1) as nat) + word_ones(blocks[k - 1], 64)
    }
}

proof fn lemma_word_or(x: u64, y: u64, i: u64)
    requires
        i < 64,
    ensures
        word_bit(x | y, i) == (word_bit(x, i) || word_bit(y, i)),
{
    assert(((x | y) >> i) & 1u64 == 1u64 <==> ((x >> i) & 1u64 == 1u64 || (y >> i) & 1u64 == 1u64))
        by (bit_vector)
        requires
            i < 64,
    ;
}

proof fn lemma_word_and(x: u64, y: u64, i: u64)
    requires
        i < 64,
    ensures
        word_bit(x & y, i) == (word_bit(x, i) && word_bit(y, i)),
{
    assert(((x & y) >> i) & 1u64 == 1u64 <==> ((x >> i) & 1u64 == 1u64 && (y >> i) & 1u64 == 1u64))
        by (bit_vector)
        requires
            i < 64,
    ;
}

proof fn lemma_word_and_not(x: u64, y: u64, i: u64)
    requires
        i < 64,
    ensures
        word_bit(x & !y, i) == (word_bit(x, i) && !word_bit(y, i)),
{
    assert(((x & !y) >> i) & 1u64 == 1u64 <==> ((x >> i) & 1u64 == 1u64 && !((y >> i) & 1u64
        == 1u64))) by (bit_vector)
        requires
            i < 64,
    ;
}

proof fn lemma_word_xor(x: u64, y: u64, i: u64)
    requires
        i < 64,
    ensures
        word_bit(x ^ y, i) == (word_bit(x, i) != word_bit(y, i)),
{
    assert(((x ^ y) >> i) & 1u64 == 1u64 <==> ((x >> i) & 1u64 == 1u64) != ((y >> i) & 1u64
        == 1u64)) by (bit_vector)
        requires
            i < 64,
    ;
}

proof fn lemma_word_zero(i: u64)
    requires
        i < 64,
    ensures
        !word_bit(0u64, i),
{
    assert(((0u64 >> i) & 1u64) == 0u64) by (bit_vector);
}

/// Setting, or toggling, bit `k` of a word with a mask changes that bit only.
proof fn lemma_word_mask(w: u64, k: u64, i: u64)
    requires
        k < 64,
        i < 64,
    ensures
        word_bit(w | (1u64 << k), i) == (i == k || word_bit(w, i)),
        word_bit(w ^ (1u64 << k), i) == (if i == k {
            !word_bit(w, i)
        } else {
            word_bit(w, i)
        }),
        ((w & (1u64 << k)) != 0u64) == word_bit(w, k),
{
    assert(((w | (1u64 << k)) >> i) & 1u64 == 1u64 <==> (i == k || (w >> i) & 1u64 == 1u64))
        by (bit_vector)
        requires
            k < 64,
            i < 64,
    ;
    assert(((w ^ (1u64 << k)) >> i) & 1u64 == 1u64 <==> (if i == k {
        !((w >> i) & 1u64 == 1u64)
    } else {
        (w >> i) & 1u64 == 1u64
    })) by (bit_vector)
        requires
            k < 64,
            i < 64,
    ;
    assert(((w & (1u64 << k)) != 0u64) <==> ((w >> k) & 1u64 == 1u64)) by (bit_vector)
        requires
            k < 64,
    ;
}

proof fn lemma_blocks_cover(n: nat)
    ensures
        n <= 64 * blocks_for(n),
        64 * blocks_for(n) < n + 64,
        n % 64 != 0 ==> blocks_for(n) == n / 64 + 1,
        n % 64 == 0 ==> blocks_for(n) == n / 64,
{
}

/// Within the blocks, a block bit is the bit it represents; past them every bit is clear.
proof fn lemma_represented_bit(blocks: Seq<u64>, bits: Seq<bool>, i: int)
    requires
        represents(blocks, bits),
        0 <= i,
    ensures
        i < 64 * blocks.len() ==> block_bit(blocks, i) == bit_at(bits, i),
        i >= 64 * blocks.len() ==> !bit_at(bits, i),
{
    lemma_blocks_cover(bits.len());
    if i < bits.len() {
        assert(block_bit(blocks, i) == bits[i]);
    } else if i < 64 * blocks.len() {
        assert(!block_bit(blocks, i));
    }
}

/// Two bits of the same block are equal exactly when their offsets in the block are.
proof fn lemma_same_block(i: int, k: int)
    requires
        0 <= i,
        0 <= k,
        i / 64 == k / 64,
    ensures
        (i == k) == (i % 64 == k % 64),
{
}

proof fn lemma_count_true_le(s: Seq<bool>)
    ensures
        count_true(s) <= s.len(),
    decreases s.len(),
{
    if s.len() > 0 {
        lemma_count_true_le(s.drop_last());
    }
}

proof fn lemma_blocks_ones_mono(d: Seq<u64>, j: nat, k: nat)
    requires
        j <= k,
    ensures
        blocks_ones(d, j) <= blocks_ones(d, k),
    decreases k,
{
    if j < k {
        lemma_blocks_ones_mono(d, j, (k - 1) as nat);
    }
}

/// Counting the first `n` bits block by block.
proof fn lemma_count_bits(d: Seq<u64>, n: nat)
    requires
        n <= 64 * d.len(),
    ensures
        count_true(bits_of(d, n)) == blocks_ones(d, n / 64) + if n % 64 == 0 {
            0nat
        } else {
            word_ones(d[(n / 64) as int], n % 64)
        },
    decreases n,
{
    if n > 0 {
        let m = (n - 1) as nat;
        lemma_count_bits(d, m);
        assert(bits_of(d, n).drop_last() =~= bits_of(d, m));
        if m % 64 == 63 {
            assert(n % 64 == 0 && n / 64 == m / 64 + 1);
            assert(blocks_ones(d, n / 64) == blocks_ones(d, m / 64) + word_ones(d[(m / 64) as int], 64));
        } else {
            assert(n % 64 == m % 64 + 1 && n / 64 == m / 64);
        }
    }
}

/// Clear bits past `len` add nothing to the count.
proof fn lemma_count_clear_tail(d: Seq<u64>, len: nat, n: nat)
    requires
        len <= n,
        forall|i: int| len <= i < n ==> !#[trigger] block_bit(d, i),
    ensures
        count_true(bits_of(d, n)) == count_true(bits_of(d, len)),
    decreases n,
{
    if len < n {
        let m = (n - 1) as nat;
        assert(bits_of(d, n).drop_last() =~= bits_of(d, m));
        assert(!block_bit(d, m as int));
        lemma_count_clear_tail(d, len, m);
    }
}

/// The number of set bits in a word.
fn word_count_ones(w: u64) -> (r: u32)
    ensures
        r == word_ones(w, 64),
{
    let mut c: u32 = 0;
    let mut k: u64 = 0;
    while k < 64
        invariant
            k <= 64,
            c == word_ones(w, k as nat),
            c <= k,
        decreases 64 - k,
    {
        if (w >> k) & 1u64 == 1u64 {
            c = c + 1;
        }
        k = k + 1;
    }
    c
}

/// If a word shifted right by `i` is zero, bits `i` and up of the word are clear.
proof fn lemma_shifted_zero(w: u64, i: u64, t: u64)
    requires
        i <= t < 64,
        w >> i == 0u64,
    ensures
        !word_bit(w, t),
{
    assert((w >> i == 0u64 && i <= t && t < 64) ==> ((w >> t) & 1u64) == 0u64) by (bit_vector);
}

fn div_rem(x: usize, d: usize) -> (r: (usize, usize))
    requires
        d > 0,
    ensures
        r == (x / d, x % d),
{
    (x / d, x % d)
}

/// A set of bits of fixed length that can each be enabled or disabled; the
/// length can grow.
#[derive(Clone, Debug)]
pub struct FixedBitSet {
    data: Vec<u64>,
    length: usize,
}

impl View for FixedBitSet {
    type V = Seq<bool>;

    closed spec fn view(&self) -> Seq<bool> {
        bits_of(self.data@, self.length as nat)
    }
}

impl FixedBitSet {
    /// The blocks are the exact representation of the bits.
    pub closed spec fn wf(&self) -> bool {
        represents(self.data@, self@)
    }

    /// Create a new empty bit set.
    pub fn new() -> (r: Self)
        ensures
            r.wf(),
            r@ == Seq::<bool>::empty(),
    {
        let r = FixedBitSet { data: Vec::new(), length: 0 };
        assert(r@ =~= Seq::<bool>::empty());
        r
    }

    /// Create a bit set of `bits` bits, all clear.
    pub fn with_capacity(bits: usize) -> (r: Self)
        ensures
            r.wf(),
            r@ == Seq::new(bits as nat, |i: int| false),
    {
        let (blocks, rem) = div_rem(bits, BITS);
        let blocks = blocks + if rem > 0 {
            1usize
        } else {
            0usize
        };
        let mut data: Vec<u64> = Vec::new();
        let mut j: usize = 0;
        while j < blocks
            invariant
                j <= blocks,
                data@.len() == j,
                forall|k: int| 0 <= k < j ==> data@[k] == 0u64,
            decreases blocks - j,
        {
            data.push(0u64);
            j = j + 1;
        }
        let r = FixedBitSet { data, length: bits };
        assert forall|i: int| 0 <= i < 64 * r.data@.len() implies !#[trigger] block_bit(r.data@, i) by {
            lemma_word_zero((i % 64) as u64);
        }
        assert(r@ =~= Seq::new(bits as nat, |i: int| false));
        r
    }

    /// Grow to `bits` bits; the new bits are clear. A smaller `bits` changes nothing.
    pub fn grow(&mut self, bits: usize)
        requires
            old(self).wf(),
        ensures
            final(self).wf(),
            bits > old(self)@.len() ==> final(self)@ == old(self)@ + Seq::new(
                (bits - old(self)@.len()) as nat,
                |i: int| false,
            ),
            bits <= old(self)@.len() ==> final(self)@ == old(self)@,
    {
        if bits > self.length {
            let (blocks, rem) = div_rem(bits, BITS);
            let blocks = blocks + if rem > 0 {
                1usize
            } else {
                0usize
            };
            let ghost old_data = self.data@;
            let ghost old_len = self.length as int;
            while self.data.len() < blocks
                invariant
                    old_data.len() <= self.data@.len() <= blocks,
                    blocks == blocks_for(bits as nat),
                    self.data@.subrange(0, old_data.len() as int) == old_data,
                    forall|k: int| old_data.len() <= k < self.data@.len() ==> self.data@[k] == 0u64,
                decreases blocks - self.data@.len(),
            {
                self.data.push(0u64);
                assert(self.data@.subrange(0, old_data.len() as int) =~= old_data);
            }
            self.length = bits;
            assert forall|i: int| 0 <= i < 64 * self.data@.len() implies #[trigger] block_bit(
                self.data@,
                i,
            ) == bit_at(old(self)@, i) by {
                if i / 64 < old_data.len() {
                    assert(self.data@[i / 64] == old_data[i / 64]);
                    assert(block_bit(self.data@, i) == block_bit(old_data, i));
                } else {
                    lemma_word_zero((i % 64) as u64);
                }
            }
            assert(self@ =~= old(self)@ + Seq::new((bits - old_len) as nat, |i: int| false));
        }
    }

    /// The length in bits.
    pub fn len(&self) -> (r: usize)
        ensures
            r == self@.len(),
    {
        self.length
    }

    /// Whether the length is zero.
    pub fn is_empty(&self) -> (r: bool)
        ensures
            r == (self@.len() == 0),
    {
        self.length == 0
    }

    /// Whether `bit` is enabled; bits past the end are always disabled.
    pub fn contains(&self, bit: usize) -> (r: bool)
        requires
            self.wf(),
        ensures
            r == bit_at(self@, bit as int),
    {
        let (block, i) = div_rem(bit, BITS);
        proof {
            lemma_blocks_cover(self.length as nat);
        }
        if block < self.data.len() {
            let b = self.data[block];
            proof {
                lemma_word_mask(b, i as u64, i as u64);
                assert(block_bit(self.data@, bit as int) == word_bit(b, i as u64));
            }
            (b & (1u64 << (i as u64))) != 0
        } else {
            false
        }
    }

    /// Clear all bits.
    pub fn clear(&mut self)
        requires
            old(self).wf(),
        ensures
            final(self).wf(),
            final(self)@ == Seq::new(old(self)@.len(), |i: int| false),
    {
        let n = self.data.len();
        let mut j: usize = 0;
        while j < n
            invariant
                j <= n,
                self.data@.len() == n,
                self.length == old(self).length,
                forall|k: int| 0 <= k < j ==> self.data@[k] == 0u64,
            decreases n - j,
        {
            self.data.set(j, 0u64);
            j = j + 1;
        }
        assert forall|i: int| 0 <= i < 64 * self.data@.len() implies !#[trigger] block_bit(
            self.data@,
            i,
        ) by {
            lemma_word_zero((i % 64) as u64);
        }
        proof {
            lemma_blocks_cover(self.length as nat);
        }
        assert(self@ =~= Seq::new(old(self)@.len(), |i: int| false));
    }

    /// Enable `bit`, which must lie inside the set.
    pub fn insert(&mut self, bit: usize)
        requires
            old(self).wf(),
            bit < old(self)@.len(),
        ensures
            final(self).wf(),
            final(self)@ == old(self)@.update(bit as int, true),
    {
        self.put(bit);
    }

    /// Enable `bit`, which must lie inside the set, and return whether it was enabled before.
    pub fn put(&mut self, bit: usize) -> (r: bool)
        requires
            old(self).wf(),
            bit < old(self)@.len(),
        ensures
            final(self).wf(),
            final(self)@ == old(self)@.update(bit as int, true),
            r == old(self)@[bit as int],
    {
        let (block, i) = div_rem(bit, BITS);
        proof {
            lemma_blocks_cover(self.length as nat);
        }
        let w = self.data[block];
        let ghost before = self.data@;
        proof {
            lemma_word_mask(w, i as u64, i as u64);
            assert(block_bit(before, bit as int) == word_bit(w, i as u64));
        }
        let prev = (w & (1u64 << (i as u64))) != 0;
        self.data.set(block, w | (1u64 << (i as u64)));
        assert forall|k: int| 0 <= k < 64 * self.data@.len() implies #[trigger] block_bit(
            self.data@,
            k,
        ) == (k == bit || block_bit(before, k)) by {
            if k / 64 == block as int {
                lemma_word_mask(w, i as u64, (k % 64) as u64);
                lemma_same_block(k, bit as int);
            }
        }
        assert(self@ =~= old(self)@.update(bit as int, true));
        prev
    }

    /// Toggle `bit`, which must lie inside the set.
    pub fn toggle(&mut self, bit: usize)
        requires
            old(self).wf(),
            bit < old(self)@.len(),
        ensures
            final(self).wf(),
            final(self)@ == old(self)@.update(bit as int, !old(self)@[bit as int]),
    {
        let (block, i) = div_rem(bit, BITS);
        proof {
            lemma_blocks_cover(self.length as nat);
        }
        let w = self.data[block];
        let ghost before = self.data@;
        self.data.set(block, w ^ (1u64 << (i as u64)));
        assert forall|k: int| 0 <= k < 64 * self.data@.len() implies #[trigger] block_bit(
            self.data@,
            k,
        ) == (if k == bit {
            !block_bit(before, k)
        } else {
            block_bit(before, k)
        }) by {
            if k / 64 == block as int {
                lemma_word_mask(w, i as u64, (k % 64) as u64);
                lemma_same_block(k, bit as int);
            }
        }
        assert(self@ =~= old(self)@.update(bit as int, !old(self)@[bit as int]));
    }

    /// The blocks of the set, 64 bits each, least significant bit first.
    pub fn as_slice(&self) -> (r: &[u64])
        requires
            self.wf(),
        ensures
            represents(r@, self@),
    {
        self.data.as_slice()
    }

    /// In-place union; the length grows to that of `other` if it is longer.
    pub fn union_with(&mut self, other: &FixedBitSet)
        requires
            old(self).wf(),
            other.wf(),
        ensures
            final(self).wf(),
            final(self)@ == Seq::new(
                vstd::math::max(old(self)@.len() as int, other@.len() as int) as nat,
                |i: int| bit_at(old(self)@, i) || bit_at(other@, i),
            ),
    {
        if other.len() >= self.len() {
            self.grow(other.len());
        }
        let ghost grown = self@;
        let ghost before = self.data@;
        proof {
            lemma_blocks_cover(self.length as nat);
            lemma_blocks_cover(other.length as nat);
        }
        let n = other.data.len();
        let mut j: usize = 0;
        while j < n
            invariant
                j <= n,
                n == other.data@.len(),
                n <= before.len(),
                self.data@.len() == before.len(),
                self.length == grown.len(),
                forall|k: int| 0 <= k < j ==> self.data@[k] == (before[k] | other.data@[k]),
                forall|k: int| j <= k < before.len() ==> self.data@[k] == before[k],
            decreases n - j,
        {
            let x = self.data[j] | other.data[j];
            self.data.set(j, x);
            j = j + 1;
        }
        assert forall|k: int| 0 <= k < 64 * self.data@.len() implies #[trigger] block_bit(
            self.data@,
            k,
        ) == (bit_at(grown, k) || bit_at(other@, k)) by {
            lemma_represented_bit(before, grown, k);
            lemma_represented_bit(other.data@, other@, k);
            if k / 64 < n {
                lemma_word_or(before[k / 64], other.data@[k / 64], (k % 64) as u64);
            }
        }
        assert(self@ =~= Seq::new(
            vstd::math::max(old(self)@.len() as int, other@.len() as int) as nat,
            |i: int| bit_at(old(self)@, i) || bit_at(other@, i),
        ));
    }

    /// In-place intersection; the length stays.
    pub fn intersect_with(&mut self, other: &FixedBitSet)
        requires
            old(self).wf(),
            other.wf(),
        ensures
            final(self).wf(),
            final(self)@ == Seq::new(
                old(self)@.len(),
                |i: int| old(self)@[i] && bit_at(other@, i),
            ),
    {
        let ghost before = self.data@;
        proof {
            lemma_blocks_cover(self.length as nat);
            lemma_blocks_cover(other.length as nat);
        }
        let len = self.data.len();
        let n = if len < other.data.len() {
            len
        } else {
            other.data.len()
        };
        let mut j: usize = 0;
        while j < len
            invariant
                j <= len,
                n <= len,
                n <= other.data@.len(),
                len == before.len(),
                self.data@.len() == len,
                self.length == old(self).length,
                forall|k: int| 0 <= k < j && k < n ==> self.data@[k] == (before[k] & other.data@[k]),
                forall|k: int| 0 <= k < j && k >= n ==> self.data@[k] == 0u64,
                forall|k: int| j <= k < len ==> self.data@[k] == before[k],
            decreases len - j,
        {
            if j < n {
                let x = self.data[j] & other.data[j];
                self.data.set(j, x);
            } else {
                self.data.set(j, 0u64);
            }
            j = j + 1;
        }
        assert forall|k: int| 0 <= k < 64 * self.data@.len() implies #[trigger] block_bit(
            self.data@,
            k,
        ) == (bit_at(old(self)@, k) && bit_at(other@, k)) by {
            lemma_represented_bit(before, old(self)@, k);
            lemma_represented_bit(other.data@, other@, k);
            if k / 64 < n {
                lemma_word_and(before[k / 64], other.data@[k / 64], (k % 64) as u64);
            } else {
                lemma_word_zero((k % 64) as u64);
            }
        }
        assert(self@ =~= Seq::new(old(self)@.len(), |i: int| old(self)@[i] && bit_at(other@, i)));
    }

    /// In-place difference; the length stays.
    pub fn difference_with(&mut self, other: &FixedBitSet)
        requires
            old(self).wf(),
            other.wf(),
        ensures
            final(self).wf(),
            final(self)@ == Seq::new(
                old(self)@.len(),
                |i: int| old(self)@[i] && !bit_at(other@, i),
            ),
    {
        let ghost before = self.data@;
        proof {
            lemma_blocks_cover(self.length as nat);
            lemma_blocks_cover(other.length as nat);
        }
        let len = self.data.len();
        let n = if len < other.data.len() {
            len
        } else {
            other.data.len()
        };
        let mut j: usize = 0;
        while j < n
            invariant
                j <= n,
                n <= len,
                n <= other.data@.len(),
                len == before.len(),
                self.data@.len() == len,
                self.length == old(self).length,
                forall|k: int| 0 <= k < j ==> self.data@[k] == (before[k] & !other.data@[k]),
                forall|k: int| j <= k < len ==> self.data@[k] == before[k],
            decreases n - j,
        {
            let x = self.data[j] & !other.data[j];
            self.data.set(j, x);
            j = j + 1;
        }
        assert forall|k: int| 0 <= k < 64 * self.data@.len() implies #[trigger] block_bit(
            self.data@,
            k,
        ) == (bit_at(old(self)@, k) && !bit_at(other@, k)) by {
            lemma_represented_bit(before, old(self)@, k);
            lemma_represented_bit(other.data@, other@, k);
            if k / 64 < n {
                lemma_word_and_not(before[k / 64], other.data@[k / 64], (k % 64) as u64);
            }
        }
        assert(self@ =~= Seq::new(
            old(self)@.len(),
            |i: int| old(self)@[i] && !bit_at(other@, i),
        ));
    }

    /// In-place symmetric difference; the length grows to that of `other` if it is longer.
    pub fn symmetric_difference_with(&mut self, other: &FixedBitSet)
        requires
            old(self).wf(),
            other.wf(),
        ensures
            final(self).wf(),
            final(self)@ == Seq::new(
                vstd::math::max(old(self)@.len() as int, other@.len() as int) as nat,
                |i: int| bit_at(old(self)@, i) != bit_at(other@, i),
            ),
    {
        if other.len() >= self.len() {
            self.grow(other.len());
        }
        let ghost grown = self@;
        let ghost before = self.data@;
        proof {
            lemma_blocks_cover(self.length as nat);
            lemma_blocks_cover(other.length as nat);
        }
        let n = if self.data.len() < other.data.len() {
            self.data.len()
        } else {
            other.data.len()
        };
        let mut j: usize = 0;
        while j < n
            invariant
                j <= n,
                n <= other.data@.len(),
                n <= before.len(),
                self.data@.len() == before.len(),
                self.length == grown.len(),
                forall|k: int| 0 <= k < j ==> self.data@[k] == (before[k] ^ other.data@[k]),
                forall|k: int| j <= k < before.len() ==> self.data@[k] == before[k],
            decreases n - j,
        {
            let x = self.data[j] ^ other.data[j];
            self.data.set(j, x);
            j = j + 1;
        }
        assert forall|k: int| 0 <= k < 64 * self.data@.len() implies #[trigger] block_bit(
            self.data@,
            k,
        ) == (bit_at(grown, k) != bit_at(other@, k)) by {
            lemma_represented_bit(before, grown, k);
            lemma_represented_bit(other.data@, other@, k);
            if k / 64 < n {
                lemma_word_xor(before[k / 64], other.data@[k / 64], (k % 64) as u64);
            }
        }
        assert(self@ =~= Seq::new(
            vstd::math::max(old(self)@.len() as int, other@.len() as int) as nat,
            |i: int| bit_at(old(self)@, i) != bit_at(other@, i),
        ));
    }

    /// The number of enabled bits.
    pub fn count_ones(&self) -> (r: usize)
        requires
            self.wf(),
        ensures
            r == count_true(self@),
    {
        let n = self.data.len();
        let ghost d = self.data@;
        proof {
            lemma_blocks_cover(self.length as nat);
            lemma_count_bits(d, 64 * n as nat);
            assert((64 * n as nat) / 64 == n && (64 * n as nat) % 64 == 0);
            lemma_count_clear_tail(d, self.length as nat, 64 * n as nat);
            lemma_count_true_le(self@);
        }
        let mut sum: usize = 0;
        let mut j: usize = 0;
        while j < n
            invariant
                j <= n,
                n == d.len(),
                d == self.data@,
                sum == blocks_ones(d, j as nat),
                blocks_ones(d, n as nat) <= usize::MAX,
            decreases n - j,
        {
            proof {
                lemma_blocks_ones_mono(d, (j + 1) as nat, n as nat);
            }
            let c = word_count_ones(self.data[j]);
            sum = sum + c as usize;
            j = j + 1;
        }
        sum
    }

    /// The indices of the enabled bits, in increasing order.
    pub fn ones(&self) -> (r: Ones)
        requires
            self.wf(),
        ensures
            r.wf(),
            r.bits() == self@,
            r.position() == 0,
    {
        let mut blocks: Vec<u64> = Vec::new();
        let n = self.data.len();
        let mut j: usize = 0;
        while j < n
            invariant
                j <= n,
                n == self.data@.len(),
                blocks@ == self.data@.subrange(0, j as int),
            decreases n - j,
        {
            blocks.push(self.data[j]);
            j = j + 1;
            assert(blocks@ =~= self.data@.subrange(0, j as int));
        }
        assert(blocks@ =~= self.data@);
        Ones { blocks, length: self.length, pos: 0 }
    }
}

impl FixedBitSet {
    /// A copy of the set.
    pub fn copy(&self) -> (r: FixedBitSet)
        requires
            self.wf(),
        ensures
            r.wf(),
            r@ == self@,
    {
        let mut data: Vec<u64> = Vec::new();
        let n = self.data.len();
        let mut j: usize = 0;
        while j < n
            invariant
                j <= n,
                n == self.data@.len(),
                data@ == self.data@.subrange(0, j as int),
            decreases n - j,
        {
            data.push(self.data[j]);
            j = j + 1;
            assert(data@ =~= self.data@.subrange(0, j as int));
        }
        assert(data@ =~= self.data@);
        FixedBitSet { data, length: self.length }
    }

    /// The intersection, as long as the shorter set.
    pub fn intersection(&self, other: &FixedBitSet) -> (r: FixedBitSet)
        requires
            self.wf(),
            other.wf(),
        ensures
            r.wf(),
            r@ == Seq::new(
                vstd::math::min(self@.len() as int, other@.len() as int) as nat,
                |i: int| self@[i] && other@[i],
            ),
    {
        if self.len() <= other.len() {
            let mut r = self.copy();
            r.intersect_with(other);
            assert(r@ =~= Seq::new(
                vstd::math::min(self@.len() as int, other@.len() as int) as nat,
                |i: int| self@[i] && other@[i],
            ));
            r
        } else {
            let mut r = other.copy();
            r.intersect_with(self);
            assert(r@ =~= Seq::new(
                vstd::math::min(self@.len() as int, other@.len() as int) as nat,
                |i: int| self@[i] && other@[i],
            ));
            r
        }
    }

    /// The union, as long as the longer set.
    pub fn union(&self, other: &FixedBitSet) -> (r: FixedBitSet)
        requires
            self.wf(),
            other.wf(),
        ensures
            r.wf(),
            r@ == Seq::new(
                vstd::math::max(self@.len() as int, other@.len() as int) as nat,
                |i: int| bit_at(self@, i) || bit_at(other@, i),
            ),
    {
        let mut r = if self.len() <= other.len() {
            let mut r = other.copy();
            r.union_with(self);
            r
        } else {
            let mut r = self.copy();
            r.union_with(other);
            r
        };
        assert(r@ =~= Seq::new(
            vstd::math::max(self@.len() as int, other@.len() as int) as nat,
            |i: int| bit_at(self@, i) || bit_at(other@, i),
        ));
        r
    }

    /// The symmetric difference, as long as the longer set.
    pub fn symmetric_difference(&self, other: &FixedBitSet) -> (r: FixedBitSet)
        requires
            self.wf(),
            other.wf(),
        ensures
            r.wf(),
            r@ == Seq::new(
                vstd::math::max(self@.len() as int, other@.len() as int) as nat,
                |i: int| bit_at(self@, i) != bit_at(other@, i),
            ),
    {
        let mut r = if self.len() <= other.len() {
            let mut r = other.copy();
            r.symmetric_difference_with(self);
            r
        } else {
            let mut r = self.copy();
            r.symmetric_difference_with(other);
            r
        };
        assert(r@ =~= Seq::new(
            vstd::math::max(self@.len() as int, other@.len() as int) as nat,
            |i: int| bit_at(self@, i) != bit_at(other@, i),
        ));
        r
    }
}

impl Default for FixedBitSet {
    fn default() -> (r: Self)
        ensures
            r.wf(),
            r@ == Seq::<bool>::empty(),
    {
        FixedBitSet::new()
    }
}

/// Walks through the enabled bits of a bit set, lowest first.
pub struct Ones {
    blocks: Vec<u64>,
    length: usize,
    pos: usize,
}

impl Ones {
    /// The bits walked through.
    pub closed spec fn bits(&self) -> Seq<bool> {
        bits_of(self.blocks@, self.length as nat)
    }

    /// The index from which the walk goes on.
    pub closed spec fn position(&self) -> nat {
        self.pos as nat
    }

    pub closed spec fn wf(&self) -> bool {
        represents(self.blocks@, self.bits())
    }

    /// The next enabled bit at or after the position, if any; the position moves past it.
    pub fn next(&mut self) -> (r: Option<usize>)
        requires
            old(self).wf(),
        ensures
            final(self).wf(),
            final(self).bits() == old(self).bits(),
            match r {
                Some(i) => {
                    &&& old(self).position() <= i < old(self).bits().len()
                    &&& old(self).bits()[i as int]
                    &&& forall|j: int|
                        old(self).position() <= j < i ==> !#[trigger] old(self).bits()[j]
                    &&& final(self).position() == i + 1
                },
                None => {
                    &&& forall|j: int|
                        old(self).position() <= j < old(self).bits().len()
                            ==> !#[trigger] old(self).bits()[j]
                    &&& final(self).position() >= old(self).bits().len()
                    &&& final(self).position() >= old(self).position()
                },
            },
    {
        proof {
            lemma_blocks_cover(self.length as nat);
        }
        while self.pos < self.length
            invariant
                self.wf(),
                self.blocks == old(self).blocks,
                self.length == old(self).length,
                old(self).pos <= self.pos,
                forall|j: int| old(self).pos <= j < self.pos ==> !#[trigger] self.bits()[j],
            decreases self.length - self.pos,
        {
            let (block, i) = div_rem(self.pos, BITS);
            let w = self.blocks[block] >> (i as u64);
            if w == 0 {
                let rest = 64 - i;
                let ghost p = self.pos as int;
                let next = if self.length - self.pos <= rest {
                    self.length
                } else {
                    self.pos + rest
                };
                assert forall|j: int| p <= j < next implies !#[trigger] self.bits()[j] by {
                    assert(j / 64 == block as int);
                    lemma_shifted_zero(self.blocks@[block as int], i as u64, (j % 64) as u64);
                }
                self.pos = next;
            } else if w & 1u64 == 1u64 {
                let r = self.pos;
                assert(self.bits()[r as int]);
                self.pos = self.pos + 1;
                return Some(r);
            } else {
                assert(!self.bits()[self.pos as int]);
                self.pos = self.pos + 1;
            }
        }
        None
    }
}

} // verus!
