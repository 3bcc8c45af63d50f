//! Bit-level groundwork: a popcount model, the ascending list of set bits,
//! and small reusable lemmas about 64-bit masks.

use vstd::prelude::*;

verus! {

/// Number of set bits among the low `n` bits of `x`.
pub open spec fn popcount_below(x: u64, n: int) -> nat
    decreases n,
{
    if n <= 0 {
        0
    } else if (x >> ((n - 1) as u64)) & 1 == 1 {
        popcount_below(x, n - 1) + 1
    } else {
        popcount_below(x, n - 1)
    }
}

/// Number of set bits of `x`.
pub open spec fn popcount64(x: u64) -> nat {
    popcount_below(x, 64)
}

/// Indices of the set bits among the low `n` bits of `x`, ascending.
pub open spec fn bit_indices_below(x: u64, n: int) -> Seq<u8>
    decreases n,
{
    if n <= 0 {
        Seq::empty()
    } else if (x >> ((n - 1) as u64)) & 1 == 1 {
        bit_indices_below(x, n - 1).push((n - 1) as u8)
    } else {
        bit_indices_below(x, n - 1)
    }
}

/// Indices of the set bits of `x`, ascending.
pub open spec fn bit_indices(x: u64) -> Seq<u8> {
    bit_indices_below(x, 64)
}

proof fn lemma_popcount_below_bound(x: u64, n: int)
    ensures
        popcount_below(x, n) <= if n <= 0 { 0 } else { n },
    decreases n,
{
    if n > 0 {
        lemma_popcount_below_bound(x, n - 1);
    }
}

/// A 64-bit word has at most 64 set bits.
pub proof fn lemma_popcount_bound(x: u64)
    ensures
        popcount64(x) <= 64,
{
    lemma_popcount_below_bound(x, 64);
}

proof fn lemma_bit_indices_below_len(x: u64, n: int)
    ensures
        bit_indices_below(x, n).len() == popcount_below(x, n),
    decreases n,
{
    if n > 0 {
        lemma_bit_indices_below_len(x, n - 1);
    }
}

/// The list of set bits has one entry per set bit.
pub proof fn lemma_bit_indices_len(x: u64)
    ensures
        bit_indices(x).len() == popcount64(x),
{
    lemma_bit_indices_below_len(x, 64);
}

proof fn lemma_popcount_below_disjoint(a: u64, b: u64, n: int)
    requires
        a & b == 0,
    ensures
        popcount_below(a | b, n) == popcount_below(a, n) + popcount_below(b, n),
    decreases n,
{
    if n > 0 {
        lemma_popcount_below_disjoint(a, b, n - 1);
        let j = (n - 1) as u64;
        assert(((a | b) >> j) & 1 == ((a >> j) & 1) + ((b >> j) & 1) && ((a >> j) & 1 == 0
            || (a >> j) & 1 == 1) && ((b >> j) & 1 == 0 || (b >> j) & 1 == 1) && ((a >> j) & 1)
            + ((b >> j) & 1) <= 1) by (bit_vector)
            requires
                a & b == 0,
        ;
    }
}

/// Disjoint masks have additive popcounts.
pub proof fn lemma_popcount_disjoint(a: u64, b: u64)
    requires
        a & b == 0,
    ensures
        popcount64(a | b) == popcount64(a) + popcount64(b),
{
    lemma_popcount_below_disjoint(a, b, 64);
}

/// Clearing a submask `b` of `a` subtracts its popcount.
pub proof fn lemma_popcount_remove(a: u64, b: u64)
    requires
        a & b == b,
    ensures
        popcount64(b) <= popcount64(a),
        popcount64(a & !b) == popcount64(a) - popcount64(b),
{
    assert((a & !b) & b == 0 && ((a & !b) | b) == a) by (bit_vector)
        requires
            a & b == b,
    ;
    lemma_popcount_disjoint(a & !b, b);
}

proof fn lemma_popcount_below_single(i: u64, n: int)
    requires
        i < 64,
        n <= 64,
    ensures
        popcount_below(1u64 << i, n) == if i < n { 1nat } else { 0nat },
    decreases n,
{
    if n > 0 {
        lemma_popcount_below_single(i, n - 1);
        let j = (n - 1) as u64;
        assert(((1u64 << i) >> j) & 1 == if i == j { 1u64 } else { 0u64 }) by (bit_vector)
            requires
                i < 64 && j < 64,
        ;
    }
}

/// A single placed bit counts as one disc.
pub proof fn lemma_popcount_single(i: u64)
    requires
        i < 64,
    ensures
        popcount64(1u64 << i) == 1,
{
    lemma_popcount_below_single(i, 64);
}

/// A mask inside `b` is disjoint from anything disjoint from `b`.
pub proof fn lemma_subset_disjoint(a: u64, b: u64, c: u64)
    by (bit_vector)
    requires
        a & !b == 0,
        b & c == 0,
    ensures
        a & c == 0,
{
}

proof fn lemma_popcount_below_mono(x: u64, n1: int, n2: int)
    requires
        n1 <= n2,
    ensures
        popcount_below(x, n1) <= popcount_below(x, n2),
    decreases n2 - n1,
{
    if n1 < n2 {
        lemma_popcount_below_mono(x, n1, n2 - 1);
    }
}

/// A word with a set bit has a positive popcount.
pub proof fn lemma_popcount_positive(x: u64, j: u64)
    requires
        j < 64,
        (x >> j) & 1 == 1,
    ensures
        popcount64(x) >= 1,
{
    lemma_popcount_below_mono(x, j + 1, 64);
}

/// A set bit of `mv` is a submask of `mv`.
pub proof fn lemma_bit_in_mask(mv: u64, pos: u64)
    by (bit_vector)
    requires
        pos < 64,
        (mv >> pos) & 1 == 1,
    ensures
        (1u64 << pos) & !mv == 0,
        1u64 << pos != 0,
{
}

/// A single bit contained in `mv` shows up under a shift of `mv`.
pub proof fn lemma_mask_has_bit(mv: u64, pos: u64)
    by (bit_vector)
    requires
        pos < 64,
        (1u64 << pos) & !mv == 0,
    ensures
        (mv >> pos) & 1 == 1,
{
}

/// Submask containment is transitive.
pub proof fn lemma_subset_trans(a: u64, b: u64, c: u64)
    by (bit_vector)
    requires
        a & !b == 0,
        b & !c == 0,
    ensures
        a & !c == 0,
{
}

/// Clearing the lowest set bit keeps a submask and strictly shrinks the word.
pub proof fn lemma_clear_lowest(mv: u64)
    by (bit_vector)
    requires
        mv != 0,
    ensures
        (mv & ((mv - 1) as u64)) & !mv == 0,
        (mv & ((mv - 1) as u64)) < mv,
{
}

/// Mask algebra of one applied move: the mover's board `p` takes the captured
/// submask `f` of the opponent board `o` plus the placed bit `pb`. The boards
/// stay disjoint, their union grows by exactly the placed bit, and the pieces
/// moved split cleanly for counting.
pub proof fn lemma_apply_move(p: u64, o: u64, f: u64, pb: u64)
    by (bit_vector)
    requires
        p & o == 0,
        f & !o == 0,
        f & pb == 0,
        pb & (p | o) == 0,
    ensures
        ((p | f) | pb) & (o & !f) == 0,
        (o & !f) & ((p | f) | pb) == 0,
        ((p | f) | pb) & (o & !(f | pb)) == 0,
        o & !(f | pb) == o & !f,
        (((p | f) | pb) | (o & !f)) == (p | o) | pb,
        o & f == f,
        p & (f | pb) == 0,
        (p | (f | pb)) == ((p | f) | pb),
        (p | o) & pb == 0,
{
}

/// Counts the set bits of `x`; the loop realises `popcount64`.
pub fn popcount(x: u64) -> (c: u32)
    ensures
        c == popcount64(x),
        c <= 64,
{
    let mut c: u32 = 0;
    let mut i: u64 = 0;
    while i < 64
        invariant
            i <= 64,
            c == popcount_below(x, i as int),
            c <= i,
        decreases 64 - i,
    {
        proof {
            assert((x >> i) & 1 == 0 || (x >> i) & 1 == 1) by (bit_vector);
        }
        c = c + ((x >> i) & 1) as u32;
        i = i + 1;
    }
    c
}

} // verus!
