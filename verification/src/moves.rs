//! Legal-move generation: for a player owning `p` against `o`, every empty
//! cell that sandwiches a contiguous run of `o` discs between the new disc
//! and an existing `p` disc, in any of the 8 directions.
//!
//! Each of the 4 axes is handled in both bit-shift directions by a
//! bit-parallel flood fill: seed with `o` cells adjacent to a `p` disc, extend
//! the run step by step (a doubling trick covers runs up to the 6 cells an
//! 8-wide board allows), then step once more onto the destination cell.
//! For every axis but the vertical one the opponent mask is restricted to the
//! interior columns first, so that a shift cannot wrap around a board edge.

use vstd::prelude::*;

use crate::reversi::Reversi;

verus! {

/// Interior columns: every cell outside the leftmost and rightmost files.
pub open spec fn spec_interior() -> u64 {
    0x7e7e7e7e7e7e7e7eu64
}

/// Flood fill toward higher bit indices: cells one step beyond a run of up to
/// six `o` cells that starts right above a `p` disc, stepping `s` bits at a
/// time.
pub open spec fn spec_flood_pos(p: u64, o: u64, s: u64) -> u64 {
    let f1 = o & (p << s);
    let f2 = f1 | (o & (f1 << s));
    let pre = o & (o << s);
    let d = (2 * s) as u64;
    let f3 = f2 | (pre & (f2 << d));
    let f4 = f3 | (pre & (f3 << d));
    f4 << s
}

/// Flood fill toward lower bit indices, the mirror of `spec_flood_pos`.
pub open spec fn spec_flood_neg(p: u64, o: u64, s: u64) -> u64 {
    let f1 = o & (p >> s);
    let f2 = f1 | (o & (f1 >> s));
    let pre = (o & (o << s)) >> s;
    let d = (2 * s) as u64;
    let f3 = f2 | (pre & (f2 >> d));
    let f4 = f3 | (pre & (f3 >> d));
    f4 >> s
}

/// The legal destination mask for the player owning `p` against `o`: the
/// union of all 8 directional flood fills, restricted to empty cells.
pub open spec fn spec_legal_moves(p: u64, o: u64) -> u64 {
    let om = o & spec_interior();
    (spec_flood_pos(p, om, 1) | spec_flood_pos(p, om, 7) | spec_flood_pos(p, o, 8)
        | spec_flood_pos(p, om, 9) | spec_flood_neg(p, om, 1) | spec_flood_neg(p, om, 7)
        | spec_flood_neg(p, o, 8) | spec_flood_neg(p, om, 9)) & !(p | o)
}

/// Direct form of the positive-direction flood fill: a destination is one
/// step beyond a contiguous run of exactly `k` opponent cells (for some `k`
/// from 1 to 6) whose far end sits on a `p` disc.
pub open spec fn spec_runs_pos(p: u64, o: u64, s: u64) -> u64 {
    let r1 = o;
    let r2 = r1 & (o << s);
    let r3 = r2 & (o << ((2 * s) as u64));
    let r4 = r3 & (o << ((3 * s) as u64));
    let r5 = r4 & (o << ((4 * s) as u64));
    let r6 = r5 & (o << ((5 * s) as u64));
    ((r1 & (p << s)) | (r2 & (p << ((2 * s) as u64))) | (r3 & (p << ((3 * s) as u64))) | (r4 & (p
        << ((4 * s) as u64))) | (r5 & (p << ((5 * s) as u64))) | (r6 & (p << ((6 * s) as u64))))
        << s
}

/// Direct form of the negative-direction flood fill, the mirror of
/// `spec_runs_pos`.
pub open spec fn spec_runs_neg(p: u64, o: u64, s: u64) -> u64 {
    let r1 = o;
    let r2 = r1 & (o >> s);
    let r3 = r2 & (o >> ((2 * s) as u64));
    let r4 = r3 & (o >> ((3 * s) as u64));
    let r5 = r4 & (o >> ((4 * s) as u64));
    let r6 = r5 & (o >> ((5 * s) as u64));
    ((r1 & (p >> s)) | (r2 & (p >> ((2 * s) as u64))) | (r3 & (p >> ((3 * s) as u64))) | (r4 & (p
        >> ((4 * s) as u64))) | (r5 & (p >> ((5 * s) as u64))) | (r6 & (p >> ((6 * s) as u64))))
        >> s
}

/// The doubling flood fill reaches exactly the destinations of runs of 1 to 6
/// opponent cells: no shorter scheme and nothing longer.
proof fn lemma_flood_pos_runs(p: u64, o: u64, s: u64)
    by (bit_vector)
    requires
        1 <= s <= 9,
    ensures
        spec_flood_pos(p, o, s) == spec_runs_pos(p, o, s),
{
}

/// Mirror of `lemma_flood_pos_runs` for the negative direction.
proof fn lemma_flood_neg_runs(p: u64, o: u64, s: u64)
    by (bit_vector)
    requires
        1 <= s <= 9,
    ensures
        spec_flood_neg(p, o, s) == spec_runs_neg(p, o, s),
{
}

/// The legal destination mask in its direct form: an empty cell one step
/// beyond a contiguous run of 1 to 6 opponent cells that ends on a `p` disc,
/// in any of the 8 directions, with the wrap-prone axes confined to the
/// interior columns.
pub proof fn lemma_legal_moves_runs(p: u64, o: u64)
    ensures
        spec_legal_moves(p, o) == (spec_runs_pos(p, o & spec_interior(), 1) | spec_runs_pos(
            p,
            o & spec_interior(),
            7,
        ) | spec_runs_pos(p, o, 8) | spec_runs_pos(p, o & spec_interior(), 9) | spec_runs_neg(
            p,
            o & spec_interior(),
            1,
        ) | spec_runs_neg(p, o & spec_interior(), 7) | spec_runs_neg(p, o, 8) | spec_runs_neg(
            p,
            o & spec_interior(),
            9,
        )) & !(p | o),
{
    let om = o & spec_interior();
    lemma_flood_pos_runs(p, om, 1);
    lemma_flood_pos_runs(p, om, 7);
    lemma_flood_pos_runs(p, o, 8);
    lemma_flood_pos_runs(p, om, 9);
    lemma_flood_neg_runs(p, om, 1);
    lemma_flood_neg_runs(p, om, 7);
    lemma_flood_neg_runs(p, o, 8);
    lemma_flood_neg_runs(p, om, 9);
}

/// A contiguous run of `k + 1` discs ending at stride `s` below `e`: the run
/// starts with `k` opponent discs directly below `e` and bottoms out on a `p`
/// disc one further step below.
pub open spec fn spec_sandwich_pos(p: u64, o: u64, s: u64, e: u64, k: int) -> bool
    decreases k,
{
    if k <= 0 {
        e >= s && (p >> ((e - s) as u64)) & 1 == 1
    } else {
        e >= s && (o >> ((e - s) as u64)) & 1 == 1 && spec_sandwich_pos(
            p,
            o,
            s,
            (e - s) as u64,
            k - 1,
        )
    }
}

/// Mirror of `spec_sandwich_pos`: the run climbs from `e` at stride `s`, `k`
/// opponent discs first, then the outflanking `p` disc.
pub open spec fn spec_sandwich_neg(p: u64, o: u64, s: u64, e: u64, k: int) -> bool
    decreases k,
{
    if k <= 0 {
        e + s < 64 && (p >> ((e + s) as u64)) & 1 == 1
    } else {
        e + s < 64 && (o >> ((e + s) as u64)) & 1 == 1 && spec_sandwich_neg(
            p,
            o,
            s,
            (e + s) as u64,
            k - 1,
        )
    }
}

/// Cell by cell, the positive-direction flood marks exactly the cells that
/// sit one step beyond a sandwiched opponent run of some length 1 to 6.
pub proof fn lemma_runs_pos_bit(p: u64, o: u64, s: u64, e: u64)
    requires
        1 <= s <= 9,
        e < 64,
    ensures
        ((spec_runs_pos(p, o, s) >> e) & 1 == 1) <==> exists|k: int|
            1 <= k <= 6 && spec_sandwich_pos(p, o, s, e, k),
{
    assert(((spec_runs_pos(p, o, s) >> e) & 1 == 1) <==> (spec_sandwich_pos(p, o, s, e, 1)
        || spec_sandwich_pos(p, o, s, e, 2) || spec_sandwich_pos(p, o, s, e, 3)
        || spec_sandwich_pos(p, o, s, e, 4) || spec_sandwich_pos(p, o, s, e, 5)
        || spec_sandwich_pos(p, o, s, e, 6))) by (bit_vector)
        requires
            1 <= s <= 9,
            e < 64,
    ;
    if (spec_runs_pos(p, o, s) >> e) & 1 == 1 {
        if spec_sandwich_pos(p, o, s, e, 1) {
            assert(spec_sandwich_pos(p, o, s, e, 1));
        } else if spec_sandwich_pos(p, o, s, e, 2) {
            assert(spec_sandwich_pos(p, o, s, e, 2));
        } else if spec_sandwich_pos(p, o, s, e, 3) {
            assert(spec_sandwich_pos(p, o, s, e, 3));
        } else if spec_sandwich_pos(p, o, s, e, 4) {
            assert(spec_sandwich_pos(p, o, s, e, 4));
        } else if spec_sandwich_pos(p, o, s, e, 5) {
            assert(spec_sandwich_pos(p, o, s, e, 5));
        } else {
            assert(spec_sandwich_pos(p, o, s, e, 6));
        }
    }
}

/// Mirror of `lemma_runs_pos_bit` for the negative direction.
pub proof fn lemma_runs_neg_bit(p: u64, o: u64, s: u64, e: u64)
    requires
        1 <= s <= 9,
        e < 64,
    ensures
        ((spec_runs_neg(p, o, s) >> e) & 1 == 1) <==> exists|k: int|
            1 <= k <= 6 && spec_sandwich_neg(p, o, s, e, k),
{
    assert(((spec_runs_neg(p, o, s) >> e) & 1 == 1) <==> (spec_sandwich_neg(p, o, s, e, 1)
        || spec_sandwich_neg(p, o, s, e, 2) || spec_sandwich_neg(p, o, s, e, 3)
        || spec_sandwich_neg(p, o, s, e, 4) || spec_sandwich_neg(p, o, s, e, 5)
        || spec_sandwich_neg(p, o, s, e, 6))) by (bit_vector)
        requires
            1 <= s <= 9,
            e < 64,
    ;
    if (spec_runs_neg(p, o, s) >> e) & 1 == 1 {
        if spec_sandwich_neg(p, o, s, e, 1) {
            assert(spec_sandwich_neg(p, o, s, e, 1));
        } else if spec_sandwich_neg(p, o, s, e, 2) {
            assert(spec_sandwich_neg(p, o, s, e, 2));
        } else if spec_sandwich_neg(p, o, s, e, 3) {
            assert(spec_sandwich_neg(p, o, s, e, 3));
        } else if spec_sandwich_neg(p, o, s, e, 4) {
            assert(spec_sandwich_neg(p, o, s, e, 4));
        } else if spec_sandwich_neg(p, o, s, e, 5) {
            assert(spec_sandwich_neg(p, o, s, e, 5));
        } else {
            assert(spec_sandwich_neg(p, o, s, e, 6));
        }
    }
}

/// Cell by cell, a move is legal exactly when its cell is empty and, in one
/// of the 8 directions (stride 1 along a row, 8 along a column, 7 and 9 along
/// the diagonals, each walked both ways), a run of 1 to 6 opponent discs
/// separates it from a `p` disc. On every axis but the vertical one the run
/// may only use interior-column discs, which bars runs that would wrap around
/// a board edge.
pub proof fn lemma_legal_moves_bit(p: u64, o: u64, e: u64)
    requires
        e < 64,
    ensures
        ((spec_legal_moves(p, o) >> e) & 1 == 1) <==> (((p | o) >> e) & 1 == 0 && ((exists|k: int|
            1 <= k <= 6 && spec_sandwich_pos(p, o & spec_interior(), 1, e, k)) || (exists|k: int|
            1 <= k <= 6 && spec_sandwich_pos(p, o & spec_interior(), 7, e, k)) || (exists|k: int|
            1 <= k <= 6 && spec_sandwich_pos(p, o, 8, e, k)) || (exists|k: int|
            1 <= k <= 6 && spec_sandwich_pos(p, o & spec_interior(), 9, e, k)) || (exists|k: int|
            1 <= k <= 6 && spec_sandwich_neg(p, o & spec_interior(), 1, e, k)) || (exists|k: int|
            1 <= k <= 6 && spec_sandwich_neg(p, o & spec_interior(), 7, e, k)) || (exists|k: int|
            1 <= k <= 6 && spec_sandwich_neg(p, o, 8, e, k)) || (exists|k: int|
            1 <= k <= 6 && spec_sandwich_neg(p, o & spec_interior(), 9, e, k)))),
{
    let om = o & spec_interior();
    lemma_legal_moves_runs(p, o);
    let u1 = spec_runs_pos(p, om, 1);
    let u2 = spec_runs_pos(p, om, 7);
    let u3 = spec_runs_pos(p, o, 8);
    let u4 = spec_runs_pos(p, om, 9);
    let u5 = spec_runs_neg(p, om, 1);
    let u6 = spec_runs_neg(p, om, 7);
    let u7 = spec_runs_neg(p, o, 8);
    let u8 = spec_runs_neg(p, om, 9);
    assert(((((u1 | u2 | u3 | u4 | u5 | u6 | u7 | u8) & !(p | o)) >> e) & 1 == 1) <==> (((p | o)
        >> e) & 1 == 0 && ((u1 >> e) & 1 == 1 || (u2 >> e) & 1 == 1 || (u3 >> e) & 1 == 1 || (u4
        >> e) & 1 == 1 || (u5 >> e) & 1 == 1 || (u6 >> e) & 1 == 1 || (u7 >> e) & 1 == 1 || (u8
        >> e) & 1 == 1))) by (bit_vector)
        requires
            e < 64,
    ;
    lemma_runs_pos_bit(p, om, 1, e);
    lemma_runs_pos_bit(p, om, 7, e);
    lemma_runs_pos_bit(p, o, 8, e);
    lemma_runs_pos_bit(p, om, 9, e);
    lemma_runs_neg_bit(p, om, 1, e);
    lemma_runs_neg_bit(p, om, 7, e);
    lemma_runs_neg_bit(p, o, 8, e);
    lemma_runs_neg_bit(p, om, 9, e);
}

fn flood_pos(p: u64, o: u64, s: u64) -> (r: u64)
    requires
        1 <= s <= 9,
    ensures
        r == spec_flood_pos(p, o, s),
{
    let f1 = o & (p << s);
    let f2 = f1 | (o & (f1 << s));
    let pre = o & (o << s);
    let d = 2 * s;
    let f3 = f2 | (pre & (f2 << d));
    let f4 = f3 | (pre & (f3 << d));
    f4 << s
}

fn flood_neg(p: u64, o: u64, s: u64) -> (r: u64)
    requires
        1 <= s <= 9,
    ensures
        r == spec_flood_neg(p, o, s),
{
    let f1 = o & (p >> s);
    let f2 = f1 | (o & (f1 >> s));
    let pre = (o & (o << s)) >> s;
    let d = 2 * s;
    let f3 = f2 | (pre & (f2 >> d));
    let f4 = f3 | (pre & (f3 >> d));
    f4 >> s
}

impl Reversi {
    /// Computes the legal destination mask for the player owning `p` against
    /// `o`; no destination is ever an occupied cell.
    pub fn get_moves(p: u64, o: u64) -> (r: u64)
        ensures
            r == spec_legal_moves(p, o),
            r & (p | o) == 0,
    {
        let om = o & 0x7e7e7e7e7e7e7e7eu64;
        let union = flood_pos(p, om, 1) | flood_pos(p, om, 7) | flood_pos(p, o, 8) | flood_pos(
            p,
            om,
            9,
        ) | flood_neg(p, om, 1) | flood_neg(p, om, 7) | flood_neg(p, o, 8) | flood_neg(p, om, 9);
        let r = union & !(p | o);
        proof {
            assert((union & !(p | o)) & (p | o) == 0) by (bit_vector);
        }
        r
    }
}

} // verus!
