//! Capture computation: which opponent discs a placement would flip.
//!
//! For a placement at `pos` by the owner of `p`, each of the 8 axis-aligned
//! rays from `pos` is examined with the outflank technique: find the first
//! cell along the ray that is not opponent-owned; if it holds a `p` disc,
//! the contiguous opponent run strictly between `pos` and that disc is
//! captured. Toward lower bit indices the outflank is found by counting the
//! ray's leading zeros from the far edge; toward higher bit indices by a
//! carry that rides over the opponent run. Legality is not checked here:
//! callers must confirm `pos` against the legal-move mask first.

use vstd::prelude::*;
use vstd::std_specs::bits::axiom_u64_leading_zeros;
use vstd::std_specs::bits::axiom_u64_trailing_zeros;
use vstd::std_specs::bits::u64_trailing_zeros;
use vstd::std_specs::bits::u64_leading_zeros;

use crate::moves::spec_interior;
use crate::reversi::Reversi;

verus! {

/// Captured cells along one ray toward lower bit indices. `m` holds the ray's
/// cells, `om` the opponent discs usable on this axis. The highest cell of
/// `!om & m` is the nearest non-opponent cell; if a `p` disc stands there,
/// every ray cell above it is captured.
pub open spec fn spec_capture_low(m: u64, om: u64, p: u64) -> u64 {
    let x = !om & m;
    if x == 0 {
        0
    } else {
        let h = 0x8000000000000000u64 >> (u64_leading_zeros(x) as u64);
        let of = h & p;
        if of == 0 {
            0
        } else {
            (((!of + 1) as u64) << 1) & m
        }
    }
}

/// Captured cells along one ray toward higher bit indices. Adding one to
/// `om | !m` carries across the opponent run that starts the ray and stops at
/// the first non-opponent ray cell; if a `p` disc stands there, every ray
/// cell below it is captured.
pub open spec fn spec_capture_high(m: u64, om: u64, p: u64) -> u64 {
    let s = om | !m;
    let of = if s == 0xffffffffffffffffu64 {
        0u64
    } else {
        m & ((s + 1) as u64) & p
    };
    if of == 0 {
        0
    } else {
        ((of - 1) as u64) & m
    }
}

/// All opponent discs captured by a placement at `pos` by the owner of `p`:
/// both directions of all four axes, unioned. On every axis but the vertical
/// one the opponent mask is restricted to the interior columns so a ray
/// cannot wrap around a board edge.
pub open spec fn spec_flips(pos: u64, p: u64, o: u64) -> u64 {
    let om = o & spec_interior();
    let sh = (63 - pos) as u64;
    spec_capture_low(0x0080808080808080u64 >> sh, o, p) | spec_capture_low(
        0x7f00000000000000u64 >> sh,
        om,
        p,
    ) | spec_capture_low(0x0102040810204000u64 >> sh, om, p) | spec_capture_low(
        0x0040201008040201u64 >> sh,
        om,
        p,
    ) | spec_capture_high(0x0101010101010100u64 << pos, o, p) | spec_capture_high(
        0x00000000000000feu64 << pos,
        om,
        p,
    ) | spec_capture_high(0x0002040810204080u64 << pos, om, p) | spec_capture_high(
        0x8040201008040200u64 << pos,
        om,
        p,
    )
}

/// Whatever a low ray captures lies among the opponent discs of its own ray.
proof fn lemma_capture_low_in_ray(m: u64, om: u64, p: u64)
    ensures
        spec_capture_low(m, om, p) & !(om & m) == 0,
{
    let x = !om & m;
    if x == 0 {
        assert(0u64 & !(om & m) == 0) by (bit_vector);
    } else {
        axiom_u64_leading_zeros(x);
        let lzu = u64_leading_zeros(x) as u64;
        let h = 0x8000000000000000u64 >> lzu;
        assert(((((!(h & p) + 1) as u64) << 1) & m) & !(om & m) == 0 && 0u64 & !(om & m)
            == 0) by (bit_vector)
            requires
                lzu < 64,
                x == !om & m,
                h == 0x8000000000000000u64 >> lzu,
                x >> ((64 - lzu) as u64) == 0,
        ;
    }
}

/// Whatever a high ray captures lies among the opponent discs of its own ray.
proof fn lemma_capture_high_in_ray(m: u64, om: u64, p: u64)
    by (bit_vector)
    requires
        p & om == 0,
    ensures
        spec_capture_high(m, om, p) & !(om & m) == 0,
{
}

/// None of the 8 ray masks for `pos` contains `pos` itself.
proof fn lemma_rays_avoid_pos(pos: u64)
    by (bit_vector)
    requires
        pos < 64,
    ensures
        (0x0080808080808080u64 >> ((63 - pos) as u64)) & (1u64 << pos) == 0,
        (0x7f00000000000000u64 >> ((63 - pos) as u64)) & (1u64 << pos) == 0,
        (0x0102040810204000u64 >> ((63 - pos) as u64)) & (1u64 << pos) == 0,
        (0x0040201008040201u64 >> ((63 - pos) as u64)) & (1u64 << pos) == 0,
        (0x0101010101010100u64 << pos) & (1u64 << pos) == 0,
        (0x00000000000000feu64 << pos) & (1u64 << pos) == 0,
        (0x0002040810204080u64 << pos) & (1u64 << pos) == 0,
        (0x8040201008040200u64 << pos) & (1u64 << pos) == 0,
{
}

/// A capture confined to its ray's opponent discs avoids anything the ray
/// and the opponent mask avoid.
proof fn lemma_ray_bounds(r: u64, m: u64, om: u64, o: u64, pb: u64)
    by (bit_vector)
    requires
        r & !(om & m) == 0,
        om & !o == 0,
        m & pb == 0,
    ensures
        r & !o == 0,
        r & pb == 0,
{
}

/// Two masks avoiding `!o` and `pb` still avoid them when unioned.
proof fn lemma_union_bounds(a: u64, b: u64, o: u64, pb: u64)
    by (bit_vector)
    requires
        a & !o == 0,
        b & !o == 0,
        a & pb == 0,
        b & pb == 0,
    ensures
        (a | b) & !o == 0,
        (a | b) & pb == 0,
{
}

/// A ray whose run form marks `pos` as a destination captures something on
/// the matching ray toward lower bit indices.
proof fn lemma_runs_pos_captures(p: u64, om: u64, pos: u64, s: u64, base: u64)
    requires
        pos < 64,
        p & om == 0,
        (crate::moves::spec_runs_pos(p, om, s) >> pos) & 1 == 1,
        (s == 1 && base == 0x7f00000000000000u64) || (s == 7 && base == 0x0102040810204000u64) || (
        s == 8 && base == 0x0080808080808080u64) || (s == 9 && base == 0x0040201008040201u64),
    ensures
        spec_capture_low(base >> ((63 - pos) as u64), om, p) != 0,
{
    let m = base >> ((63 - pos) as u64);
    let x = !om & m;
    assert(!om & (base >> ((63 - pos) as u64)) != 0) by (bit_vector)
        requires
            pos < 64,
            p & om == 0,
            (crate::moves::spec_runs_pos(p, om, s) >> pos) & 1 == 1,
            (s == 1 && base == 0x7f00000000000000u64) || (s == 7 && base
                == 0x0102040810204000u64) || (s == 8 && base == 0x0080808080808080u64) || (s == 9
                && base == 0x0040201008040201u64),
    ;
    axiom_u64_leading_zeros(x);
    let lzu = u64_leading_zeros(x) as u64;
    assert((0x8000000000000000u64 >> lzu) & p != 0 && ((((!((0x8000000000000000u64 >> lzu) & p)
        + 1) as u64) << 1) & (base >> ((63 - pos) as u64))) != 0) by (bit_vector)
        requires
            pos < 64,
            p & om == 0,
            (crate::moves::spec_runs_pos(p, om, s) >> pos) & 1 == 1,
            (s == 1 && base == 0x7f00000000000000u64) || (s == 7 && base
                == 0x0102040810204000u64) || (s == 8 && base == 0x0080808080808080u64) || (s == 9
                && base == 0x0040201008040201u64),
            lzu < 64,
            ((!om & (base >> ((63 - pos) as u64))) >> ((63 - lzu) as u64)) & 1 != 0,
            (!om & (base >> ((63 - pos) as u64))) >> ((64 - lzu) as u64) == 0,
    ;
}

/// A ray whose run form marks `pos` as a destination captures something on
/// the matching ray toward higher bit indices.
proof fn lemma_runs_neg_captures(p: u64, om: u64, pos: u64, s: u64, base: u64)
    by (bit_vector)
    requires
        pos < 64,
        p & om == 0,
        (crate::moves::spec_runs_neg(p, om, s) >> pos) & 1 == 1,
        (s == 1 && base == 0x00000000000000feu64) || (s == 7 && base == 0x0002040810204080u64) || (
        s == 8 && base == 0x0101010101010100u64) || (s == 9 && base == 0x8040201008040200u64),
    ensures
        spec_capture_high(base << pos, om, p) != 0,
{
}

proof fn lemma_union8_nonzero(a: u64, b: u64, c: u64, d: u64, e: u64, f: u64, g: u64, h: u64)
    by (bit_vector)
    requires
        a != 0 || b != 0 || c != 0 || d != 0 || e != 0 || f != 0 || g != 0 || h != 0,
    ensures
        (a | b | c | d | e | f | g | h) != 0,
{
}

/// A legal move always captures: the capture set of any destination in the
/// legal-move mask holds at least one opponent disc.
pub proof fn lemma_legal_move_captures(p: u64, o: u64, pos: u64)
    requires
        pos < 64,
        p & o == 0,
        (crate::moves::spec_legal_moves(p, o) >> pos) & 1 == 1,
    ensures
        spec_flips(pos, p, o) != 0,
        crate::bits::popcount64(spec_flips(pos, p, o)) >= 1,
{
    let om = o & spec_interior();
    crate::moves::lemma_legal_moves_runs(p, o);
    let u1 = crate::moves::spec_runs_pos(p, om, 1);
    let u2 = crate::moves::spec_runs_pos(p, om, 7);
    let u3 = crate::moves::spec_runs_pos(p, o, 8);
    let u4 = crate::moves::spec_runs_pos(p, om, 9);
    let u5 = crate::moves::spec_runs_neg(p, om, 1);
    let u6 = crate::moves::spec_runs_neg(p, om, 7);
    let u7 = crate::moves::spec_runs_neg(p, o, 8);
    let u8 = crate::moves::spec_runs_neg(p, om, 9);
    assert(p & om == 0 && ((u1 >> pos) & 1 == 1 || (u2 >> pos) & 1 == 1 || (u3 >> pos) & 1 == 1 || (
    u4 >> pos) & 1 == 1 || (u5 >> pos) & 1 == 1 || (u6 >> pos) & 1 == 1 || (u7 >> pos) & 1 == 1
        || (u8 >> pos) & 1 == 1)) by (bit_vector)
        requires
            pos < 64,
            p & o == 0,
            om == o & 0x7e7e7e7e7e7e7e7eu64,
            (((u1 | u2 | u3 | u4 | u5 | u6 | u7 | u8) & !(p | o)) >> pos) & 1 == 1,
    ;
    let sh = (63 - pos) as u64;
    let c1 = spec_capture_low(0x0080808080808080u64 >> sh, o, p);
    let c2 = spec_capture_low(0x7f00000000000000u64 >> sh, om, p);
    let c3 = spec_capture_low(0x0102040810204000u64 >> sh, om, p);
    let c4 = spec_capture_low(0x0040201008040201u64 >> sh, om, p);
    let c5 = spec_capture_high(0x0101010101010100u64 << pos, o, p);
    let c6 = spec_capture_high(0x00000000000000feu64 << pos, om, p);
    let c7 = spec_capture_high(0x0002040810204080u64 << pos, om, p);
    let c8 = spec_capture_high(0x8040201008040200u64 << pos, om, p);
    if (u1 >> pos) & 1 == 1 {
        lemma_runs_pos_captures(p, om, pos, 1, 0x7f00000000000000u64);
    } else if (u2 >> pos) & 1 == 1 {
        lemma_runs_pos_captures(p, om, pos, 7, 0x0102040810204000u64);
    } else if (u3 >> pos) & 1 == 1 {
        lemma_runs_pos_captures(p, o, pos, 8, 0x0080808080808080u64);
    } else if (u4 >> pos) & 1 == 1 {
        lemma_runs_pos_captures(p, om, pos, 9, 0x0040201008040201u64);
    } else if (u5 >> pos) & 1 == 1 {
        lemma_runs_neg_captures(p, om, pos, 1, 0x00000000000000feu64);
    } else if (u6 >> pos) & 1 == 1 {
        lemma_runs_neg_captures(p, om, pos, 7, 0x0002040810204080u64);
    } else if (u7 >> pos) & 1 == 1 {
        lemma_runs_neg_captures(p, o, pos, 8, 0x0101010101010100u64);
    } else {
        lemma_runs_neg_captures(p, om, pos, 9, 0x8040201008040200u64);
    }
    lemma_union8_nonzero(c1, c2, c3, c4, c5, c6, c7, c8);
    let fl = spec_flips(pos, p, o);
    axiom_u64_trailing_zeros(fl);
    crate::bits::lemma_popcount_positive(fl, u64_trailing_zeros(fl) as u64);
}

fn capture_low(m: u64, om: u64, p: u64) -> (r: u64)
    ensures
        r == spec_capture_low(m, om, p),
        r & !(om & m) == 0,
{
    proof {
        lemma_capture_low_in_ray(m, om, p);
    }
    let x = !om & m;
    if x == 0 {
        0
    } else {
        proof {
            axiom_u64_leading_zeros(x);
        }
        let lzu = x.leading_zeros() as u64;
        let h = 0x8000000000000000u64 >> lzu;
        let of = h & p;
        if of == 0 {
            0
        } else {
            proof {
                assert(!of < 0xffffffffffffffffu64) by (bit_vector)
                    requires
                        of != 0u64,
                ;
            }
            ((!of + 1) << 1) & m
        }
    }
}

fn capture_high(m: u64, om: u64, p: u64) -> (r: u64)
    requires
        p & om == 0,
    ensures
        r == spec_capture_high(m, om, p),
        r & !(om & m) == 0,
{
    proof {
        lemma_capture_high_in_ray(m, om, p);
    }
    let s = om | !m;
    let of = if s == 0xffffffffffffffffu64 {
        0u64
    } else {
        m & (s + 1) & p
    };
    if of == 0 {
        0
    } else {
        (of - 1) & m
    }
}

impl Reversi {
    /// Computes the capture set for a placement at `pos` by the owner of `p`.
    /// The result holds opponent discs only and never the placed cell. With
    /// an illegal `pos` the result is still confined this way, but carries no
    /// meaning; callers check the legal-move mask first.
    pub fn flip_pieces(pos: usize, p: u64, o: u64) -> (r: u64)
        requires
            pos < 64,
            p & o == 0,
        ensures
            r == spec_flips(pos as u64, p, o),
            r & !o == 0,
            r & (1u64 << pos as u64) == 0,
    {
        let om = o & 0x7e7e7e7e7e7e7e7eu64;
        let sh = (63 - pos) as u64;
        let m1 = 0x0080808080808080u64 >> sh;
        let m2 = 0x7f00000000000000u64 >> sh;
        let m3 = 0x0102040810204000u64 >> sh;
        let m4 = 0x0040201008040201u64 >> sh;
        let m5 = 0x0101010101010100u64 << pos;
        let m6 = 0x00000000000000feu64 << pos;
        let m7 = 0x0002040810204080u64 << pos;
        let m8 = 0x8040201008040200u64 << pos;
        proof {
            assert(p & (o & 0x7e7e7e7e7e7e7e7eu64) == 0 && (o & 0x7e7e7e7e7e7e7e7eu64) & !o == 0 && o
                & !o == 0) by (bit_vector)
                requires
                    p & o == 0,
            ;
    }
    let r1 = capture_low(m1, o, p);
    let r2 = capture_low(m2, om, p);
    let r3 = capture_low(m3, om, p);
    let r4 = capture_low(m4, om, p);
    let r5 = capture_high(m5, o, p);
    let r6 = capture_high(m6, om, p);
    let r7 = capture_high(m7, om, p);
    let r8 = capture_high(m8, om, p);
    let r = r1 | r2 | r3 | r4 | r5 | r6 | r7 | r8;
    proof {
        let pb = 1u64 << pos as u64;
        lemma_rays_avoid_pos(pos as u64);
        lemma_ray_bounds(r1, m1, o, o, pb);
        lemma_ray_bounds(r2, m2, om, o, pb);
        lemma_ray_bounds(r3, m3, om, o, pb);
        lemma_ray_bounds(r4, m4, om, o, pb);
        lemma_ray_bounds(r5, m5, o, o, pb);
        lemma_ray_bounds(r6, m6, om, o, pb);
        lemma_ray_bounds(r7, m7, om, o, pb);
        lemma_ray_bounds(r8, m8, om, o, pb);
        lemma_union_bounds(r1, r2, o, pb);
        lemma_union_bounds(r1 | r2, r3, o, pb);
        lemma_union_bounds(r1 | r2 | r3, r4, o, pb);
        lemma_union_bounds(r1 | r2 | r3 | r4, r5, o, pb);
        lemma_union_bounds(r1 | r2 | r3 | r4 | r5, r6, o, pb);
        lemma_union_bounds(r1 | r2 | r3 | r4 | r5 | r6, r7, o, pb);
        lemma_union_bounds(r1 | r2 | r3 | r4 | r5 | r6 | r7, r8, o, pb);
    }
    r
    }
}

} // verus!
