//! The game state: two disjoint bitboards with turn and side bookkeeping,
//! plus the record of the last applied move and the cached search score.

use vstd::prelude::*;

use crate::bits::bit_indices;
use crate::bits::bit_indices_below;
use crate::bits::lemma_bit_indices_len;
use crate::bits::lemma_bit_in_mask;
use crate::bits::lemma_apply_move;
use crate::bits::lemma_popcount_bound;
use crate::bits::lemma_popcount_disjoint;
use crate::bits::lemma_popcount_remove;
use crate::bits::lemma_popcount_single;
use crate::bits::lemma_subset_disjoint;
use crate::bits::popcount;
use crate::bits::popcount64;
use crate::flips::spec_flips;
use crate::moves::spec_legal_moves;

verus! {

/// Opening discs of the first mover (black): cells 28 and 35.
pub open spec fn opening_first() -> u64 {
    (1u64 << 28) | (1u64 << 35)
}

/// Opening discs of the second mover (white): cells 27 and 36.
pub open spec fn opening_second() -> u64 {
    (1u64 << 27) | (1u64 << 36)
}

/// Material differential: the mover's discs minus the opponent's.
pub open spec fn spec_evaluate(my: u64, op: u64) -> int {
    popcount64(my) - popcount64(op)
}

/// Swapping the two boards negates the static evaluation.
pub proof fn lemma_evaluate_antisymmetric(a: u64, b: u64)
    ensures
        spec_evaluate(a, b) == -spec_evaluate(b, a),
{
}

proof fn lemma_opening()
    ensures
        opening_first() & opening_second() == 0,
        opening_second() & opening_first() == 0,
        popcount64(opening_first() | opening_second()) == 4,
        popcount64(opening_second() | opening_first()) == 4,
{
    assert(((1u64 << 28) | (1u64 << 35)) & ((1u64 << 27) | (1u64 << 36)) == 0 && (1u64 << 28) & (
    1u64 << 35) == 0 && (1u64 << 27) & (1u64 << 36) == 0 && ((1u64 << 27) | (1u64 << 36)) & ((1u64
        << 28) | (1u64 << 35)) == 0 && (((1u64 << 28) | (1u64 << 35)) | ((1u64 << 27) | (1u64
        << 36))) == (((1u64 << 27) | (1u64 << 36)) | ((1u64 << 28) | (1u64 << 35))))
        by (bit_vector);
    lemma_popcount_single(28);
    lemma_popcount_single(35);
    lemma_popcount_single(27);
    lemma_popcount_single(36);
    lemma_popcount_disjoint(1u64 << 28, 1u64 << 35);
    lemma_popcount_disjoint(1u64 << 27, 1u64 << 36);
    lemma_popcount_disjoint(opening_first(), opening_second());
}

/// A Reversi game session. `my_pieces` always holds the engine's discs and
/// `op_pieces` the controlling caller's; `isfirst` records whether the
/// engine's side is the first mover.
pub struct Reversi {
    /// Applied moves so far.
    pub turn: usize,
    /// Whether `my_pieces` belongs to the first mover.
    pub isfirst: bool,
    /// Discs of the engine's side.
    pub my_pieces: u64,
    /// Discs of the opposing side.
    pub op_pieces: u64,
    /// Cells changed by the most recent applied move, ascending.
    pub flip_list: Vec<u8>,
    /// Score cached by the last engine search.
    pub eval_value: i32,
}

impl Reversi {
    /// Reachable positions keep the boards disjoint, and hold the opening's
    /// four discs plus exactly one disc per applied move.
    pub open spec fn wf(self) -> bool {
        &&& self.my_pieces & self.op_pieces == 0
        &&& popcount64(self.my_pieces | self.op_pieces) == self.turn + 4
    }

    /// The standard opening: the engine plays white (the second mover) until
    /// told otherwise.
    pub fn new() -> (r: Reversi)
        ensures
            r.wf(),
            r.turn == 0,
            !r.isfirst,
            r.my_pieces == opening_second(),
            r.op_pieces == opening_first(),
            r.flip_list@ == Seq::<u8>::empty(),
            r.eval_value == 0,
    {
        proof {
            lemma_opening();
        }
        let black = (1u64 << (8 * 3 + 4)) | (1u64 << (8 * 4 + 3));
        let white = (1u64 << (8 * 3 + 3)) | (1u64 << (8 * 4 + 4));
        Reversi {
            turn: 0,
            isfirst: false,
            my_pieces: white,
            op_pieces: black,
            flip_list: Vec::new(),
            eval_value: 0,
        }
    }

    /// Restores the opening position, giving the engine the discs of
    /// whichever side it currently plays, and clears the cached score.
    pub fn clear(&mut self)
        ensures
            final (self).wf(),
            final (self).turn == 0,
            final (self).isfirst == old(self).isfirst,
            final (self).my_pieces == if old(self).isfirst {
                opening_first()
            } else {
                opening_second()
            },
            final (self).op_pieces == if old(self).isfirst {
                opening_second()
            } else {
                opening_first()
            },
            final (self).flip_list@ == old(self).flip_list@,
            final (self).eval_value == 0,
    {
        proof {
            lemma_opening();
        }
        self.turn = 0;
        self.my_pieces = (1u64 << (8 * 3 + 3)) | (1u64 << (8 * 4 + 4));
        self.op_pieces = (1u64 << (8 * 3 + 4)) | (1u64 << (8 * 4 + 3));
        if self.isfirst {
            let t = self.my_pieces;
            self.my_pieces = self.op_pieces;
            self.op_pieces = t;
        }
        self.eval_value = 0;
    }

    /// Hands the board to the other logical player: flips the side flag and
    /// exchanges the two boards.
    pub fn change(&mut self)
        requires
            old(self).wf(),
        ensures
            final (self).wf(),
            final (self).isfirst == !old(self).isfirst,
            final (self).my_pieces == old(self).op_pieces,
            final (self).op_pieces == old(self).my_pieces,
            final (self).turn == old(self).turn,
            final (self).flip_list@ == old(self).flip_list@,
            final (self).eval_value == old(self).eval_value,
    {
        proof {
            let a = self.my_pieces;
            let b = self.op_pieces;
            assert(b & a == 0 && (b | a) == (a | b)) by (bit_vector)
                requires
                    a & b == 0,
            ;
        }
        self.isfirst = !self.isfirst;
        let t = self.my_pieces;
        self.my_pieces = self.op_pieces;
        self.op_pieces = t;
    }

    /// Disc differential of the first mover over the second, whichever side
    /// the engine currently plays.
    pub fn piece_count(&self) -> (r: i32)
        ensures
            r == if self.isfirst {
                spec_evaluate(self.my_pieces, self.op_pieces)
            } else {
                spec_evaluate(self.op_pieces, self.my_pieces)
            },
    {
        proof {
            lemma_popcount_bound(self.my_pieces);
            lemma_popcount_bound(self.op_pieces);
        }
        let mut sub = popcount(self.my_pieces) as i32 - popcount(self.op_pieces) as i32;
        if !self.isfirst {
            sub = -sub;
        }
        sub
    }

    /// Static score of the position from the engine's perspective: its disc
    /// count minus the opponent's.
    pub fn evaluate(&self) -> (r: i32)
        ensures
            r == spec_evaluate(self.my_pieces, self.op_pieces),
            -64 <= r <= 64,
    {
        proof {
            lemma_popcount_bound(self.my_pieces);
            lemma_popcount_bound(self.op_pieces);
        }
        popcount(self.my_pieces) as i32 - popcount(self.op_pieces) as i32
    }

    /// The cells changed by the most recent applied move, ascending.
    pub fn flip_list(&self) -> (r: &Vec<u8>)
        ensures
            r@ == self.flip_list@,
    {
        &self.flip_list
    }

    /// The score cached by the last engine search.
    pub fn eval_value(&self) -> (r: i32)
        ensures
            r == self.eval_value,
    {
        self.eval_value
    }

    /// Whether the opposing side has any legal move.
    pub fn is_movable(&self) -> (r: bool)
        ensures
            r == (spec_legal_moves(self.op_pieces, self.my_pieces) != 0),
    {
        let moves = Reversi::get_moves(self.op_pieces, self.my_pieces);
        if moves == 0 {
            false
        } else {
            true
        }
    }

    /// Records the set bits of `flip` as the flip list, ascending.
    pub fn set_fliplist(&mut self, flip: u64)
        ensures
            final (self).flip_list@ == bit_indices(flip),
            final (self).turn == old(self).turn,
            final (self).isfirst == old(self).isfirst,
            final (self).my_pieces == old(self).my_pieces,
            final (self).op_pieces == old(self).op_pieces,
            final (self).eval_value == old(self).eval_value,
    {
        self.flip_list.clear();
        let mut i: u64 = 0;
        while i < 64
            invariant
                i <= 64,
                self.flip_list@ == bit_indices_below(flip, i as int),
                self.turn == old(self).turn,
                self.isfirst == old(self).isfirst,
                self.my_pieces == old(self).my_pieces,
                self.op_pieces == old(self).op_pieces,
                self.eval_value == old(self).eval_value,
            decreases 64 - i,
        {
            if (flip >> i) & 1 == 1 {
                self.flip_list.push(i as u8);
            }
            i = i + 1;
        }
    }

    /// Applies the opposing side's move at `pos` if it is legal, transferring
    /// the captured run plus the placed cell to the opponent board, and
    /// returns the number of affected cells; an illegal `pos` returns 0 and
    /// changes nothing. Exactly one disc enters the board on success.
    pub fn set_op_piece(&mut self, pos: usize) -> (r: u32)
        requires
            old(self).wf(),
            pos < 64,
        ensures
            final (self).wf(),
            (spec_legal_moves(old(self).op_pieces, old(self).my_pieces) >> pos as u64) & 1 == 0
                ==> r == 0 && *final (self) == *old(self),
            (spec_legal_moves(old(self).op_pieces, old(self).my_pieces) >> pos as u64) & 1 == 1
                ==> {
                let f = spec_flips(pos as u64, old(self).op_pieces, old(self).my_pieces) | (1u64
                    << pos as u64);
                &&& final (self).op_pieces == old(self).op_pieces | f
                &&& final (self).my_pieces == old(self).my_pieces & !f
                &&& final (self).turn == old(self).turn + 1
                &&& final (self).flip_list@ == bit_indices(f)
                &&& r == popcount64(f)
                &&& r >= 2
                &&& popcount64(final (self).my_pieces) + popcount64(final (self).op_pieces)
                    == popcount64(old(self).my_pieces) + popcount64(old(self).op_pieces) + 1
            },
            final (self).isfirst == old(self).isfirst,
            final (self).eval_value == old(self).eval_value,
    {
        proof {
            let a = self.my_pieces;
            let b = self.op_pieces;
            assert(b & a == 0) by (bit_vector)
                requires
                    a & b == 0,
            ;
        }
        let moves = Reversi::get_moves(self.op_pieces, self.my_pieces);
        if (moves >> pos as u64) & 1 == 0 {
            return 0;
        }
        proof {
            let m = moves;
            let sh = pos as u64;
            assert((m >> sh) & 1 == 1) by (bit_vector)
                requires
                    (m >> sh) & 1 != 0,
            ;
        }
        let fcap = Reversi::flip_pieces(pos, self.op_pieces, self.my_pieces);
        let flip = fcap | (1u64 << pos as u64);
        proof {
            let p = self.op_pieces;
            let o = self.my_pieces;
            let pb = 1u64 << pos as u64;
            lemma_bit_in_mask(moves, pos as u64);
            lemma_subset_disjoint(pb, moves, p | o);
            crate::flips::lemma_legal_move_captures(p, o, pos as u64);
            lemma_apply_move(p, o, fcap, pb);
            lemma_popcount_single(pos as u64);
            lemma_popcount_disjoint(p | o, pb);
            lemma_popcount_bound(p | o);
            lemma_popcount_disjoint(p, flip);
            lemma_popcount_disjoint(fcap, pb);
            assert(fcap & pb == 0 && (fcap | pb) == (pb | fcap)) by (bit_vector)
                requires
                    fcap & pb == 0,
            ;
            lemma_popcount_remove(o, fcap);
            let fl = fcap | pb;
            assert((o | p) == (p | o) && ((o & !fl) | (p | fl)) == ((p | fl) | (o & !fl)) && ((o
                & !fl) & (p | fl)) == ((p | fl) & (o & !fl))) by (bit_vector);
        }
        self.op_pieces = self.op_pieces | flip;
        self.my_pieces = self.my_pieces & !flip;
        self.turn = self.turn + 1;
        self.set_fliplist(flip);
        proof {
            lemma_bit_indices_len(flip);
            lemma_popcount_bound(flip);
        }
        self.flip_list.len() as u32
    }
}

} // verus!
