//! Depth-limited alpha-beta negamax search over the move tree.
//!
//! The search value of a position is defined by the spec functions below and
//! the executable search is proved to return exactly that value while leaving
//! the board as it found it. A ply with no legal move recurses one level
//! shallower with the window negated and roles swapped without advancing the
//! turn counter; a played ply advances both. The turn passed to the first
//! searched ply is the count after the candidate move.

use vstd::prelude::*;
use vstd::std_specs::bits::axiom_u64_trailing_zeros;
use vstd::std_specs::bits::u64_trailing_zeros;

use crate::bits::lemma_apply_move;
use crate::bits::lemma_bit_in_mask;
use crate::bits::lemma_mask_has_bit;
use crate::bits::lemma_bit_indices_len;
use crate::bits::lemma_clear_lowest;
use crate::bits::lemma_popcount_bound;
use crate::bits::lemma_popcount_disjoint;
use crate::bits::lemma_popcount_remove;
use crate::bits::lemma_popcount_single;
use crate::bits::lemma_subset_disjoint;
use crate::bits::lemma_subset_trans;
use crate::bits::bit_indices;
use crate::bits::popcount64;
use crate::flips::spec_flips;
use crate::moves::spec_legal_moves;
use crate::reversi::spec_evaluate;
use crate::reversi::Reversi;

verus! {

/// The boards after the mover owning `p` plays at `pos` against `o`: the
/// mover gains the captured run and the placed cell, the opponent loses the
/// captured run.
pub open spec fn spec_apply(p: u64, o: u64, pos: u64) -> (u64, u64) {
    let f = spec_flips(pos, p, o);
    (((p | f) | (1u64 << pos)), o & !f)
}

/// Value of the position for the searching engine, found by alpha-beta
/// negamax within the window `(low, high)`. At depth 0 or on a full board it
/// is the static evaluation, negated when the ply belongs to the opponent.
pub open spec fn spec_ab(
    my: u64,
    op: u64,
    depth: int,
    low: int,
    high: int,
    turn: int,
    my_turn: bool,
) -> int
    decreases depth, 1int, 0int,
{
    if depth <= 0 || turn == 64 {
        if my_turn {
            spec_evaluate(my, op)
        } else {
            -spec_evaluate(my, op)
        }
    } else {
        let moves = if my_turn {
            spec_legal_moves(my, op)
        } else {
            spec_legal_moves(op, my)
        };
        if moves == 0 {
            -spec_ab(my, op, depth - 1, -high, -low, turn, !my_turn)
        } else {
            spec_ab_moves(my, op, moves, depth, low, high, turn, my_turn)
        }
    }
}

/// The move loop of one search node: candidate cells are taken lowest index
/// first, each child value is negated back, the window's floor rises, and the
/// loop stops early once the floor meets the ceiling.
pub open spec fn spec_ab_moves(
    my: u64,
    op: u64,
    moves: u64,
    depth: int,
    low: int,
    high: int,
    turn: int,
    my_turn: bool,
) -> int
    decreases depth, 0int, moves,
    via spec_ab_moves_decreases
{
    if moves == 0 || depth <= 0 {
        low
    } else {
        let pos = u64_trailing_zeros(moves) as u64;
        let boards = if my_turn {
            spec_apply(my, op, pos)
        } else {
            let (nop, nmy) = spec_apply(op, my, pos);
            (nmy, nop)
        };
        let v = -spec_ab(boards.0, boards.1, depth - 1, -high, -low, turn + 1, !my_turn);
        let low2 = if v > low {
            v
        } else {
            low
        };
        if low2 >= high {
            low2
        } else {
            spec_ab_moves(my, op, moves & ((moves - 1) as u64), depth, low2, high, turn, my_turn)
        }
    }
}

#[via_fn]
proof fn spec_ab_moves_decreases(
    my: u64,
    op: u64,
    moves: u64,
    depth: int,
    low: int,
    high: int,
    turn: int,
    my_turn: bool,
) {
    if moves != 0 && depth > 0 {
        lemma_clear_lowest(moves);
    }
}

/// At depth 0, or at turn 64, the search returns exactly the static
/// evaluation, sign matched to the asking side; no move generation is
/// involved.
pub proof fn lemma_search_terminal(
    my: u64,
    op: u64,
    depth: int,
    low: int,
    high: int,
    turn: int,
    my_turn: bool,
)
    requires
        depth <= 0 || turn == 64,
    ensures
        spec_ab(my, op, depth, low, high, turn, my_turn) == if my_turn {
            spec_evaluate(my, op)
        } else {
            -spec_evaluate(my, op)
        },
{
}

/// The search value lies between the window floor (or the least possible
/// score) and the window ceiling (or the greatest possible score).
pub proof fn lemma_ab_bounds(
    my: u64,
    op: u64,
    depth: int,
    low: int,
    high: int,
    turn: int,
    my_turn: bool,
)
    ensures
        spec_ab(my, op, depth, low, high, turn, my_turn) <= if low > 64 {
            low
        } else {
            64
        },
        spec_ab(my, op, depth, low, high, turn, my_turn) >= if high < -64 {
            high
        } else {
            -64
        },
    decreases depth, 1int, 0int,
{
    lemma_popcount_bound(my);
    lemma_popcount_bound(op);
    if depth <= 0 || turn == 64 {
    } else {
        let moves = if my_turn {
            spec_legal_moves(my, op)
        } else {
            spec_legal_moves(op, my)
        };
        if moves == 0 {
            lemma_ab_bounds(my, op, depth - 1, -high, -low, turn, !my_turn);
        } else {
            lemma_ab_moves_bounds(my, op, moves, depth, low, high, turn, my_turn);
        }
    }
}

proof fn lemma_ab_moves_bounds(
    my: u64,
    op: u64,
    moves: u64,
    depth: int,
    low: int,
    high: int,
    turn: int,
    my_turn: bool,
)
    requires
        moves != 0,
        depth >= 1,
    ensures
        spec_ab_moves(my, op, moves, depth, low, high, turn, my_turn) <= if low > 64 {
            low
        } else {
            64
        },
        spec_ab_moves(my, op, moves, depth, low, high, turn, my_turn) >= if high < -64 {
            high
        } else {
            -64
        },
    decreases depth, 0int, moves,
{
    let pos = u64_trailing_zeros(moves) as u64;
    let boards = if my_turn {
        spec_apply(my, op, pos)
    } else {
        let (nop, nmy) = spec_apply(op, my, pos);
        (nmy, nop)
    };
    lemma_ab_bounds(boards.0, boards.1, depth - 1, -high, -low, turn + 1, !my_turn);
    let v = -spec_ab(boards.0, boards.1, depth - 1, -high, -low, turn + 1, !my_turn);
    let low2 = if v > low {
        v
    } else {
        low
    };
    if low2 < high {
        let rest = moves & ((moves - 1) as u64);
        lemma_clear_lowest(moves);
        if rest != 0 {
            lemma_ab_moves_bounds(my, op, rest, depth, low2, high, turn, my_turn);
        }
    }
}

/// The search is a mathematical function of its inputs: two runs on equal
/// positions, windows, depths and turns return equal values.
pub proof fn lemma_search_deterministic(
    my: u64,
    op: u64,
    depth: int,
    low: int,
    high: int,
    turn: int,
    my_turn: bool,
    r1: int,
    r2: int,
)
    requires
        r1 == spec_ab(my, op, depth, low, high, turn, my_turn),
        r2 == spec_ab(my, op, depth, low, high, turn, my_turn),
    ensures
        r1 == r2,
{
}

/// Search depth by game stage: 10 plies through turn 40, then 15.
pub open spec fn spec_search_depth(turn: int) -> int {
    if turn <= 40 {
        10
    } else {
        15
    }
}

/// The engine's root move choice: every candidate in ascending cell order is
/// tried at full depth, and a candidate is kept only when strictly better
/// than everything before it, so ties keep the lowest cell. Returns the
/// chosen cell and its value from the engine's perspective.
pub open spec fn spec_pick(
    my: u64,
    op: u64,
    moves: u64,
    low: int,
    best: u64,
    depth: int,
    turn: int,
) -> (u64, int)
    decreases moves,
    via spec_pick_decreases
{
    if moves == 0 {
        (best, low)
    } else {
        let pos = u64_trailing_zeros(moves) as u64;
        let boards = spec_apply(my, op, pos);
        let v = -spec_ab(boards.0, boards.1, depth, -10000, -low, turn + 1, false);
        let rest = moves & ((moves - 1) as u64);
        if v > low {
            spec_pick(my, op, rest, v, pos, depth, turn)
        } else {
            spec_pick(my, op, rest, low, best, depth, turn)
        }
    }
}

#[via_fn]
proof fn spec_pick_decreases(my: u64, op: u64, moves: u64, low: int, best: u64, depth: int, turn: int) {
    if moves != 0 {
        lemma_clear_lowest(moves);
    }
}

/// The engine's move choice is a mathematical function of the position,
/// depth and turn: two runs on equal inputs pick the same cell and value.
pub proof fn lemma_choice_deterministic(
    my: u64,
    op: u64,
    moves: u64,
    low: int,
    best: u64,
    depth: int,
    turn: int,
    r1: (u64, int),
    r2: (u64, int),
)
    requires
        r1 == spec_pick(my, op, moves, low, best, depth, turn),
        r2 == spec_pick(my, op, moves, low, best, depth, turn),
    ensures
        r1 == r2,
{
}

impl Reversi {
    /// Alpha-beta negamax over the move tree, returning exactly the value
    /// `spec_ab` assigns to the position; the board is left as it was found,
    /// restored on every path. `turn` counts applied moves and stops the
    /// search at a full board; `depth` bounds the remaining plies.
    pub fn alpha_beta_search(
        &mut self,
        depth: usize,
        low: i32,
        high: i32,
        turn: usize,
        is_my_turn: bool,
    ) -> (r: i32)
        requires
            old(self).my_pieces & old(self).op_pieces == 0,
            -10000 <= low <= 10000,
            -10000 <= high <= 10000,
            turn <= 64,
        ensures
            *final (self) == *old(self),
            r == spec_ab(
                old(self).my_pieces,
                old(self).op_pieces,
                depth as int,
                low as int,
                high as int,
                turn as int,
                is_my_turn,
            ),
            -10000 <= r <= 10000,
        decreases depth,
    {
        proof {
            let a = self.my_pieces;
            let b = self.op_pieces;
            assert(b & a == 0) by (bit_vector)
                requires
                    a & b == 0,
            ;
        }
        if depth == 0 || turn == 64 {
            let e = self.evaluate();
            return if is_my_turn {
                e
            } else {
                -e
            };
        }
        let mut moves = if is_my_turn {
            Reversi::get_moves(self.my_pieces, self.op_pieces)
        } else {
            Reversi::get_moves(self.op_pieces, self.my_pieces)
        };
        if moves == 0 {
            let v = self.alpha_beta_search(depth - 1, -high, -low, turn, !is_my_turn);
            return -v;
        }
        let pre_my = self.my_pieces;
        let pre_op = self.op_pieces;
        let mut low_cur = low;
        let ghost moves0 = moves;
        let ghost target = spec_ab_moves(
            pre_my,
            pre_op,
            moves,
            depth as int,
            low as int,
            high as int,
            turn as int,
            is_my_turn,
        );
        proof {
            let m = moves;
            assert(m & !m == 0) by (bit_vector);
        }
        while moves > 0
            invariant_except_break
                self.my_pieces == pre_my,
                self.op_pieces == pre_op,
                *self == *old(self),
                depth >= 1,
                turn <= 63,
                -10000 <= high <= 10000,
                -10000 <= low_cur <= 10000,
                pre_my & pre_op == 0,
                pre_op & pre_my == 0,
                moves0 & (if is_my_turn {
                    pre_my | pre_op
                } else {
                    pre_op | pre_my
                }) == 0,
                moves & !moves0 == 0,
                spec_ab_moves(
                    pre_my,
                    pre_op,
                    moves,
                    depth as int,
                    low_cur as int,
                    high as int,
                    turn as int,
                    is_my_turn,
                ) == target,
            ensures
                *self == *old(self),
                -10000 <= low_cur <= 10000,
                low_cur == target,
            decreases moves,
        {
            proof {
                axiom_u64_trailing_zeros(moves);
            }
            let pos = moves.trailing_zeros() as usize;
            proof {
                let pb = 1u64 << pos as u64;
                lemma_bit_in_mask(moves, pos as u64);
                lemma_subset_trans(pb, moves, moves0);
            }
            if is_my_turn {
                let flip = Reversi::flip_pieces(pos, self.my_pieces, self.op_pieces);
                proof {
                    lemma_subset_disjoint(1u64 << pos as u64, moves0, pre_my | pre_op);
                    lemma_apply_move(pre_my, pre_op, flip, 1u64 << pos as u64);
                }
                self.my_pieces = self.my_pieces | flip;
                self.my_pieces = self.my_pieces | (1u64 << pos as u64);
                self.op_pieces = self.op_pieces & !flip;
            } else {
                let flip = Reversi::flip_pieces(pos, self.op_pieces, self.my_pieces);
                proof {
                    lemma_subset_disjoint(1u64 << pos as u64, moves0, pre_op | pre_my);
                    lemma_apply_move(pre_op, pre_my, flip, 1u64 << pos as u64);
                }
                self.op_pieces = self.op_pieces | flip;
                self.op_pieces = self.op_pieces | (1u64 << pos as u64);
                self.my_pieces = self.my_pieces & !flip;
            }
            let v = self.alpha_beta_search(depth - 1, -high, -low_cur, turn + 1, !is_my_turn);
            let value = -v;
            self.my_pieces = pre_my;
            self.op_pieces = pre_op;
            if value > low_cur {
                low_cur = value;
            }
            if low_cur >= high {
                break ;
            }
            proof {
                lemma_clear_lowest(moves);
                lemma_subset_trans(moves & ((moves - 1) as u64), moves, moves0);
            }
            moves = moves & (moves - 1);
        }
        low_cur
    }

    /// Lets the engine choose and apply its best move: every legal candidate
    /// is searched at the stage's depth, the strictly best one is played
    /// (ties keep the lowest cell index), the side-corrected value is cached,
    /// and the number of affected cells is returned. 0 means the engine had
    /// no legal move and nothing changed; otherwise exactly one disc enters
    /// the board.
    pub fn search_next_piece(&mut self) -> (r: u32)
        requires
            old(self).wf(),
        ensures
            final (self).wf(),
            final (self).isfirst == old(self).isfirst,
            spec_legal_moves(old(self).my_pieces, old(self).op_pieces) == 0 ==> r == 0
                && *final (self) == *old(self),
            spec_legal_moves(old(self).my_pieces, old(self).op_pieces) != 0 ==> {
                let pick = spec_pick(
                    old(self).my_pieces,
                    old(self).op_pieces,
                    spec_legal_moves(old(self).my_pieces, old(self).op_pieces),
                    -10000,
                    0,
                    spec_search_depth(old(self).turn as int),
                    old(self).turn as int,
                );
                let f = spec_flips(pick.0, old(self).my_pieces, old(self).op_pieces) | (1u64
                    << pick.0);
                &&& final (self).my_pieces == old(self).my_pieces | f
                &&& final (self).op_pieces == old(self).op_pieces & !f
                &&& final (self).turn == old(self).turn + 1
                &&& final (self).eval_value == if old(self).isfirst {
                    pick.1
                } else {
                    -pick.1
                }
                &&& final (self).flip_list@ == bit_indices(f)
                &&& r == popcount64(f)
                &&& r >= 2
                &&& popcount64(final (self).my_pieces) + popcount64(final (self).op_pieces)
                    == popcount64(old(self).my_pieces) + popcount64(old(self).op_pieces) + 1
            },
    {
        proof {
            let a = self.my_pieces;
            let b = self.op_pieces;
            assert(b & a == 0) by (bit_vector)
                requires
                    a & b == 0,
            ;
            lemma_popcount_bound(a | b);
        }
        let mut moves = Reversi::get_moves(self.my_pieces, self.op_pieces);
        if moves == 0 {
            return 0;
        }
        let mut next_pos: usize = 0;
        let mut low: i32 = -10000;
        let high: i32 = 10000;
        let depth: usize = if self.turn <= 40 {
            10
        } else {
            15
        };
        let pre_my = self.my_pieces;
        let pre_op = self.op_pieces;
        let turn0 = self.turn;
        let ghost moves0 = moves;
        let ghost target = spec_pick(
            pre_my,
            pre_op,
            moves0,
            -10000,
            0,
            depth as int,
            turn0 as int,
        );
        proof {
            let m = moves;
            assert(m & !m == 0) by (bit_vector);
        }
        while moves > 0
            invariant
                self.my_pieces == pre_my,
                self.op_pieces == pre_op,
                *self == *old(self),
                pre_my & pre_op == 0,
                pre_op & pre_my == 0,
                turn0 == old(self).turn,
                turn0 <= 60,
                high == 10000,
                -10000 <= low <= 10000,
                moves & !moves0 == 0,
                moves0 & (pre_my | pre_op) == 0,
                spec_pick(
                    pre_my,
                    pre_op,
                    moves,
                    low as int,
                    next_pos as u64,
                    depth as int,
                    turn0 as int,
                ) == target,
                low == -10000 ==> moves == moves0 && next_pos == 0,
                low > -10000 ==> next_pos < 64 && (1u64 << next_pos as u64) & !moves0 == 0,
            decreases moves,
        {
            proof {
                axiom_u64_trailing_zeros(moves);
            }
            let pos = moves.trailing_zeros() as usize;
            proof {
                let pb = 1u64 << pos as u64;
                lemma_bit_in_mask(moves, pos as u64);
                lemma_subset_trans(pb, moves, moves0);
            }
            let flip = Reversi::flip_pieces(pos, self.my_pieces, self.op_pieces);
            proof {
                lemma_subset_disjoint(1u64 << pos as u64, moves0, pre_my | pre_op);
                lemma_apply_move(pre_my, pre_op, flip, 1u64 << pos as u64);
            }
            self.my_pieces = self.my_pieces | flip;
            self.my_pieces = self.my_pieces | (1u64 << pos as u64);
            self.op_pieces = self.op_pieces & !flip;
            let v = self.alpha_beta_search(depth, -high, -low, turn0 + 1, false);
            let value = -v;
            proof {
                lemma_ab_bounds(
                    self.my_pieces,
                    self.op_pieces,
                    depth as int,
                    -10000,
                    -low as int,
                    turn0 + 1 as int,
                    false,
                );
            }
            self.my_pieces = pre_my;
            self.op_pieces = pre_op;
            if low < value {
                low = value;
                next_pos = pos;
            }
            proof {
                lemma_clear_lowest(moves);
                lemma_subset_trans(moves & ((moves - 1) as u64), moves, moves0);
            }
            moves = moves & (moves - 1);
        }
        if !self.isfirst {
            low = -low;
        }
        self.eval_value = low;
        proof {
            lemma_mask_has_bit(moves0, next_pos as u64);
        }
        let fcap = Reversi::flip_pieces(next_pos, self.my_pieces, self.op_pieces);
        let flipall = fcap | (1u64 << next_pos as u64);
        proof {
            let p = self.my_pieces;
            let o = self.op_pieces;
            let pb = 1u64 << next_pos as u64;
            lemma_subset_disjoint(pb, moves0, p | o);
            crate::flips::lemma_legal_move_captures(p, o, next_pos as u64);
            lemma_apply_move(p, o, fcap, pb);
            lemma_popcount_single(next_pos as u64);
            lemma_popcount_disjoint(p | o, pb);
            lemma_popcount_bound(p | o);
            lemma_popcount_disjoint(p, flipall);
            lemma_popcount_disjoint(fcap, pb);
            assert(fcap & pb == 0 && (fcap | pb) == (pb | fcap)) by (bit_vector)
                requires
                    fcap & pb == 0,
            ;
            lemma_popcount_remove(o, fcap);
        }
        self.my_pieces = self.my_pieces | flipall;
        self.op_pieces = self.op_pieces & !flipall;
        self.turn = self.turn + 1;
        self.set_fliplist(flipall);
        proof {
            lemma_bit_indices_len(flipall);
            lemma_popcount_bound(flipall);
        }
        self.flip_list.len() as u32
    }
}

} // verus!
