use reversi::bits::popcount;
use reversi::reversi::Reversi;

fn opening() -> Reversi {
    Reversi::new()
}

#[test]
fn opening_legal_moves_are_the_four_classics() {
    let r = opening();
    let moves = Reversi::get_moves(r.op_pieces, r.my_pieces);
    let expected = (1u64 << 19) | (1u64 << 26) | (1u64 << 37) | (1u64 << 44);
    assert_eq!(moves, expected);
    assert!(r.is_movable());
}

#[test]
fn opening_moves_land_on_empty_cells() {
    let r = opening();
    let moves = Reversi::get_moves(r.op_pieces, r.my_pieces);
    assert_eq!(moves & (r.my_pieces | r.op_pieces), 0);
    let engine_moves = Reversi::get_moves(r.my_pieces, r.op_pieces);
    assert_eq!(engine_moves & (r.my_pieces | r.op_pieces), 0);
}

#[test]
fn opening_single_flip() {
    let mut r = opening();
    let before = r.piece_count();
    assert_eq!(before, 0);
    let n = r.set_op_piece(19);
    assert_eq!(n, 2);
    assert_eq!(r.flip_list().as_slice(), &[19u8, 27u8]);
    assert_eq!(r.piece_count() - before, 3);
    assert_eq!(r.op_pieces, (1u64 << 28) | (1u64 << 35) | (1u64 << 19) | (1u64 << 27));
    assert_eq!(r.my_pieces, 1u64 << 36);
    assert_eq!(r.my_pieces & r.op_pieces, 0);
}

#[test]
fn boards_stay_disjoint_and_grow_by_one_disc() {
    let mut r = opening();
    let total = popcount(r.my_pieces) + popcount(r.op_pieces);
    assert_eq!(total, 4);
    let n = r.set_op_piece(26);
    assert!(n > 0);
    assert_eq!(r.my_pieces & r.op_pieces, 0);
    assert_eq!(popcount(r.my_pieces) + popcount(r.op_pieces), total + 1);
}

#[test]
fn illegal_move_is_rejected_without_mutation() {
    let mut r = opening();
    let my = r.my_pieces;
    let op = r.op_pieces;
    let n = r.set_op_piece(0);
    assert_eq!(n, 0);
    assert_eq!(r.my_pieces, my);
    assert_eq!(r.op_pieces, op);
    let occupied = r.set_op_piece(27);
    assert_eq!(occupied, 0);
    assert_eq!(r.my_pieces, my);
    assert_eq!(r.op_pieces, op);
}

#[test]
fn capture_set_of_the_opening_move() {
    let r = opening();
    let f = Reversi::flip_pieces(19, r.op_pieces, r.my_pieces);
    assert_eq!(f, 1u64 << 27);
    assert_eq!(f & r.my_pieces, f);
    assert_eq!(f & (1u64 << 19), 0);
}

#[test]
fn capture_unions_several_directions() {
    // a placement at the corner captures a row run and a column run at once
    let p = (1u64 << 4) | (1u64 << 32);
    let o = (1u64 << 1) | (1u64 << 2) | (1u64 << 3) | (1u64 << 8) | (1u64 << 16) | (1u64 << 24);
    let f = Reversi::flip_pieces(0, p, o);
    assert_eq!(f, o);
}

#[test]
fn capture_works_along_a_diagonal() {
    let f = Reversi::flip_pieces(18, 1u64, 1u64 << 9);
    assert_eq!(f, 1u64 << 9);
}

#[test]
fn runs_do_not_wrap_around_the_board_edge() {
    // a run ending on the rightmost file must not spill into the next row
    assert_eq!(Reversi::get_moves(1u64 << 6, 1u64 << 7), 0);
    // nor may one ending on the leftmost file spill into the previous row
    assert_eq!(Reversi::get_moves(1u64 << 9, 1u64 << 8), 0);
}

#[test]
fn evaluation_is_material_and_antisymmetric() {
    let mut r = opening();
    assert_eq!(r.evaluate(), 0);
    r.set_op_piece(19);
    // engine holds 1 disc, the opponent 4
    assert_eq!(r.evaluate(), -3);
    let before_swap = r.evaluate();
    r.change();
    assert_eq!(r.evaluate(), -before_swap);
}

#[test]
fn piece_count_reports_first_mover_differential() {
    let mut r = opening();
    r.set_op_piece(19);
    // the opponent moved first and now leads 4 to 1
    assert_eq!(r.piece_count(), 3);
    r.change();
    assert_eq!(r.piece_count(), 3);
}

#[test]
fn clear_restores_the_opening_for_the_current_side() {
    let mut r = opening();
    r.set_op_piece(19);
    r.clear();
    assert_eq!(r.my_pieces, (1u64 << 27) | (1u64 << 36));
    assert_eq!(r.op_pieces, (1u64 << 28) | (1u64 << 35));
    assert_eq!(r.eval_value(), 0);
    r.change();
    r.clear();
    assert_eq!(r.my_pieces, (1u64 << 28) | (1u64 << 35));
    assert_eq!(r.op_pieces, (1u64 << 27) | (1u64 << 36));
}

#[test]
fn change_swaps_sides_and_boards() {
    let mut r = opening();
    let my = r.my_pieces;
    let op = r.op_pieces;
    r.change();
    assert_eq!(r.my_pieces, op);
    assert_eq!(r.op_pieces, my);
}

#[test]
fn long_exchange_keeps_the_position_sound() {
    // both sides play the lowest legal cell for twenty turns; after every
    // applied move the boards stay disjoint and grow by exactly one disc
    let mut r = opening();
    for turn in 0..20u32 {
        let moves = Reversi::get_moves(r.op_pieces, r.my_pieces);
        if moves == 0 {
            break;
        }
        let pos = moves.trailing_zeros() as usize;
        let before = popcount(r.my_pieces) + popcount(r.op_pieces);
        let n = r.set_op_piece(pos);
        assert!(n >= 2);
        assert_eq!(r.my_pieces & r.op_pieces, 0);
        assert_eq!(popcount(r.my_pieces) + popcount(r.op_pieces), before + 1);
        assert_eq!(r.turn as u32, turn + 1);
        assert_eq!(n as usize, r.flip_list().len());
        // hand the board to the other player
        r.change();
    }
}

#[test]
fn flip_list_is_ascending() {
    let mut r = opening();
    r.set_fliplist((1u64 << 63) | (1u64 << 5) | (1u64 << 40) | 1u64);
    assert_eq!(r.flip_list().as_slice(), &[0u8, 5u8, 40u8, 63u8]);
    r.set_fliplist(0);
    assert!(r.flip_list().is_empty());
}
