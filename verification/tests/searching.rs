use reversi::reversi::Reversi;

/// A sparse position: the engine owns cell 0, the opponent a run on row 0,
/// so the engine's only legal move is cell 4, capturing three discs.
fn forced_capture() -> Reversi {
    let mut r = Reversi::new();
    r.my_pieces = 1u64;
    r.op_pieces = (1u64 << 1) | (1u64 << 2) | (1u64 << 3);
    r.turn = 0;
    r
}

/// Two candidate moves: cell 4 captures three discs on row 0, cell 16
/// captures one disc on column 0.
fn two_choices() -> Reversi {
    let mut r = Reversi::new();
    r.my_pieces = 1u64;
    r.op_pieces = (1u64 << 1) | (1u64 << 2) | (1u64 << 3) | (1u64 << 8);
    r.turn = 1;
    r
}

#[test]
fn depth_zero_returns_the_static_evaluation() {
    let mut r = two_choices();
    assert_eq!(r.evaluate(), -3);
    assert_eq!(r.alpha_beta_search(0, -10000, 10000, 1, true), -3);
    assert_eq!(r.alpha_beta_search(0, -10000, 10000, 1, false), 3);
    // the board is left untouched
    assert_eq!(r.my_pieces, 1u64);
}

#[test]
fn full_board_is_terminal_without_move_generation() {
    let mut r = Reversi::new();
    r.my_pieces = 0xFFFFFFFF00000000u64;
    r.op_pieces = 0x00000000FFFFFFFFu64;
    r.turn = 60;
    assert_eq!(r.alpha_beta_search(15, -10000, 10000, 64, true), 0);
    assert_eq!(r.evaluate(), 0);
    r.my_pieces = u64::MAX;
    r.op_pieces = 0;
    assert_eq!(r.alpha_beta_search(15, -10000, 10000, 64, true), 64);
    assert_eq!(r.alpha_beta_search(15, -10000, 10000, 64, false), -64);
}

#[test]
fn search_is_deterministic() {
    let mut a = two_choices();
    let mut b = two_choices();
    let va = a.alpha_beta_search(6, -10000, 10000, 2, true);
    let vb = b.alpha_beta_search(6, -10000, 10000, 2, true);
    assert_eq!(va, vb);
    assert_eq!(va, a.alpha_beta_search(6, -10000, 10000, 2, true));
}

#[test]
fn engine_choice_is_deterministic() {
    let mut a = forced_capture();
    let mut b = forced_capture();
    let na = a.search_next_piece();
    let nb = b.search_next_piece();
    assert_eq!(na, nb);
    assert_eq!(a.my_pieces, b.my_pieces);
    assert_eq!(a.op_pieces, b.op_pieces);
    assert_eq!(a.eval_value(), b.eval_value());
    assert_eq!(a.flip_list().as_slice(), b.flip_list().as_slice());
}

#[test]
fn greater_capture_wins_at_depth_one() {
    // mirror of the root selection at depth 1: apply each candidate, search
    // one ply for the opponent, and negate
    let r = two_choices();

    let mut big = two_choices();
    big.my_pieces |= (1u64 << 1) | (1u64 << 2) | (1u64 << 3) | (1u64 << 4);
    big.op_pieces &= !((1u64 << 1) | (1u64 << 2) | (1u64 << 3));
    let v_big = -big.alpha_beta_search(1, -10000, 10000, r.turn + 1, false);

    let mut small = two_choices();
    small.my_pieces |= (1u64 << 8) | (1u64 << 16);
    small.op_pieces &= !(1u64 << 8);
    let v_small = -small.alpha_beta_search(1, -10000, 10000, r.turn + 1, false);

    assert!(v_big > v_small);
}

#[test]
fn engine_applies_its_only_move() {
    let mut r = forced_capture();
    let n = r.search_next_piece();
    assert_eq!(n, 4);
    assert_eq!(r.flip_list().as_slice(), &[1u8, 2u8, 3u8, 4u8]);
    assert_eq!(r.my_pieces, 0x1Fu64);
    assert_eq!(r.op_pieces, 0);
    assert_eq!(r.turn, 1);
    assert_eq!(r.eval_value(), -5);
}

#[test]
fn engine_with_no_move_reports_zero() {
    let mut r = Reversi::new();
    r.my_pieces = 1u64;
    r.op_pieces = (1u64 << 62) | (1u64 << 61) | (1u64 << 60);
    r.turn = 0;
    let my = r.my_pieces;
    let op = r.op_pieces;
    assert_eq!(r.search_next_piece(), 0);
    assert_eq!(r.my_pieces, my);
    assert_eq!(r.op_pieces, op);
}

#[test]
fn forced_pass_consumes_depth_but_not_turn() {
    // the engine owns cell 1 and has no move; the opponent can capture it at
    // cell 0. The pass ply keeps turn at 63, so the opponent's reply is still
    // searched; had the pass advanced the turn, the node would have been
    // terminal and worth -5 instead.
    let mut r = Reversi::new();
    r.my_pieces = 1u64 << 1;
    r.op_pieces = 0xFCu64;
    assert_eq!(r.alpha_beta_search(2, -10000, 10000, 63, true), -8);
    assert_eq!(r.my_pieces, 1u64 << 1);
    assert_eq!(r.op_pieces, 0xFCu64);
}

#[test]
fn pruning_respects_the_window() {
    // a collapsed window still returns a value inside the widened bounds
    let mut r = two_choices();
    let v = r.alpha_beta_search(4, -10000, 10000, 2, true);
    assert!((-10000..=10000).contains(&v));
    let again = r.alpha_beta_search(4, -10000, 10000, 2, true);
    assert_eq!(v, again);
}
