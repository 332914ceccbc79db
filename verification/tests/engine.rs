//! End-to-end exercises of the rules engine: opening layout, ordinary
//! moves, captures, the bar gate, bearing off, dice consumption and the
//! win sweep.

use backgammon::board::{BoardState, Color, Point};
use backgammon::dice::DiceState;
use backgammon::game::Game;
use backgammon::moves::{move_off_bar, move_ordinary, MoveError};
use backgammon::win::check_win;

fn fresh_game(dice: DiceState, active: Color) -> Game {
    Game { board: BoardState::new_game(), dice, active }
}

fn empty_game(dice: DiceState, active: Color) -> Game {
    Game { board: BoardState::empty(), dice, active }
}

#[test]
fn initial_layout_and_no_winner() {
    let b = BoardState::new_game();
    assert_eq!(b.point(0), Point { owner: Color::Black, count: 2 });
    assert_eq!(b.point(5), Point { owner: Color::White, count: 5 });
    assert_eq!(b.point(7), Point { owner: Color::White, count: 3 });
    assert_eq!(b.point(11), Point { owner: Color::Black, count: 5 });
    assert_eq!(b.point(12), Point { owner: Color::White, count: 5 });
    assert_eq!(b.point(16), Point { owner: Color::Black, count: 3 });
    assert_eq!(b.point(18), Point { owner: Color::Black, count: 5 });
    assert_eq!(b.point(23), Point { owner: Color::White, count: 2 });
    assert_eq!(b.point(1).count, 0);
    assert_eq!(b.bar(Color::White), 0);
    assert_eq!(b.bar(Color::Black), 0);
    assert_eq!(b.pieces_on_board(Color::White), 15);
    assert_eq!(b.pieces_on_board(Color::Black), 15);
    assert!(!check_win(&b, Color::Black));
    assert!(!check_win(&b, Color::White));
}

#[test]
fn new_game_rolls_dice_for_black() {
    let g = Game::new();
    assert_eq!(g.active, Color::Black);
    let a = g.dice.first.expect("first die pending");
    let b = g.dice.second.expect("second die pending");
    assert!((1..=6).contains(&a));
    assert!((1..=6).contains(&b));
    if a == b {
        assert_eq!(g.dice.doubles_left, 4);
    }
}

#[test]
fn doubles_grant_four_moves_then_turn_ends() {
    let mut g = fresh_game(DiceState::with_roll(3, 3), Color::Black);
    assert_eq!(g.dice.doubles_left, 4);
    assert_eq!(g.play_move(0, 3), Ok(()));
    assert_eq!(g.active, Color::Black);
    assert_eq!(g.dice.doubles_left, 3);
    assert_eq!(g.play_move(0, 3), Ok(()));
    assert_eq!(g.active, Color::Black);
    assert_eq!(g.play_move(11, 14), Ok(()));
    assert_eq!(g.active, Color::Black);
    assert_eq!(g.dice.doubles_left, 1);
    assert_eq!(g.play_move(11, 14), Ok(()));
    // The fourth consumption ends the turn: White to move on a fresh roll.
    assert_eq!(g.active, Color::White);
    let a = g.dice.first.expect("rerolled");
    let b = g.dice.second.expect("rerolled");
    assert!((1..=6).contains(&a));
    assert!((1..=6).contains(&b));
    assert_eq!(g.board.point(3), Point { owner: Color::Black, count: 2 });
    assert_eq!(g.board.point(14), Point { owner: Color::Black, count: 2 });
    assert_eq!(g.board.point(0).count, 0);
}

#[test]
fn exhausted_dice_reject_with_pip_mismatch() {
    let spent = DiceState { first: None, second: None, doubles_left: 0 };
    let mut g = fresh_game(spent, Color::Black);
    assert_eq!(g.play_move(0, 3), Err(MoveError::PipMismatch));
    assert_eq!(g.board.point(0).count, 2);
}

#[test]
fn capture_sends_lone_piece_to_bar() {
    let mut b = BoardState::empty();
    assert!(b.set_point(7, Color::Black, 3));
    assert!(b.set_point(10, Color::White, 1));
    assert_eq!(move_ordinary(&mut b, Color::Black, 7, 10), Ok(()));
    assert_eq!(b.point(10), Point { owner: Color::Black, count: 1 });
    assert_eq!(b.point(7).count, 2);
    assert_eq!(b.bar(Color::White), 1);
    assert_eq!(b.bar(Color::Black), 0);
}

#[test]
fn ordinary_move_conserves_both_colors() {
    let mut g = fresh_game(DiceState::with_roll(5, 2), Color::Black);
    let black_before = g.board.pieces_on_board(Color::Black) + g.board.bar(Color::Black);
    let white_before = g.board.pieces_on_board(Color::White) + g.board.bar(Color::White);
    assert_eq!(g.play_move(0, 2), Ok(()));
    assert_eq!(
        g.board.pieces_on_board(Color::Black) + g.board.bar(Color::Black),
        black_before
    );
    assert_eq!(
        g.board.pieces_on_board(Color::White) + g.board.bar(Color::White),
        white_before
    );
}

#[test]
fn bar_gates_ordinary_moves_until_reentry() {
    let mut b = BoardState::empty();
    assert!(b.set_point(0, Color::Black, 2));
    assert!(b.set_point(10, Color::White, 2));
    assert!(b.set_bar(Color::Black, 1));
    let mut g = Game { board: b, dice: DiceState::with_roll(3, 5), active: Color::Black };
    assert_eq!(g.play_move(0, 3), Err(MoveError::BarNotEmpty));
    // Re-entry at point 2 consumes the 3 (entry distance is index + 1).
    assert_eq!(g.play_off_bar(2), Ok(()));
    assert_eq!(g.board.bar(Color::Black), 0);
    assert_eq!(g.board.point(2), Point { owner: Color::Black, count: 1 });
    assert_eq!(g.active, Color::Black);
    // With the bar empty an ordinary move for the remaining 5 goes through.
    assert_eq!(g.play_move(2, 7), Ok(()));
    assert_eq!(g.active, Color::White);
}

#[test]
fn reentry_can_capture() {
    let mut b = BoardState::empty();
    assert!(b.set_point(3, Color::White, 1));
    assert!(b.set_bar(Color::Black, 1));
    assert_eq!(move_off_bar(&mut b, Color::Black, 3), Ok(()));
    assert_eq!(b.point(3), Point { owner: Color::Black, count: 1 });
    assert_eq!(b.bar(Color::Black), 0);
    assert_eq!(b.bar(Color::White), 1);
}

#[test]
fn reentry_quadrants() {
    let mut b = BoardState::empty();
    assert!(b.set_bar(Color::Black, 1));
    assert_eq!(move_off_bar(&mut b, Color::Black, 6), Err(MoveError::WrongDirection));
    assert_eq!(move_off_bar(&mut b, Color::Black, 5), Ok(()));
    // White's documented entry range runs from point 17 up.
    let mut w = BoardState::empty();
    assert!(w.set_bar(Color::White, 2));
    assert_eq!(move_off_bar(&mut w, Color::White, 16), Err(MoveError::WrongDirection));
    assert_eq!(move_off_bar(&mut w, Color::White, 17), Ok(()));
    assert_eq!(w.point(17), Point { owner: Color::White, count: 1 });
    // An empty bar has nothing to enter.
    let mut e = BoardState::empty();
    assert_eq!(move_off_bar(&mut e, Color::Black, 3), Err(MoveError::EmptySource));
}

#[test]
fn bear_off_final_point() {
    let mut b = BoardState::empty();
    assert!(b.set_point(23, Color::Black, 15));
    let mut g = Game { board: b, dice: DiceState::with_roll(1, 4), active: Color::Black };
    assert_eq!(g.bear_off(23), Ok(()));
    assert_eq!(g.board.point(23).count, 14);
    assert_eq!(g.board.pieces_on_board(Color::Black), 14);
    assert_eq!(g.board.bar(Color::Black), 0);
    // The 1 was consumed; the 4 is still pending and the turn goes on.
    assert_eq!(g.dice.first, None);
    assert_eq!(g.dice.second, Some(4));
    assert_eq!(g.active, Color::Black);
}

#[test]
fn bear_off_rejected_while_piece_sits_outside_home() {
    let mut b = BoardState::empty();
    assert!(b.set_point(20, Color::Black, 1));
    assert!(b.set_point(10, Color::Black, 1));
    let mut g = Game { board: b, dice: DiceState::with_roll(4, 2), active: Color::Black };
    // Point 20 and the 4 would otherwise match exactly.
    assert_eq!(g.bear_off(20), Err(MoveError::NotHomeEligible));
    assert_eq!(g.board.point(20).count, 1);
}

#[test]
fn bear_off_rejected_while_bar_occupied() {
    let mut b = BoardState::empty();
    assert!(b.set_point(23, Color::Black, 1));
    assert!(b.set_bar(Color::Black, 1));
    let mut g = Game { board: b, dice: DiceState::with_roll(1, 2), active: Color::Black };
    assert_eq!(g.bear_off(23), Err(MoveError::BarNotEmpty));
}

#[test]
fn bear_off_overs_rule() {
    let mut b = BoardState::empty();
    assert!(b.set_point(20, Color::Black, 2));
    assert!(b.set_point(22, Color::Black, 1));
    let mut g = Game { board: b, dice: DiceState::with_roll(6, 3), active: Color::Black };
    // Point 22 (distance 2) is not the farthest-back occupied point.
    assert_eq!(g.bear_off(22), Err(MoveError::PipMismatch));
    // Point 20 (distance 4) is; the over-large 6 bears it off and is the
    // face consumed.
    assert_eq!(g.bear_off(20), Ok(()));
    assert_eq!(g.board.point(20).count, 1);
    assert_eq!(g.dice.first, None);
    assert_eq!(g.dice.second, Some(3));
}

#[test]
fn bear_off_white_mirror() {
    let mut b = BoardState::empty();
    assert!(b.set_point(4, Color::White, 1));
    assert!(b.set_point(2, Color::White, 1));
    let mut g = Game { board: b, dice: DiceState::with_roll(5, 3), active: Color::White };
    // White's farthest-back home point is 4, at distance 5.
    assert_eq!(g.bear_off(2), Err(MoveError::PipMismatch));
    assert_eq!(g.bear_off(4), Ok(()));
    assert_eq!(g.board.point(4).count, 0);
    assert_eq!(g.dice.first, None);
    assert_eq!(g.dice.second, Some(3));
}

#[test]
fn consume_non_double_ends_when_both_cleared() {
    let mut d = DiceState::with_roll(2, 5);
    assert!(!d.consume(2));
    assert_eq!(d.first, None);
    assert_eq!(d.second, Some(5));
    assert!(d.consume(5));
    assert_eq!(d.second, None);
}

#[test]
fn consume_unmatched_pip_is_a_no_op() {
    let mut d = DiceState::with_roll(2, 5);
    assert!(!d.consume(3));
    assert_eq!(d.first, Some(2));
    assert_eq!(d.second, Some(5));
}

#[test]
fn consume_double_ends_on_fourth_use() {
    let mut d = DiceState::with_roll(4, 4);
    assert_eq!(d.doubles_left, 4);
    assert!(!d.consume(4));
    assert!(!d.consume(4));
    assert!(!d.consume(4));
    assert_eq!(d.first, Some(4));
    assert!(d.consume(4));
    assert_eq!(d.first, None);
    assert_eq!(d.second, None);
    assert!(!d.can_consume(4));
}

#[test]
fn reroll_stays_in_range_and_arms_doubles() {
    let mut d = DiceState::with_roll(1, 2);
    for _ in 0..200 {
        d.reroll();
        let a = d.first.expect("pending after reroll");
        let b = d.second.expect("pending after reroll");
        assert!((1..=6).contains(&a));
        assert!((1..=6).contains(&b));
        if a == b {
            assert_eq!(d.doubles_left, 4);
        }
    }
}

#[test]
fn move_rejection_reasons() {
    let mut b = BoardState::new_game();
    assert_eq!(move_ordinary(&mut b, Color::Black, 20, 25), Err(MoveError::OutOfBounds));
    assert_eq!(move_ordinary(&mut b, Color::Black, 5, 3), Err(MoveError::WrongDirection));
    assert_eq!(move_ordinary(&mut b, Color::White, 5, 7), Err(MoveError::WrongDirection));
    assert_eq!(move_ordinary(&mut b, Color::Black, 2, 4), Err(MoveError::EmptySource));
    // Point 5 is held by five White pieces.
    assert_eq!(move_ordinary(&mut b, Color::Black, 0, 5), Err(MoveError::Blocked));
    // A rejection mutates nothing.
    assert_eq!(b.point(0), Point { owner: Color::Black, count: 2 });
    assert_eq!(b.pieces_on_board(Color::Black), 15);
    assert_eq!(b.pieces_on_board(Color::White), 15);
}

#[test]
fn play_move_needs_a_matching_die() {
    let mut g = fresh_game(DiceState::with_roll(3, 5), Color::Black);
    assert_eq!(g.play_move(0, 4), Err(MoveError::PipMismatch));
    assert_eq!(g.play_move(0, 2), Err(MoveError::PipMismatch));
    assert_eq!(g.play_move(0, 3), Ok(()));
}

#[test]
fn force_end_turn_flips_and_rerolls() {
    let mut g = fresh_game(DiceState::with_roll(3, 5), Color::Black);
    g.force_end_turn();
    assert_eq!(g.active, Color::White);
    let a = g.dice.first.expect("rerolled");
    let b = g.dice.second.expect("rerolled");
    assert!((1..=6).contains(&a));
    assert!((1..=6).contains(&b));
}

#[test]
fn win_sweep_ignores_everything_but_board_pieces() {
    let mut b = BoardState::empty();
    assert!(b.set_point(3, Color::White, 2));
    assert!(check_win(&b, Color::Black));
    assert!(!check_win(&b, Color::White));
    // Clearing the last White stack makes White a winner too.
    assert!(b.set_point(3, Color::White, 0));
    assert!(check_win(&b, Color::White));
}

#[test]
fn bearing_off_last_piece_wins() {
    let mut b = BoardState::empty();
    assert!(b.set_point(23, Color::Black, 1));
    assert!(b.set_point(12, Color::White, 3));
    let mut g = Game { board: b, dice: DiceState::with_roll(2, 6), active: Color::Black };
    assert!(!check_win(&g.board, Color::Black));
    assert_eq!(g.bear_off(23), Ok(()));
    assert!(check_win(&g.board, Color::Black));
    assert!(!check_win(&g.board, Color::White));
}

#[test]
fn set_point_refuses_a_sixteenth_piece() {
    let mut b = BoardState::empty();
    assert!(b.set_point(0, Color::Black, 15));
    assert!(!b.set_point(1, Color::Black, 1));
    assert_eq!(b.point(1).count, 0);
    assert!(b.set_point(1, Color::White, 15));
    assert!(!b.set_bar(Color::White, 1));
}

#[test]
fn legal_target_queries_match_outcomes() {
    let mut g = fresh_game(DiceState::with_roll(3, 5), Color::Black);
    assert!(g.can_play_move(0, 3));
    // No die shows a 4.
    assert!(!g.can_play_move(0, 4));
    // Point 5 is blocked by five White pieces.
    assert!(!g.can_play_move(0, 5));
    // Point 2 is empty.
    assert!(!g.can_play_move(2, 5));
    assert_eq!(g.play_move(0, 3), Ok(()));

    let mut b = BoardState::empty();
    assert!(b.set_point(20, Color::Black, 2));
    let g2 = Game { board: b, dice: DiceState::with_roll(6, 3), active: Color::Black };
    assert!(g2.can_bear_off(20));
    assert!(!g2.can_bear_off(21));

    let mut b3 = BoardState::empty();
    assert!(b3.set_bar(Color::Black, 1));
    let g3 = Game { board: b3, dice: DiceState::with_roll(3, 5), active: Color::Black };
    assert!(g3.can_play_off_bar(2));
    assert!(!g3.can_play_off_bar(3));
}

#[test]
fn empty_game_has_no_legal_ordinary_moves() {
    let mut g = empty_game(DiceState::with_roll(3, 5), Color::Black);
    assert_eq!(g.play_move(0, 3), Err(MoveError::EmptySource));
}
