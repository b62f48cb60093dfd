use tictactoe::game::Cell;
use tictactoe::game::GameOutcome;
use tictactoe::game::GameState;
use tictactoe::game::board_full;
use tictactoe::game::clear_board;
use tictactoe::game::create_board;
use tictactoe::game::get_winner;
use tictactoe::player::Color;
use tictactoe::player::Player;
use tictactoe::player::color_of;

fn cell(number: u8, played_by: Option<Player>) -> Cell {
    Cell { number, played_by }
}

fn board_from(occupancies: [Option<Player>; 9]) -> Vec<Cell> {
    let mut board = Vec::new();
    for (i, occ) in occupancies.iter().enumerate() {
        board.push(cell(i as u8 + 1, *occ));
    }
    board
}

const A: Option<Player> = Some(Player::A);
const B: Option<Player> = Some(Player::B);
const N: Option<Player> = None;

#[test]
fn new_game_is_empty_and_a_moves_first() {
    let g = GameState::new();
    assert_eq!(g.turn(), Player::A);
    assert_eq!(g.evaluate_outcome(), GameOutcome::InProgress);
    for i in 0..9 {
        assert_eq!(g.cell_number(i), i as u8 + 1);
        assert_eq!(g.cell_color(i), Color::White);
        assert!(g.is_clickable(i));
    }
    assert!(!g.reset_enabled());
}

#[test]
fn create_board_numbers_cells_one_through_nine() {
    let board = create_board();
    assert_eq!(board.len(), 9);
    for (i, c) in board.iter().enumerate() {
        assert_eq!(c.number, i as u8 + 1);
        assert_eq!(c.played_by, None);
    }
}

#[test]
fn clear_board_empties_cells_and_keeps_numbers() {
    let mut board = board_from([A, B, A, N, B, N, A, N, B]);
    clear_board(&mut board);
    assert_eq!(board.len(), 9);
    for (i, c) in board.iter().enumerate() {
        assert_eq!(c.number, i as u8 + 1);
        assert_eq!(c.played_by, None);
    }
}

#[test]
fn winner_of_empty_board_is_none() {
    assert_eq!(get_winner(&board_from([N; 9])), None);
}

#[test]
fn winner_by_row() {
    assert_eq!(get_winner(&board_from([A, A, A, B, B, N, N, N, N])), Some(Player::A));
    assert_eq!(get_winner(&board_from([A, N, A, B, B, B, A, N, N])), Some(Player::B));
    assert_eq!(get_winner(&board_from([B, N, B, A, N, N, A, A, A])), Some(Player::A));
}

#[test]
fn winner_by_column() {
    assert_eq!(get_winner(&board_from([A, B, N, A, B, N, N, B, A])), Some(Player::B));
    assert_eq!(get_winner(&board_from([B, A, N, N, A, B, N, A, N])), Some(Player::A));
    assert_eq!(get_winner(&board_from([N, A, B, A, N, B, N, A, B])), Some(Player::B));
}

#[test]
fn winner_by_main_diagonal() {
    assert_eq!(get_winner(&board_from([A, B, N, B, A, N, N, N, A])), Some(Player::A));
}

#[test]
fn winner_by_anti_diagonal() {
    assert_eq!(get_winner(&board_from([A, A, B, N, B, A, B, N, N])), Some(Player::B));
}

#[test]
fn winner_follows_fixed_triple_order() {
    // A degenerate board where two rows are complete: the first triple in
    // the fixed enumeration decides.
    assert_eq!(get_winner(&board_from([A, A, A, B, B, B, N, N, N])), Some(Player::A));
    assert_eq!(get_winner(&board_from([N, N, N, B, B, B, A, A, A])), Some(Player::B));
}

#[test]
fn board_full_detects_a_full_board() {
    assert!(board_full(&board_from([A, B, A, B, A, B, A, B, A])));
    assert!(!board_full(&board_from([A, B, A, B, N, B, A, B, A])));
    assert!(!board_full(&board_from([N; 9])));
}

#[test]
fn color_derives_from_occupancy() {
    assert_eq!(color_of(None), Color::White);
    assert_eq!(color_of(Some(Player::A)), Color::Blue);
    assert_eq!(color_of(Some(Player::B)), Color::Red);
}

#[test]
fn player_names_and_opponents() {
    assert_eq!(Player::A.name(), "A");
    assert_eq!(Player::B.name(), "B");
    assert_eq!(Player::A.other(), Player::B);
    assert_eq!(Player::B.other(), Player::A);
}

#[test]
fn clickable_only_while_free_and_in_progress() {
    let mut g = GameState::new();
    assert!(g.apply_move(4).is_ok());
    assert!(!g.is_clickable(4));
    assert!(g.is_clickable(0));
    // A wins on the top row; nothing is clickable afterwards.
    for p in [3, 0, 5, 1, 7, 2] {
        assert!(g.apply_move(p).is_ok());
    }
    assert_eq!(g.evaluate_outcome(), GameOutcome::Won(Player::A));
    for i in 0..9 {
        assert!(!g.is_clickable(i));
    }
    assert!(g.reset_enabled());
}
