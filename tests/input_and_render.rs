use tictactoe::board::{Outcome, Player};
use tictactoe::game::{Game, MoveError};
use tictactoe::input::parse_move;

#[test]
fn empty_board_renders_blank_rows() {
    let g = Game::new();
    let row = "  |   |  ";
    let expected = format!("{row}\n----------\n{row}\n----------\n{row}");
    assert_eq!(g.render(), expected);
    assert_eq!(g.format_board(), expected);
}

#[test]
fn marks_render_as_letters() {
    let mut g = Game::new();
    for m in [0usize, 4, 8, 5] {
        g.apply_move(m).unwrap();
    }
    assert_eq!(g.render(), "X |   |  \n----------\n  | O | O\n----------\n  |   | X");
    assert_eq!(g.format_row(3), "  | O | O");
    assert_eq!(g.format_player(None), " ");
    assert_eq!(g.format_player(Some(Player::X)), "X");
    assert_eq!(g.format_player(Some(Player::O)), "O");
}

#[test]
fn digits_one_to_nine_name_cells() {
    assert_eq!(parse_move("1"), Ok(0));
    assert_eq!(parse_move("5"), Ok(4));
    assert_eq!(parse_move("9"), Ok(8));
    assert_eq!(parse_move("9 and more"), Ok(8));
    assert_eq!(parse_move("10"), Ok(0));
}

#[test]
fn other_tokens_are_invalid() {
    assert_eq!(parse_move("0"), Err(MoveError::InvalidInput));
    assert_eq!(parse_move(""), Err(MoveError::InvalidInput));
    assert_eq!(parse_move("x"), Err(MoveError::InvalidInput));
    assert_eq!(parse_move(" 5"), Err(MoveError::InvalidInput));
    assert_eq!(parse_move("\u{e9}"), Err(MoveError::InvalidInput));
}

#[test]
fn invalid_token_leaves_game_unchanged() {
    let mut g = Game::new();
    let before = g;
    assert_eq!(g.process_turn("x"), Err(MoveError::InvalidInput));
    assert_eq!(g.board, before.board);
    assert_eq!(g.current_player, Player::X);
}

#[test]
fn process_turn_plays_and_refuses_occupied() {
    let mut g = Game::new();
    assert_eq!(g.process_turn("5"), Ok(()));
    assert_eq!(g.board[4], Some(Player::X));
    assert_eq!(g.current_player, Player::O);
    assert_eq!(g.process_turn("5"), Err(MoveError::CellOccupied));
    assert_eq!(g.current_player, Player::O);
    for line in ["1", "4", "2", "7", "3"] {
        g.process_turn(line).unwrap();
    }
    assert_eq!(g.evaluate(), Outcome::Win(Player::O));
}
