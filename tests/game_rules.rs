use tictactoe::board::{Outcome, Player};
use tictactoe::game::{Game, MoveError};

fn play_all(g: &mut Game, moves: &[usize]) {
    for &m in moves {
        assert_eq!(g.apply_move(m), Ok(()));
    }
}

fn occupied(g: &Game) -> usize {
    g.board.iter().filter(|c| c.is_some()).count()
}

#[test]
fn new_game_is_empty_with_x_to_move() {
    let g = Game::new();
    assert_eq!(g.current_player, Player::X);
    assert!(g.board.iter().all(|c| c.is_none()));
    assert_eq!(g.evaluate(), Outcome::InProgress);
}

#[test]
fn accepted_moves_count_and_alternate() {
    let mut g = Game::new();
    let moves = [4usize, 0, 8, 2, 6];
    for (n, &m) in moves.iter().enumerate() {
        let mover = g.current_player;
        assert_eq!(g.apply_move(m), Ok(()));
        assert_eq!(g.board[m], Some(mover));
        assert_eq!(occupied(&g), n + 1);
        assert_eq!(g.current_player == Player::X, (n + 1) % 2 == 0);
    }
}

#[test]
fn occupied_cell_is_refused_without_change() {
    let mut g = Game::new();
    play_all(&mut g, &[4]);
    let before = g;
    assert_eq!(g.apply_move(4), Err(MoveError::CellOccupied));
    assert_eq!(g.board, before.board);
    assert_eq!(g.current_player, Player::O);
}

#[test]
fn out_of_range_index_is_refused_without_change() {
    let mut g = Game::new();
    play_all(&mut g, &[0]);
    let before = g;
    assert_eq!(g.apply_move(9), Err(MoveError::InvalidInput));
    assert_eq!(g.apply_move(usize::MAX), Err(MoveError::InvalidInput));
    assert_eq!(g.board, before.board);
    assert_eq!(g.current_player, before.current_player);
}

#[test]
fn top_row_wins_for_x() {
    let mut g = Game::new();
    play_all(&mut g, &[0, 3, 1, 4, 2]);
    assert_eq!(g.board[0], Some(Player::X));
    assert_eq!(g.board[1], Some(Player::X));
    assert_eq!(g.board[2], Some(Player::X));
    assert_eq!(g.evaluate(), Outcome::Win(Player::X));
    assert_eq!(g.check_win_condition(), Some(Some(Player::X)));
}

#[test]
fn full_board_without_line_is_draw() {
    let mut g = Game::new();
    play_all(&mut g, &[0, 1, 2, 4, 3, 5, 7, 6, 8]);
    assert_eq!(g.evaluate(), Outcome::Draw);
    assert_eq!(g.check_win_condition(), Some(None));
}

#[test]
fn column_and_diagonal_wins() {
    let mut g = Game::new();
    play_all(&mut g, &[0, 1, 3, 4, 8, 7]);
    assert_eq!(g.evaluate(), Outcome::Win(Player::O));
    let mut h = Game::new();
    play_all(&mut h, &[2, 0, 4, 1, 6]);
    assert_eq!(h.evaluate(), Outcome::Win(Player::X));
}

#[test]
fn win_on_last_cell_is_a_win_not_a_draw() {
    let mut g = Game::new();
    play_all(&mut g, &[0, 1, 2, 4, 3, 5, 7, 8, 6]);
    assert_eq!(g.evaluate(), Outcome::Win(Player::X));
}

#[test]
fn first_line_in_canonical_order_decides() {
    let x = Some(Player::X);
    let o = Some(Player::O);
    let g = Game {
        current_player: Player::X,
        board: [o, o, o, x, x, x, None, None, None],
    };
    assert_eq!(g.evaluate(), Outcome::Win(Player::O));
    let h = Game {
        current_player: Player::X,
        board: [x, o, None, x, o, None, x, o, None],
    };
    assert_eq!(h.evaluate(), Outcome::Win(Player::X));
}

#[test]
fn check_condition_reports_owner() {
    let x = Some(Player::X);
    let o = Some(Player::O);
    let g = Game {
        current_player: Player::X,
        board: [x, x, x, o, o, None, None, None, None],
    };
    assert_eq!(g.check_condition([0, 1, 2]), Some(Player::X));
    assert_eq!(g.check_condition([3, 4, 5]), None);
    assert_eq!(g.check_condition([6, 7, 8]), None);
}

#[test]
fn partial_board_is_in_progress() {
    let mut g = Game::new();
    play_all(&mut g, &[0, 4, 8]);
    assert_eq!(g.evaluate(), Outcome::InProgress);
    assert_eq!(g.check_win_condition(), None);
}

#[test]
fn other_swaps_marks() {
    assert_eq!(Player::X.other(), Player::O);
    assert_eq!(Player::O.other(), Player::X);
}
