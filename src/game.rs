use vstd::prelude::*;
use crate::board::{
    CELLS, LINES, Outcome, Player, first_win_from, has_line, is_full, line_at, line_owner,
    occupied_count, other_spec, outcome_of, lemma_empty_count, lemma_fill_counts_one,
};

verus! {

/// Why a move was refused.
#[derive(Debug, Clone, Copy, PartialEq, Eq, Structural)]
pub enum MoveError {
    /// The move does not name one of the nine cells.
    InvalidInput,
    /// The named cell already holds a mark.
    CellOccupied,
}

/// The state of one round: the board, row-major, and the mark to move next.
#[derive(Debug, Clone, Copy)]
pub struct Game {
    pub current_player: Player,
    pub board: [Option<Player>; 9],
}

/// The mathematical state of a round.
pub struct GameView {
    pub board: Seq<Option<Player>>,
    pub turn: Player,
}

impl View for Game {
    type V = GameView;

    open spec fn view(&self) -> GameView {
        GameView { board: self.board@, turn: self.current_player }
    }
}

/// The state at the start of a round: nine empty cells, X to move.
pub open spec fn initial_view() -> GameView {
    GameView { board: Seq::new(CELLS as nat, |i: int| None), turn: Player::X }
}

/// Why a move at `idx` would be refused in state `g`, if it would.
pub open spec fn move_error(g: GameView, idx: int) -> Option<MoveError> {
    if !(0 <= idx < CELLS) {
        Some(MoveError::InvalidInput)
    } else if g.board[idx] is Some {
        Some(MoveError::CellOccupied)
    } else {
        None
    }
}

/// The state after an accepted move at `idx`: the cell takes the mover's mark
/// and the turn passes.
pub open spec fn after_move(g: GameView, idx: int) -> GameView {
    GameView { board: g.board.update(idx, Some(g.turn)), turn: other_spec(g.turn) }
}

/// Whether every move of `moves`, played in order from the start of a round, is accepted.
pub open spec fn all_accepted(moves: Seq<int>) -> bool
    decreases moves.len(),
{
    if moves.len() == 0 {
        true
    } else {
        all_accepted(moves.drop_last()) && move_error(play(moves.drop_last()), moves.last())
            is None
    }
}

/// The state reached by playing `moves` in order from the start of a round,
/// each of them accepted.
pub open spec fn play(moves: Seq<int>) -> GameView
    decreases moves.len(),
{
    if moves.len() == 0 {
        initial_view()
    } else {
        after_move(play(moves.drop_last()), moves.last())
    }
}

/// After any sequence of accepted moves from the start of a round, the number of
/// occupied cells equals the number of moves, and X is to move exactly when that
/// number is even.
pub proof fn lemma_accepted_moves(moves: Seq<int>)
    requires
        all_accepted(moves),
    ensures
        play(moves).board.len() == CELLS,
        occupied_count(play(moves).board) == moves.len(),
        play(moves).turn == Player::X <==> moves.len() % 2 == 0,
    decreases moves.len(),
{
    if moves.len() == 0 {
        lemma_empty_count(initial_view().board);
    } else {
        let prev = moves.drop_last();
        lemma_accepted_moves(prev);
        lemma_fill_counts_one(play(prev).board, moves.last(), play(prev).turn);
    }
}

impl Game {
    /// A fresh round: an empty board with X to move.
    pub fn new() -> (r: Game)
        ensures
            r@ == initial_view(),
    {
        let r = Game { current_player: Player::X, board: [None; 9] };
        assert(r.board@ =~= initial_view().board);
        r
    }

    /// Plays the current mark at zero-based cell `idx`, then passes the turn.
    /// An index outside the board or an occupied cell is refused, and nothing changes.
    pub fn apply_move(&mut self, idx: usize) -> (r: Result<(), MoveError>)
        ensures
            move_error(old(self)@, idx as int) matches Some(e) ==> r == Err::<(), MoveError>(e)
                && *final(self) == *old(self),
            move_error(old(self)@, idx as int) is None ==> r is Ok && final(self)@ == after_move(
                old(self)@,
                idx as int,
            ),
    {
        if idx >= CELLS {
            return Err(MoveError::InvalidInput);
        }
        if self.board[idx].is_some() {
            return Err(MoveError::CellOccupied);
        }
        self.board[idx] = Some(self.current_player);
        self.current_player = self.current_player.other();
        assert(self@.board =~= after_move(old(self)@, idx as int).board);
        Ok(())
    }
}


/// Whether two cells hold the same thing.
fn same_cell(a: Option<Player>, b: Option<Player>) -> (r: bool)
    ensures
        r == (a == b),
{
    match (a, b) {
        (None, None) => true,
        (Some(Player::X), Some(Player::X)) => true,
        (Some(Player::O), Some(Player::O)) => true,
        _ => false,
    }
}

/// The canonical win outcome as a nested option: a winner, `Some(None)` for a
/// draw, `None` while the game goes on.
pub open spec fn win_status(b: Seq<Option<Player>>) -> Option<Option<Player>> {
    match outcome_of(b) {
        Outcome::Win(p) => Some(Some(p)),
        Outcome::Draw => Some(None),
        Outcome::InProgress => None,
    }
}

impl Game {
    /// The mark that fills all three cells `cond`, if one does.
    pub fn check_condition(&self, cond: [usize; 3]) -> (r: Option<Player>)
        requires
            cond[0] < CELLS,
            cond[1] < CELLS,
            cond[2] < CELLS,
        ensures
            r == line_owner(self.board@, (cond[0] as int, cond[1] as int, cond[2] as int)),
    {
        let first = self.board[cond[0]];
        if same_cell(first, self.board[cond[1]]) && same_cell(first, self.board[cond[2]]) {
            first
        } else {
            None
        }
    }

    /// The winner of the first won line in canonical order as `Some(Some(p))`;
    /// else `Some(None)` when the board is full; else `None`.
    pub fn check_win_condition(&self) -> (r: Option<Option<Player>>)
        ensures
            r == win_status(self.board@),
    {
        let conditions: [[usize; 3]; 8] = [
            [0, 1, 2],
            [3, 4, 5],
            [6, 7, 8],
            [0, 3, 6],
            [1, 4, 7],
            [2, 5, 8],
            [0, 4, 8],
            [2, 4, 6],
        ];
        let ghost b = self.board@;
        let mut k: usize = 0;
        while k < LINES
            invariant
                0 <= k <= LINES,
                b == self.board@,
                first_win_from(b, 0) == first_win_from(b, k as int),
                forall|j: int|
                    0 <= j < LINES ==> (#[trigger] conditions@[j])@ == seq![
                        line_at(j).0 as usize,
                        line_at(j).1 as usize,
                        line_at(j).2 as usize,
                    ],
            decreases LINES - k,
        {
            let c = conditions[k];
            assert(c@ == conditions@[k as int]@);
            let owner = self.check_condition(c);
            if let Some(p) = owner {
                return Some(Some(p));
            }
            k = k + 1;
        }
        let mut i: usize = 0;
        while i < CELLS
            invariant
                0 <= i <= CELLS,
                b == self.board@,
                first_win_from(b, 0) is None,
                forall|j: int| 0 <= j < i ==> (#[trigger] b[j]) is Some,
            decreases CELLS - i,
        {
            if self.board[i].is_none() {
                return None;
            }
            i = i + 1;
        }
        Some(None)
    }

    /// What the board amounts to: a win, a draw, or a game still in progress.
    pub fn evaluate(&self) -> (r: Outcome)
        ensures
            r == outcome_of(self.board@),
    {
        match self.check_win_condition() {
            Some(Some(p)) => Outcome::Win(p),
            Some(None) => Outcome::Draw,
            None => Outcome::InProgress,
        }
    }
}

/// Where the scan of lines from `k` on stops, a line is won by that mark; where
/// it finds nothing, no line from `k` on is won.
proof fn lemma_first_win(b: Seq<Option<Player>>, k: int)
    requires
        0 <= k <= LINES,
    ensures
        first_win_from(b, k) matches Some(p) ==> exists|j: int|
            k <= j < LINES && #[trigger] line_owner(b, line_at(j)) == Some(p),
        first_win_from(b, k) is None ==> forall|j: int|
            k <= j < LINES ==> (#[trigger] line_owner(b, line_at(j))) is None,
    decreases LINES - k,
{
    if k < LINES {
        lemma_first_win(b, k + 1);
    }
}

/// A board is won by a mark if and only if that mark fills one of the eight
/// lines; it is a draw if and only if no line is won and every cell is
/// occupied; otherwise it is in progress. The equivalence for a win is stated
/// for boards where not both marks fill a line (there the first line in
/// canonical order decides); in every case a win names a mark that fills a line.
pub proof fn lemma_outcome_lines(b: Seq<Option<Player>>)
    requires
        b.len() == CELLS,
    ensures
        forall|p: Player| outcome_of(b) == Outcome::Win(p) ==> has_line(b, p),
        !(has_line(b, Player::X) && has_line(b, Player::O)) ==> forall|p: Player|
            outcome_of(b) == Outcome::Win(p) <==> has_line(b, p),
        outcome_of(b) == Outcome::Draw <==> !has_line(b, Player::X) && !has_line(b, Player::O)
            && is_full(b),
        outcome_of(b) == Outcome::InProgress <==> !has_line(b, Player::X) && !has_line(
            b,
            Player::O,
        ) && !is_full(b),
{
    lemma_first_win(b, 0);
}

} // verus!
