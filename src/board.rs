use vstd::prelude::*;

verus! {

/// One of the two player marks.
#[derive(Debug, Clone, Copy, PartialEq, Eq, Structural)]
pub enum Player {
    X,
    O,
}

/// The result of looking at a board: still open, won by a mark, or full without a winner.
#[derive(Debug, Clone, Copy, PartialEq, Eq, Structural)]
pub enum Outcome {
    InProgress,
    Win(Player),
    Draw,
}

/// The player who moves after `p`.
pub open spec fn other_spec(p: Player) -> Player {
    match p {
        Player::X => Player::O,
        Player::O => Player::X,
    }
}

impl Player {
    /// The opposing mark.
    pub fn other(self) -> (r: Player)
        ensures
            r == other_spec(self),
            r != self,
    {
        match self {
            Player::X => Player::O,
            Player::O => Player::X,
        }
    }
}

/// The number of cells on a board.
pub const CELLS: usize = 9;

/// The number of winning lines.
pub const LINES: usize = 8;

/// The three cell indices of winning line `k`, in the order rows, columns, diagonals.
pub open spec fn line_at(k: int) -> (int, int, int) {
    if k == 0 {
        (0, 1, 2)
    } else if k == 1 {
        (3, 4, 5)
    } else if k == 2 {
        (6, 7, 8)
    } else if k == 3 {
        (0, 3, 6)
    } else if k == 4 {
        (1, 4, 7)
    } else if k == 5 {
        (2, 5, 8)
    } else if k == 6 {
        (0, 4, 8)
    } else {
        (2, 4, 6)
    }
}

/// The mark that fills all three cells of `l`, if one does.
pub open spec fn line_owner(b: Seq<Option<Player>>, l: (int, int, int)) -> Option<Player> {
    if b[l.0] is Some && b[l.0] == b[l.1] && b[l.0] == b[l.2] {
        b[l.0]
    } else {
        None
    }
}

/// Whether mark `p` fills some winning line of `b`.
pub open spec fn has_line(b: Seq<Option<Player>>, p: Player) -> bool {
    exists|k: int| 0 <= k < LINES && #[trigger] line_owner(b, line_at(k)) == Some(p)
}

/// The owner of the first won line among lines `k`, `k + 1`, ..., in canonical order.
pub open spec fn first_win_from(b: Seq<Option<Player>>, k: int) -> Option<Player>
    decreases LINES - k,
{
    if k >= LINES {
        None
    } else if line_owner(b, line_at(k)) is Some {
        line_owner(b, line_at(k))
    } else {
        first_win_from(b, k + 1)
    }
}

/// Whether every cell of `b` holds a mark.
pub open spec fn is_full(b: Seq<Option<Player>>) -> bool {
    forall|i: int| 0 <= i < b.len() ==> (#[trigger] b[i]) is Some
}

/// What a board amounts to: the first won line in canonical order decides,
/// else a full board is a draw, else the game goes on.
pub open spec fn outcome_of(b: Seq<Option<Player>>) -> Outcome {
    match first_win_from(b, 0) {
        Some(p) => Outcome::Win(p),
        None => if is_full(b) {
            Outcome::Draw
        } else {
            Outcome::InProgress
        },
    }
}

/// The number of occupied cells of `b`.
pub open spec fn occupied_count(b: Seq<Option<Player>>) -> nat
    decreases b.len(),
{
    if b.len() == 0 {
        0
    } else {
        occupied_count(b.drop_last()) + if b.last() is Some {
            1nat
        } else {
            0nat
        }
    }
}

/// Filling an empty cell adds one to the number of occupied cells.
pub proof fn lemma_fill_counts_one(b: Seq<Option<Player>>, i: int, p: Player)
    requires
        0 <= i < b.len(),
        b[i] is None,
    ensures
        occupied_count(b.update(i, Some(p))) == occupied_count(b) + 1,
    decreases b.len(),
{
    let u = b.update(i, Some(p));
    if i == b.len() - 1 {
        assert(u.drop_last() =~= b.drop_last());
    } else {
        assert(u.drop_last() =~= b.drop_last().update(i, Some(p)));
        lemma_fill_counts_one(b.drop_last(), i, p);
    }
}

/// A board of empty cells has no occupied cell.
pub proof fn lemma_empty_count(b: Seq<Option<Player>>)
    requires
        forall|i: int| 0 <= i < b.len() ==> (#[trigger] b[i]) is None,
    ensures
        occupied_count(b) == 0,
    decreases b.len(),
{
    if b.len() > 0 {
        lemma_empty_count(b.drop_last());
    }
}

} // verus!
