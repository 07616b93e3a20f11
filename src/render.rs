use vstd::prelude::*;
use vstd::string::StringExecFns;
use crate::board::{CELLS, Player};
use crate::game::Game;

verus! {

/// The label of a cell: a space when empty, else the mark's letter.
pub open spec fn cell_text(c: Option<Player>) -> Seq<char> {
    match c {
        None => seq![' '],
        Some(Player::X) => seq!['X'],
        Some(Player::O) => seq!['O'],
    }
}

/// What stands between two cells of a row.
pub open spec fn cell_separator() -> Seq<char> {
    seq![' ', '|', ' ']
}

/// What stands between two rows: a line of ten dashes.
pub open spec fn row_separator() -> Seq<char> {
    seq!['\n', '-', '-', '-', '-', '-', '-', '-', '-', '-', '-', '\n']
}

/// The row of the three cells from `i` on.
pub open spec fn row_text(b: Seq<Option<Player>>, i: int) -> Seq<char> {
    cell_text(b[i]) + cell_separator() + cell_text(b[i + 1]) + cell_separator() + cell_text(
        b[i + 2],
    )
}

/// The three rows of the board, with a dashed line between two rows and none after the last.
pub open spec fn board_text(b: Seq<Option<Player>>) -> Seq<char> {
    row_text(b, 0) + row_separator() + row_text(b, 3) + row_separator() + row_text(b, 6)
}

/// The text of the first `n` rows, each followed by a dashed line but for the last row of the board.
pub open spec fn rows_prefix(b: Seq<Option<Player>>, n: int) -> Seq<char>
    decreases n,
{
    if n <= 0 {
        Seq::empty()
    } else {
        rows_prefix(b, n - 1) + row_text(b, 3 * (n - 1)) + if n - 1 != 2 {
            row_separator()
        } else {
            Seq::<char>::empty()
        }
    }
}

impl Game {
    /// The label of cell content `player`.
    pub fn format_player(&self, player: Option<Player>) -> (r: String)
        ensures
            r@ == cell_text(player),
    {
        proof {
            reveal_strlit(" ");
            reveal_strlit("X");
            reveal_strlit("O");
        }
        match player {
            None => String::from_str(" "),
            Some(Player::X) => String::from_str("X"),
            Some(Player::O) => String::from_str("O"),
        }
    }

    /// The row of the three cells from `idx` on, separated by `" | "`.
    pub fn format_row(&self, idx: usize) -> (r: String)
        requires
            idx + 2 < CELLS,
        ensures
            r@ == row_text(self.board@, idx as int),
    {
        proof {
            reveal_strlit(" | ");
        }
        let mut r = self.format_player(self.board[idx]);
        r.append(" | ");
        r.append(self.format_player(self.board[idx + 1]).as_str());
        r.append(" | ");
        r.append(self.format_player(self.board[idx + 2]).as_str());
        r
    }

    /// The whole board as three rows with a dashed line between two rows.
    pub fn format_board(&self) -> (r: String)
        ensures
            r@ == board_text(self.board@),
    {
        let mut r = String::new();
        let mut idx: usize = 0;
        while idx < 3
            invariant
                0 <= idx <= 3,
                r@ == rows_prefix(self.board@, idx as int),
            decreases 3 - idx,
        {
            let row = self.format_row(idx * 3);
            r.append(row.as_str());
            if idx != 2 {
                r.append("\n----------\n");
            }
            proof {
                reveal_strlit("\n----------\n");
                let b = self.board@;
                let n = idx + 1;
                assert(3 * (n - 1) == idx * 3);
                assert(rows_prefix(b, n) == rows_prefix(b, n - 1) + row_text(b, 3 * (n - 1)) + if n
                    - 1 != 2 {
                    row_separator()
                } else {
                    Seq::<char>::empty()
                });
                assert(r@ =~= rows_prefix(b, n));
            }
            idx = idx + 1;
        }
        proof {
            let b = self.board@;
            assert(rows_prefix(b, 0) =~= Seq::<char>::empty());
            assert(rows_prefix(b, 1) =~= row_text(b, 0) + row_separator());
            assert(rows_prefix(b, 2) =~= rows_prefix(b, 1) + row_text(b, 3) + row_separator());
            assert(rows_prefix(b, 3) =~= rows_prefix(b, 2) + row_text(b, 6));
            assert(r@ =~= board_text(b));
        }
        r
    }

    /// The board as text, as `format_board` lays it out.
    pub fn render(&self) -> (r: String)
        ensures
            r@ == board_text(self.board@),
    {
        self.format_board()
    }
}

} // verus!
