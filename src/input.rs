use vstd::prelude::*;
use vstd::string::StrSliceExecFns;
use crate::game::{Game, MoveError, after_move, move_error};

verus! {

/// The zero-based cell that digit `c` names: `'1'` names cell 0, ..., `'9'` names cell 8.
/// Any other character, `'0'` included, names none.
pub open spec fn digit_index(c: char) -> Option<int> {
    if c == '1' {
        Some(0)
    } else if c == '2' {
        Some(1)
    } else if c == '3' {
        Some(2)
    } else if c == '4' {
        Some(3)
    } else if c == '5' {
        Some(4)
    } else if c == '6' {
        Some(5)
    } else if c == '7' {
        Some(6)
    } else if c == '8' {
        Some(7)
    } else if c == '9' {
        Some(8)
    } else {
        None
    }
}

/// The cell that a line of input names: its first character read as a digit from 1 to 9.
pub open spec fn parsed_index(s: Seq<char>) -> Option<int> {
    if s.len() == 0 {
        None
    } else {
        digit_index(s[0])
    }
}

/// Why a line of input would be refused in state `g`, if it would.
pub open spec fn turn_error(g: crate::game::GameView, s: Seq<char>) -> Option<MoveError> {
    match parsed_index(s) {
        None => Some(MoveError::InvalidInput),
        Some(i) => move_error(g, i),
    }
}

/// The zero-based cell that a line of input names, or `InvalidInput` when its
/// first character is not a digit from 1 to 9.
pub fn parse_move(input: &str) -> (r: Result<usize, MoveError>)
    ensures
        parsed_index(input@) matches Some(i) ==> r == Ok::<usize, MoveError>(i as usize),
        parsed_index(input@) is None ==> r == Err::<usize, MoveError>(MoveError::InvalidInput),
{
    if input.is_empty() {
        return Err(MoveError::InvalidInput);
    }
    let c = input.get_char(0);
    match c {
        '1' => Ok(0),
        '2' => Ok(1),
        '3' => Ok(2),
        '4' => Ok(3),
        '5' => Ok(4),
        '6' => Ok(5),
        '7' => Ok(6),
        '8' => Ok(7),
        '9' => Ok(8),
        _ => Err(MoveError::InvalidInput),
    }
}

impl Game {
    /// Reads a move from a line of input and plays it. A line that names no
    /// cell, or names an occupied one, is refused and nothing changes.
    pub fn process_turn(&mut self, input: &str) -> (r: Result<(), MoveError>)
        ensures
            turn_error(old(self)@, input@) matches Some(e) ==> r == Err::<(), MoveError>(e)
                && *final(self) == *old(self),
            turn_error(old(self)@, input@) is None ==> r is Ok && final(self)@ == after_move(
                old(self)@,
                parsed_index(input@)->Some_0,
            ),
    {
        match parse_move(input) {
            Ok(idx) => self.apply_move(idx),
            Err(e) => Err(e),
        }
    }
}

} // verus!
