//! The knight: the eight fixed L-shaped jumps.

use vstd::prelude::*;

use crate::board::{last_record, valid_coord, Cell, Coord, Grid, MoveRecord};
use crate::pieces::{Movable, PieceColor, Position};
use crate::utils::{apply_move_spec, cleaned_positions, impossible_positions_king_checked,
    is_checked, is_valid, jump_extend, jump_reaches};

verus! {

/// Everything a knight at `(y, x)` reaches: the eight L-shaped offsets,
/// filtered to the board and, outside protection mode, to non-ally squares.
pub open spec fn knight_reaches(
    b: Seq<Cell>,
    color: PieceColor,
    y: int,
    x: int,
    ty: int,
    tx: int,
    protect: bool,
) -> bool {
    &&& valid_coord(y, x)
    &&& {
        ||| jump_reaches(b, color, y, x, -2, -1, ty, tx, protect)
        ||| jump_reaches(b, color, y, x, -2, 1, ty, tx, protect)
        ||| jump_reaches(b, color, y, x, -1, -2, ty, tx, protect)
        ||| jump_reaches(b, color, y, x, -1, 2, ty, tx, protect)
        ||| jump_reaches(b, color, y, x, 1, -2, ty, tx, protect)
        ||| jump_reaches(b, color, y, x, 1, 2, ty, tx, protect)
        ||| jump_reaches(b, color, y, x, 2, -1, ty, tx, protect)
        ||| jump_reaches(b, color, y, x, 2, 1, ty, tx, protect)
    }
}

pub struct Knight;

impl Knight {
    pub fn to_string() -> &'static str {
        "\
    \n\
    \u{259f}\u{259b}\u{2588}\u{2588}\u{2599}\n\
   \u{259f}\u{2588}\u{2588}\u{2588}\u{2588}\u{2588}\n\
   \u{2580}\u{2580}\u{259f}\u{2588}\u{2588}\u{258c}\n\
    \u{259f}\u{2588}\u{2588}\u{2588}\u{2588}\n\
    "
    }
}

impl Movable for Knight {
    fn piece_move(
        coordinates: Coord,
        color: PieceColor,
        board: &Grid,
        allow_move_on_ally_positions: bool,
        move_history: &Vec<MoveRecord>,
    ) -> (positions: Vec<Coord>)
        ensures
            forall|c: Coord| #[trigger] positions@.contains(c) <==> knight_reaches(
                board@,
                color,
                coordinates.row as int,
                coordinates.col as int,
                c.row as int,
                c.col as int,
                allow_move_on_ally_positions,
            ),
    {
        let mut positions: Vec<Coord> = Vec::new();
        if !is_valid(coordinates) {
            return positions;
        }
        jump_extend(&mut positions, board, color, coordinates, -2, -1, allow_move_on_ally_positions);
        jump_extend(&mut positions, board, color, coordinates, -2, 1, allow_move_on_ally_positions);
        jump_extend(&mut positions, board, color, coordinates, -1, -2, allow_move_on_ally_positions);
        jump_extend(&mut positions, board, color, coordinates, -1, 2, allow_move_on_ally_positions);
        jump_extend(&mut positions, board, color, coordinates, 1, -2, allow_move_on_ally_positions);
        jump_extend(&mut positions, board, color, coordinates, 1, 2, allow_move_on_ally_positions);
        jump_extend(&mut positions, board, color, coordinates, 2, -1, allow_move_on_ally_positions);
        jump_extend(&mut positions, board, color, coordinates, 2, 1, allow_move_on_ally_positions);
        let r = cleaned_positions(positions);
        proof {
            assert forall|k: int| 0 <= k < r@.len() implies (#[trigger] r@[k]).valid() by {
                assert(r@.contains(r@[k]));
            }
        }
        r
    }
}

impl Position for Knight {
    fn authorized_positions(
        coordinates: Coord,
        color: PieceColor,
        board: &Grid,
        move_history: &Vec<MoveRecord>,
        is_king_checked: bool,
    ) -> (positions: Vec<Coord>)
        ensures
            forall|c: Coord| #[trigger] positions@.contains(c) <==> knight_reaches(
                board@,
                color,
                coordinates.row as int,
                coordinates.col as int,
                c.row as int,
                c.col as int,
                false,
            ) && !is_checked(
                apply_move_spec(board@, coordinates, c),
                color,
                last_record(move_history@),
            ),
    {
        let raw = Self::piece_move(coordinates, color, board, false, move_history);
        if is_valid(coordinates) {
            impossible_positions_king_checked(coordinates, raw, board, color, move_history)
        } else {
            raw
        }
    }

    fn protected_positions(
        coordinates: Coord,
        color: PieceColor,
        board: &Grid,
        move_history: &Vec<MoveRecord>,
    ) -> (positions: Vec<Coord>)
        ensures
            forall|c: Coord| #[trigger] positions@.contains(c) <==> knight_reaches(
                board@,
                color,
                coordinates.row as int,
                coordinates.col as int,
                c.row as int,
                c.col as int,
                true,
            ),
    {
        Self::piece_move(coordinates, color, board, true, move_history)
    }
}

} // verus!
