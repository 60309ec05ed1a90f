//! The rook: ray walks over the four orthogonal directions.

use vstd::prelude::*;

use crate::board::{last_record, valid_coord, Cell, Coord, Grid, MoveRecord};
use crate::pieces::{Movable, PieceColor, Position};
use crate::utils::{apply_move_spec, cleaned_positions, dir_reaches, impossible_positions_king_checked,
    is_checked, is_valid, ray_extend};

verus! {

/// Everything a rook at `(y, x)` reaches: the four orthogonal rays, each
/// stopped by the first blocking square.
pub open spec fn rook_reaches(
    b: Seq<Cell>,
    color: PieceColor,
    y: int,
    x: int,
    ty: int,
    tx: int,
    protect: bool,
) -> bool {
    &&& valid_coord(y, x)
    &&& {
        ||| dir_reaches(b, color, y, x, 0, 1, ty, tx, protect)
        ||| dir_reaches(b, color, y, x, 0, -1, ty, tx, protect)
        ||| dir_reaches(b, color, y, x, 1, 0, ty, tx, protect)
        ||| dir_reaches(b, color, y, x, -1, 0, ty, tx, protect)
    }
}

pub struct Rook;

impl Rook {
    pub fn to_string() -> &'static str {
        "\
    \n\
    \u{2588}\u{259f}\u{2588}\u{2599}\u{2588}\n\
    \u{259c}\u{2588}\u{2588}\u{2588}\u{259b}\n\
    \u{2590}\u{2588}\u{2588}\u{2588}\u{258c}\n\
   \u{2597}\u{2588}\u{2588}\u{2588}\u{2588}\u{2588}\u{2596}\n\
    "
    }
}

impl Movable for Rook {
    fn piece_move(
        coordinates: Coord,
        color: PieceColor,
        board: &Grid,
        allow_move_on_ally_positions: bool,
        move_history: &Vec<MoveRecord>,
    ) -> (positions: Vec<Coord>)
        ensures
            forall|c: Coord| #[trigger] positions@.contains(c) <==> rook_reaches(
                board@,
                color,
                coordinates.row as int,
                coordinates.col as int,
                c.row as int,
                c.col as int,
                allow_move_on_ally_positions,
            ),
    {
        let mut positions: Vec<Coord> = Vec::new();
        if !is_valid(coordinates) {
            return positions;
        }
        ray_extend(&mut positions, board, color, coordinates, 0, 1, allow_move_on_ally_positions);
        ray_extend(&mut positions, board, color, coordinates, 0, -1, allow_move_on_ally_positions);
        ray_extend(&mut positions, board, color, coordinates, 1, 0, allow_move_on_ally_positions);
        ray_extend(&mut positions, board, color, coordinates, -1, 0, allow_move_on_ally_positions);
        let r = cleaned_positions(positions);
        proof {
            assert forall|k: int| 0 <= k < r@.len() implies (#[trigger] r@[k]).valid() by {
                assert(r@.contains(r@[k]));
            }
        }
        r
    }
}

impl Position for Rook {
    fn authorized_positions(
        coordinates: Coord,
        color: PieceColor,
        board: &Grid,
        move_history: &Vec<MoveRecord>,
        is_king_checked: bool,
    ) -> (positions: Vec<Coord>)
        ensures
            forall|c: Coord| #[trigger] positions@.contains(c) <==> rook_reaches(
                board@,
                color,
                coordinates.row as int,
                coordinates.col as int,
                c.row as int,
                c.col as int,
                false,
            ) && !is_checked(
                apply_move_spec(board@, coordinates, c),
                color,
                last_record(move_history@),
            ),
    {
        let raw = Self::piece_move(coordinates, color, board, false, move_history);
        if is_valid(coordinates) {
            impossible_positions_king_checked(coordinates, raw, board, color, move_history)
        } else {
            raw
        }
    }

    fn protected_positions(
        coordinates: Coord,
        color: PieceColor,
        board: &Grid,
        move_history: &Vec<MoveRecord>,
    ) -> (positions: Vec<Coord>)
        ensures
            forall|c: Coord| #[trigger] positions@.contains(c) <==> rook_reaches(
                board@,
                color,
                coordinates.row as int,
                coordinates.col as int,
                c.row as int,
                c.col as int,
                true,
            ),
    {
        Self::piece_move(coordinates, color, board, true, move_history)
    }
}

} // verus!
