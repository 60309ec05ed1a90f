//! The bishop: ray walks over the four diagonal directions.

use vstd::prelude::*;

use crate::board::{last_record, valid_coord, Cell, Coord, Grid, MoveRecord};
use crate::pieces::{Movable, PieceColor, Position};
use crate::utils::{apply_move_spec, cleaned_positions, dir_reaches, impossible_positions_king_checked,
    is_checked, is_valid, ray_extend};

verus! {

/// Everything a bishop at `(y, x)` reaches: the four diagonal rays, each
/// stopped by the first blocking square.
pub open spec fn bishop_reaches(
    b: Seq<Cell>,
    color: PieceColor,
    y: int,
    x: int,
    ty: int,
    tx: int,
    protect: bool,
) -> bool {
    &&& valid_coord(y, x)
    &&& {
        ||| dir_reaches(b, color, y, x, -1, -1, ty, tx, protect)
        ||| dir_reaches(b, color, y, x, -1, 1, ty, tx, protect)
        ||| dir_reaches(b, color, y, x, 1, -1, ty, tx, protect)
        ||| dir_reaches(b, color, y, x, 1, 1, ty, tx, protect)
    }
}

pub struct Bishop;

impl Bishop {
    pub fn to_string() -> &'static str {
        "\
    \n\
       \u{2b58}\n\
      \u{2588}\u{271d}\u{2588}\n\
      \u{2588}\u{2588}\u{2588}\n\
    \u{2597}\u{2588}\u{2588}\u{2588}\u{2588}\u{2588}\u{2596}\n\
    "
    }

    /// The raw ray walk shared by the bishop's two exposed views.
    pub fn bishop_moves(
        coordinates: Coord,
        color: PieceColor,
        board: &Grid,
        allow_move_on_ally_positions: bool,
    ) -> (positions: Vec<Coord>)
        requires
            board.wf(),
        ensures
            crate::board::sorted_distinct(positions@),
            forall|k: int| 0 <= k < positions@.len() ==> (#[trigger] positions@[k]).valid(),
            forall|c: Coord| #[trigger] positions@.contains(c) <==> bishop_reaches(
                board@,
                color,
                coordinates.row as int,
                coordinates.col as int,
                c.row as int,
                c.col as int,
                allow_move_on_ally_positions,
            ),
    {
        let mut positions: Vec<Coord> = Vec::new();
        if !is_valid(coordinates) {
            return positions;
        }
        ray_extend(&mut positions, board, color, coordinates, -1, -1, allow_move_on_ally_positions);
        ray_extend(&mut positions, board, color, coordinates, -1, 1, allow_move_on_ally_positions);
        ray_extend(&mut positions, board, color, coordinates, 1, -1, allow_move_on_ally_positions);
        ray_extend(&mut positions, board, color, coordinates, 1, 1, allow_move_on_ally_positions);
        let r = cleaned_positions(positions);
        proof {
            assert forall|k: int| 0 <= k < r@.len() implies (#[trigger] r@[k]).valid() by {
                assert(r@.contains(r@[k]));
            }
        }
        r
    }

    /// The ally-inclusive ray walk: every square this bishop defends.
    pub fn protecting_positions(coordinates: Coord, color: PieceColor, board: &Grid) -> (positions:
        Vec<Coord>)
        requires
            board.wf(),
        ensures
            crate::board::sorted_distinct(positions@),
            forall|k: int| 0 <= k < positions@.len() ==> (#[trigger] positions@[k]).valid(),
            forall|c: Coord| #[trigger] positions@.contains(c) <==> bishop_reaches(
                board@,
                color,
                coordinates.row as int,
                coordinates.col as int,
                c.row as int,
                c.col as int,
                true,
            ),
    {
        Self::bishop_moves(coordinates, color, board, true)
    }
}

impl Movable for Bishop {
    fn piece_move(
        coordinates: Coord,
        color: PieceColor,
        board: &Grid,
        allow_move_on_ally_positions: bool,
        move_history: &Vec<MoveRecord>,
    ) -> (positions: Vec<Coord>)
        ensures
            forall|c: Coord| #[trigger] positions@.contains(c) <==> bishop_reaches(
                board@,
                color,
                coordinates.row as int,
                coordinates.col as int,
                c.row as int,
                c.col as int,
                allow_move_on_ally_positions,
            ),
    {
        Self::bishop_moves(coordinates, color, board, allow_move_on_ally_positions)
    }
}

impl Position for Bishop {
    fn authorized_positions(
        coordinates: Coord,
        color: PieceColor,
        board: &Grid,
        move_history: &Vec<MoveRecord>,
        is_king_checked: bool,
    ) -> (positions: Vec<Coord>)
        ensures
            forall|c: Coord| #[trigger] positions@.contains(c) <==> bishop_reaches(
                board@,
                color,
                coordinates.row as int,
                coordinates.col as int,
                c.row as int,
                c.col as int,
                false,
            ) && !is_checked(
                apply_move_spec(board@, coordinates, c),
                color,
                last_record(move_history@),
            ),
    {
        let raw = Self::bishop_moves(coordinates, color, board, false);
        if is_valid(coordinates) {
            impossible_positions_king_checked(coordinates, raw, board, color, move_history)
        } else {
            raw
        }
    }

    fn protected_positions(
        coordinates: Coord,
        color: PieceColor,
        board: &Grid,
        move_history: &Vec<MoveRecord>,
    ) -> (positions: Vec<Coord>)
        ensures
            forall|c: Coord| #[trigger] positions@.contains(c) <==> bishop_reaches(
                board@,
                color,
                coordinates.row as int,
                coordinates.col as int,
                c.row as int,
                c.col as int,
                true,
            ),
    {
        Self::protecting_positions(coordinates, color, board)
    }
}

} // verus!
