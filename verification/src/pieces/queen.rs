//! The queen: the union of the rook's and the bishop's ray sets.

use vstd::prelude::*;

use crate::board::{last_record, Cell, Coord, Grid, MoveRecord};
use crate::pieces::bishop::bishop_reaches;
use crate::pieces::rook::rook_reaches;
use crate::pieces::{Movable, PieceColor, Position};
use crate::utils::{apply_move_spec, cleaned_positions, impossible_positions_king_checked,
    is_checked, is_valid, ray_extend};

verus! {

/// Everything a queen at `(y, x)` reaches: every square a rook or a bishop of
/// the same color would reach from that square.
pub open spec fn queen_reaches(
    b: Seq<Cell>,
    color: PieceColor,
    y: int,
    x: int,
    ty: int,
    tx: int,
    protect: bool,
) -> bool {
    rook_reaches(b, color, y, x, ty, tx, protect) || bishop_reaches(
        b,
        color,
        y,
        x,
        ty,
        tx,
        protect,
    )
}

pub struct Queen;

impl Queen {
    pub fn to_string() -> &'static str {
        "\
    \n\
   \u{2b58}\u{2588}\u{2b58}\u{2588}\u{2b58}\n\
    \u{2599}\u{2588}\u{2588}\u{2588}\u{259f}\n\
    \u{2590}\u{2588}\u{2588}\u{2588}\u{258c}\n\
   \u{2597}\u{2588}\u{2588}\u{2588}\u{2588}\u{2588}\u{2596}\n\
    "
    }
}

impl Movable for Queen {
    fn piece_move(
        coordinates: Coord,
        color: PieceColor,
        board: &Grid,
        allow_move_on_ally_positions: bool,
        move_history: &Vec<MoveRecord>,
    ) -> (positions: Vec<Coord>)
        ensures
            forall|c: Coord| #[trigger] positions@.contains(c) <==> queen_reaches(
                board@,
                color,
                coordinates.row as int,
                coordinates.col as int,
                c.row as int,
                c.col as int,
                allow_move_on_ally_positions,
            ),
    {
        let mut positions: Vec<Coord> = Vec::new();
        if !is_valid(coordinates) {
            return positions;
        }
        ray_extend(&mut positions, board, color, coordinates, 0, 1, allow_move_on_ally_positions);
        ray_extend(&mut positions, board, color, coordinates, 0, -1, allow_move_on_ally_positions);
        ray_extend(&mut positions, board, color, coordinates, 1, 0, allow_move_on_ally_positions);
        ray_extend(&mut positions, board, color, coordinates, -1, 0, allow_move_on_ally_positions);
        ray_extend(&mut positions, board, color, coordinates, -1, -1, allow_move_on_ally_positions);
        ray_extend(&mut positions, board, color, coordinates, -1, 1, allow_move_on_ally_positions);
        ray_extend(&mut positions, board, color, coordinates, 1, -1, allow_move_on_ally_positions);
        ray_extend(&mut positions, board, color, coordinates, 1, 1, allow_move_on_ally_positions);
        let r = cleaned_positions(positions);
        proof {
            assert forall|k: int| 0 <= k < r@.len() implies (#[trigger] r@[k]).valid() by {
                assert(r@.contains(r@[k]));
            }
        }
        r
    }
}

impl Position for Queen {
    fn authorized_positions(
        coordinates: Coord,
        color: PieceColor,
        board: &Grid,
        move_history: &Vec<MoveRecord>,
        is_king_checked: bool,
    ) -> (positions: Vec<Coord>)
        ensures
            forall|c: Coord| #[trigger] positions@.contains(c) <==> queen_reaches(
                board@,
                color,
                coordinates.row as int,
                coordinates.col as int,
                c.row as int,
                c.col as int,
                false,
            ) && !is_checked(
                apply_move_spec(board@, coordinates, c),
                color,
                last_record(move_history@),
            ),
    {
        let raw = Self::piece_move(coordinates, color, board, false, move_history);
        if is_valid(coordinates) {
            impossible_positions_king_checked(coordinates, raw, board, color, move_history)
        } else {
            raw
        }
    }

    fn protected_positions(
        coordinates: Coord,
        color: PieceColor,
        board: &Grid,
        move_history: &Vec<MoveRecord>,
    ) -> (positions: Vec<Coord>)
        ensures
            forall|c: Coord| #[trigger] positions@.contains(c) <==> queen_reaches(
                board@,
                color,
                coordinates.row as int,
                coordinates.col as int,
                c.row as int,
                c.col as int,
                true,
            ),
    {
        Self::piece_move(coordinates, color, board, true, move_history)
    }
}

} // verus!
