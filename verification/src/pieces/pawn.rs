//! The pawn: single and double advances, diagonal captures, and en passant
//! derived from the most recent move record.

use vstd::prelude::*;

use crate::board::{cell_at, last_record, valid_coord, Cell, Coord, Grid, MoveRecord};
use crate::pieces::{other_color, Movable, PieceColor, PieceType, Position};
use crate::utils::{apply_move_spec, cleaned_positions, get_piece_color,
    impossible_positions_king_checked, is_cell_color_ally, is_checked, is_enemy_at, is_valid};

verus! {

broadcast use vstd::seq_lib::lemma_seq_contains_after_push;

/// The rank step a pawn of `color` advances by: White moves toward rank 0,
/// Black toward rank 7.
pub open spec fn pawn_dir(color: PieceColor) -> int {
    if color == PieceColor::White {
        -1
    } else {
        1
    }
}

/// The rank on which pawns of `color` start, from which alone the double
/// advance is available.
pub open spec fn pawn_start_row(color: PieceColor) -> int {
    if color == PieceColor::White {
        6
    } else {
        1
    }
}

/// A plain advance: one square forward onto an empty square, or two squares
/// from the start rank when both the crossed and the landing square are empty.
pub open spec fn pawn_forward_reaches(
    b: Seq<Cell>,
    color: PieceColor,
    y: int,
    x: int,
    ty: int,
    tx: int,
) -> bool {
    &&& tx == x
    &&& cell_at(b, ty, tx) is None
    &&& {
        ||| ty == y + pawn_dir(color)
        ||| (y == pawn_start_row(color) && ty == y + pawn_dir(color) + pawn_dir(color)
            && cell_at(b, y + pawn_dir(color), x) is None)
    }
}

/// A diagonal step forward: a capture onto an enemy-held square or, in
/// protection mode, the defended diagonal square regardless of its occupant.
pub open spec fn pawn_diagonal_reaches(
    b: Seq<Cell>,
    color: PieceColor,
    y: int,
    x: int,
    ty: int,
    tx: int,
    protect: bool,
) -> bool {
    &&& ty == y + pawn_dir(color)
    &&& (tx == x + 1 || tx == x - 1)
    &&& (protect || is_enemy_at(b, ty, tx, color))
}

/// En passant, recomputed from the most recent move record alone: the record
/// must show an opposing pawn advancing two squares from its start rank and
/// landing beside this pawn; the capture enters the square that pawn skipped.
pub open spec fn pawn_en_passant_reaches(
    color: PieceColor,
    y: int,
    x: int,
    ty: int,
    tx: int,
    last: Option<MoveRecord>,
) -> bool {
    match last {
        Some(m) => {
            &&& m.moved == Some(PieceType::Pawn)
            &&& m.from.row == pawn_start_row(other_color(color))
            &&& (if color == PieceColor::White {
                m.to.row == m.from.row + 2
            } else {
                m.to.row == m.from.row - 2
            })
            &&& y == m.to.row
            &&& (x == m.to.col + 1 || x == m.to.col - 1)
            &&& ty == m.from.row - pawn_dir(color)
            &&& tx == m.from.col
        },
        None => false,
    }
}

/// Everything a pawn at `(y, x)` reaches: forward advances (legal-move mode
/// only), diagonal steps, and en passant.
pub open spec fn pawn_reaches(
    b: Seq<Cell>,
    color: PieceColor,
    y: int,
    x: int,
    ty: int,
    tx: int,
    protect: bool,
    last: Option<MoveRecord>,
) -> bool {
    &&& valid_coord(y, x)
    &&& valid_coord(ty, tx)
    &&& {
        ||| (!protect && pawn_forward_reaches(b, color, y, x, ty, tx))
        ||| pawn_diagonal_reaches(b, color, y, x, ty, tx, protect)
        ||| pawn_en_passant_reaches(color, y, x, ty, tx, last)
    }
}

pub struct Pawn;

impl Pawn {
    pub fn to_string() -> &'static str {
        "\
        \n\
        \n\
      \u{259f}\u{2588}\u{2599}\n\
      \u{259c}\u{2588}\u{259b}\n\
     \u{259f}\u{2588}\u{2588}\u{2588}\u{2599}\n\
    "
    }
}

impl Movable for Pawn {
    fn piece_move(
        coordinates: Coord,
        color: PieceColor,
        board: &Grid,
        allow_move_on_ally_positions: bool,
        move_history: &Vec<MoveRecord>,
    ) -> (positions: Vec<Coord>)
        ensures
            forall|c: Coord| #[trigger] positions@.contains(c) <==> pawn_reaches(
                board@,
                color,
                coordinates.row as int,
                coordinates.col as int,
                c.row as int,
                c.col as int,
                allow_move_on_ally_positions,
                crate::board::last_record(move_history@),
            ),
    {
        let ghost b = board@;
        let ghost y0 = coordinates.row as int;
        let ghost x0 = coordinates.col as int;
        let ghost last = crate::board::last_record(move_history@);
        let mut positions: Vec<Coord> = Vec::new();
        if !is_valid(coordinates) {
            return positions;
        }
        let y = coordinates.row;
        let x = coordinates.col;
        let direction: i8 = if color == PieceColor::White {
            -1
        } else {
            1
        };

        // one square forward, and from the start rank a second one
        let front_one = Coord::new(y + direction, x);
        if is_valid(front_one) && !allow_move_on_ally_positions && get_piece_color(
            board,
            front_one,
        ).is_none() {
            positions.push(front_one);
            let front_two = Coord::new(y + direction + direction, x);
            if is_valid(front_two) && get_piece_color(board, front_two).is_none() && ((color
                == PieceColor::White && y == 6) || (color == PieceColor::Black && y == 1)) {
                positions.push(front_two);
            }
        }

        // the two diagonal squares forward
        let diag_right = Coord::new(y + direction, x + 1);
        let diag_left = Coord::new(y + direction, x - 1);
        if allow_move_on_ally_positions {
            if is_valid(diag_right) {
                positions.push(diag_right);
            }
            if is_valid(diag_left) {
                positions.push(diag_left);
            }
        } else {
            if is_valid(diag_right) && get_piece_color(board, diag_right).is_some()
                && !is_cell_color_ally(board, diag_right, color) {
                positions.push(diag_right);
            }
            if is_valid(diag_left) && get_piece_color(board, diag_left).is_some()
                && !is_cell_color_ally(board, diag_left, color) {
                positions.push(diag_left);
            }
        }

        // en passant, from the most recent record
        if move_history.len() > 0 {
            let m = move_history[move_history.len() - 1];
            if matches!(m.moved, Some(PieceType::Pawn)) {
                let valid_y_start: i8 = if color == PieceColor::White {
                    1
                } else {
                    6
                };
                let two_step = if color == PieceColor::White {
                    m.to.row == valid_y_start + 2
                } else {
                    m.to.row == valid_y_start - 2
                };
                if m.from.row == valid_y_start && two_step && y == m.to.row && (m.to.col == x + 1
                    || m.to.col == x - 1) {
                    let target = Coord::new(valid_y_start - direction, m.from.col);
                    if is_valid(target) {
                        positions.push(target);
                    }
                }
            }
        }

        proof {
            assert forall|c: Coord| positions@.contains(c) <==> pawn_reaches(
                b,
                color,
                y0,
                x0,
                c.row as int,
                c.col as int,
                allow_move_on_ally_positions,
                last,
            ) by {}
        }
        let r = cleaned_positions(positions);
        proof {
            assert forall|k: int| 0 <= k < r@.len() implies (#[trigger] r@[k]).valid() by {
                assert(r@.contains(r@[k]));
            }
        }
        r
    }
}

impl Position for Pawn {
    fn authorized_positions(
        coordinates: Coord,
        color: PieceColor,
        board: &Grid,
        move_history: &Vec<MoveRecord>,
        is_king_checked: bool,
    ) -> (positions: Vec<Coord>)
        ensures
            forall|c: Coord| #[trigger] positions@.contains(c) <==> pawn_reaches(
                board@,
                color,
                coordinates.row as int,
                coordinates.col as int,
                c.row as int,
                c.col as int,
                false,
                last_record(move_history@),
            ) && !is_checked(
                apply_move_spec(board@, coordinates, c),
                color,
                last_record(move_history@),
            ),
    {
        let raw = Self::piece_move(coordinates, color, board, false, move_history);
        if is_valid(coordinates) {
            impossible_positions_king_checked(coordinates, raw, board, color, move_history)
        } else {
            raw
        }
    }

    fn protected_positions(
        coordinates: Coord,
        color: PieceColor,
        board: &Grid,
        move_history: &Vec<MoveRecord>,
    ) -> (positions: Vec<Coord>)
        ensures
            forall|c: Coord| #[trigger] positions@.contains(c) <==> pawn_reaches(
                board@,
                color,
                coordinates.row as int,
                coordinates.col as int,
                c.row as int,
                c.col as int,
                true,
                last_record(move_history@),
            ),
    {
        Self::piece_move(coordinates, color, board, true, move_history)
    }
}

} // verus!
