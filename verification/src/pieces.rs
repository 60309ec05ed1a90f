//! Piece kinds, colors, and the two capabilities every piece implements:
//! raw candidate generation (`Movable`) and legality-filtered / protection
//! views (`Position`).

use vstd::prelude::*;

pub mod bishop;
pub mod king;
pub mod knight;
pub mod pawn;
pub mod queen;
pub mod rook;

pub use self::bishop::Bishop;
pub use self::king::King;
pub use self::knight::Knight;
pub use self::pawn::Pawn;
pub use self::queen::Queen;
pub use self::rook::Rook;

use crate::board::{last_record, sorted_distinct, Cell, Coord, Grid, MoveRecord};

verus! {

/// The closed set of piece kinds; dispatch over it is exhaustive.
#[derive(Clone, Copy, PartialEq, Eq, Structural, Debug)]
pub enum PieceType {
    Pawn,
    Rook,
    Bishop,
    Queen,
    King,
    Knight,
}

/// The two sides; there is no "none" color.
#[derive(Clone, Copy, PartialEq, Eq, Structural, Debug)]
pub enum PieceColor {
    Black,
    White,
}

/// The opposing side of `c`.
pub open spec fn other_color(c: PieceColor) -> PieceColor {
    match c {
        PieceColor::Black => PieceColor::White,
        PieceColor::White => PieceColor::Black,
    }
}

impl PieceColor {
    /// The opposing side.
    pub fn opposite(self) -> (r: PieceColor)
        ensures
            r == other_color(self),
    {
        match self {
            PieceColor::Black => PieceColor::White,
            PieceColor::White => PieceColor::Black,
        }
    }
}

/// What a piece of `kind` and `color` standing at `(y, x)` on board `b`
/// reaches, dispatched over the closed set of kinds.
pub open spec fn piece_reaches(
    kind: PieceType,
    b: Seq<Cell>,
    color: PieceColor,
    y: int,
    x: int,
    ty: int,
    tx: int,
    protect: bool,
    last: Option<MoveRecord>,
) -> bool {
    match kind {
        PieceType::Pawn => pawn::pawn_reaches(b, color, y, x, ty, tx, protect, last),
        PieceType::Rook => rook::rook_reaches(b, color, y, x, ty, tx, protect),
        PieceType::Bishop => bishop::bishop_reaches(b, color, y, x, ty, tx, protect),
        PieceType::Queen => queen::queen_reaches(b, color, y, x, ty, tx, protect),
        PieceType::King => king::king_reaches(b, color, y, x, ty, tx, protect),
        PieceType::Knight => knight::knight_reaches(b, color, y, x, ty, tx, protect),
    }
}

/// A legal move: the piece's raw reach in legal-move mode, filtered by the one
/// rule that cuts across every kind: the move, once applied to the board, must
/// not leave the mover's own king in check.  Pins and forced check resolution
/// both fall out of this single condition.
pub open spec fn authorized_reaches(
    kind: PieceType,
    b: Seq<Cell>,
    color: PieceColor,
    from: Coord,
    to: Coord,
    last: Option<MoveRecord>,
) -> bool {
    &&& piece_reaches(
        kind,
        b,
        color,
        from.row as int,
        from.col as int,
        to.row as int,
        to.col as int,
        false,
        last,
    )
    &&& !crate::utils::is_checked(crate::utils::apply_move_spec(b, from, to), color, last)
}

/// Law: every authorized destination lies on the board.  Whatever the piece
/// kind, the board, and the history, a move the engine authorizes ends on a
/// valid coordinate.
pub proof fn lemma_authorized_reaches_valid(
    kind: PieceType,
    b: Seq<Cell>,
    color: PieceColor,
    from: Coord,
    to: Coord,
    last: Option<MoveRecord>,
)
    requires
        authorized_reaches(kind, b, color, from, to, last),
    ensures
        to.valid(),
{
}

/// Law: legal-move generation is a pure function of its inputs.  Any two
/// position lists meeting the contract of `authorized_positions` for the same
/// piece kind, board, origin, and history are identical, element for element
/// and in order; so two calls on the same inputs yield the same list.
pub proof fn lemma_authorized_positions_deterministic(
    kind: PieceType,
    b: Seq<Cell>,
    color: PieceColor,
    from: Coord,
    last: Option<MoveRecord>,
    r1: Seq<Coord>,
    r2: Seq<Coord>,
)
    requires
        sorted_distinct(r1),
        sorted_distinct(r2),
        forall|c: Coord| #[trigger] r1.contains(c) <==> authorized_reaches(
            kind,
            b,
            color,
            from,
            c,
            last,
        ),
        forall|c: Coord| #[trigger] r2.contains(c) <==> authorized_reaches(
            kind,
            b,
            color,
            from,
            c,
            last,
        ),
    ensures
        r1 == r2,
{
    crate::board::lemma_sorted_distinct_unique(r1, r2);
}

impl PieceType {
    /// Legal destinations for the piece of kind `self` and color `color`
    /// standing at `coordinates`: its raw candidates, minus every move that
    /// would leave `color`'s own king in check.
    pub fn authorized_positions(
        self,
        coordinates: Coord,
        color: PieceColor,
        board: &Grid,
        move_history: &Vec<MoveRecord>,
        is_king_checked: bool,
    ) -> (positions: Vec<Coord>)
        requires
            board.wf(),
        ensures
            sorted_distinct(positions@),
            forall|k: int| 0 <= k < positions@.len() ==> (#[trigger] positions@[k]).valid(),
            forall|c: Coord| #[trigger] positions@.contains(c) <==> authorized_reaches(
                self,
                board@,
                color,
                coordinates,
                c,
                last_record(move_history@),
            ),
    {
        match self {
            PieceType::Pawn => Pawn::authorized_positions(
                coordinates,
                color,
                board,
                move_history,
                is_king_checked,
            ),
            PieceType::Rook => Rook::authorized_positions(
                coordinates,
                color,
                board,
                move_history,
                is_king_checked,
            ),
            PieceType::Bishop => Bishop::authorized_positions(
                coordinates,
                color,
                board,
                move_history,
                is_king_checked,
            ),
            PieceType::Queen => Queen::authorized_positions(
                coordinates,
                color,
                board,
                move_history,
                is_king_checked,
            ),
            PieceType::King => King::authorized_positions(
                coordinates,
                color,
                board,
                move_history,
                is_king_checked,
            ),
            PieceType::Knight => Knight::authorized_positions(
                coordinates,
                color,
                board,
                move_history,
                is_king_checked,
            ),
        }
    }

    /// The attack/defense view of the piece of kind `piece_type` and color
    /// `color` at `selected_coordinates`: every square it covers, ally-held
    /// squares included.  Consumed by check detection, never returned as a
    /// legal-move result.
    pub fn protected_positions(
        selected_coordinates: Coord,
        piece_type: PieceType,
        color: PieceColor,
        board: &Grid,
        move_history: &Vec<MoveRecord>,
    ) -> (positions: Vec<Coord>)
        requires
            board.wf(),
        ensures
            sorted_distinct(positions@),
            forall|k: int| 0 <= k < positions@.len() ==> (#[trigger] positions@[k]).valid(),
            forall|c: Coord| #[trigger] positions@.contains(c) <==> piece_reaches(
                piece_type,
                board@,
                color,
                selected_coordinates.row as int,
                selected_coordinates.col as int,
                c.row as int,
                c.col as int,
                true,
                last_record(move_history@),
            ),
    {
        match piece_type {
            PieceType::Pawn => Pawn::protected_positions(
                selected_coordinates,
                color,
                board,
                move_history,
            ),
            PieceType::Rook => Rook::protected_positions(
                selected_coordinates,
                color,
                board,
                move_history,
            ),
            PieceType::Bishop => Bishop::protected_positions(
                selected_coordinates,
                color,
                board,
                move_history,
            ),
            PieceType::Queen => Queen::protected_positions(
                selected_coordinates,
                color,
                board,
                move_history,
            ),
            PieceType::King => King::protected_positions(
                selected_coordinates,
                color,
                board,
                move_history,
            ),
            PieceType::Knight => Knight::protected_positions(
                selected_coordinates,
                color,
                board,
                move_history,
            ),
        }
    }
}

/// Raw candidate generation: the destinations a piece of this kind could reach,
/// with `allow_move_on_ally_positions` selecting between legal-move targets and
/// the squares the piece defends (the protection view used by check detection).
pub trait Movable {
    fn piece_move(
        coordinates: Coord,
        color: PieceColor,
        board: &Grid,
        allow_move_on_ally_positions: bool,
        move_history: &Vec<MoveRecord>,
    ) -> (positions: Vec<Coord>)
        requires
            board.wf(),
        ensures
            sorted_distinct(positions@),
            forall|k: int| 0 <= k < positions@.len() ==> (#[trigger] positions@[k]).valid(),
    ;
}

/// The two exposed views of a piece's reach: `authorized_positions` filters the
/// raw candidates down to moves that leave the mover's own king safe, and
/// `protected_positions` is the ally-inclusive attack/defense view.
pub trait Position {
    fn authorized_positions(
        coordinates: Coord,
        color: PieceColor,
        board: &Grid,
        move_history: &Vec<MoveRecord>,
        is_king_checked: bool,
    ) -> (positions: Vec<Coord>)
        requires
            board.wf(),
        ensures
            sorted_distinct(positions@),
            forall|k: int| 0 <= k < positions@.len() ==> (#[trigger] positions@[k]).valid(),
    ;

    fn protected_positions(
        coordinates: Coord,
        color: PieceColor,
        board: &Grid,
        move_history: &Vec<MoveRecord>,
    ) -> (positions: Vec<Coord>)
        requires
            board.wf(),
        ensures
            sorted_distinct(positions@),
            forall|k: int| 0 <= k < positions@.len() ==> (#[trigger] positions@[k]).valid(),
    ;
}

} // verus!
