//! The coordinate and board model: an 8x8 grid of optional piece occupants,
//! plus the record of moves played so far.

use vstd::prelude::*;

use crate::pieces::{authorized_reaches, PieceColor, PieceType};

verus! {

/// A cell is either empty or occupied by exactly one piece of one color.
pub type Cell = Option<(PieceType, PieceColor)>;

/// True iff both components lie on the board, in `[0, 7]`.
pub open spec fn valid_coord(row: int, col: int) -> bool {
    0 <= row < 8 && 0 <= col < 8
}

/// A board coordinate: `row` is the rank (0 = Black's back row) and `col` the file.
/// The derived order is lexicographic by `(row, col)`, the order of `coord_lt`.
#[derive(Clone, Copy, PartialEq, Eq, Structural, Debug, PartialOrd, Ord)]
pub struct Coord {
    pub row: i8,
    pub col: i8,
}

impl Coord {
    /// True iff the coordinate lies on the board.
    pub open spec fn valid(self) -> bool {
        valid_coord(self.row as int, self.col as int)
    }

    pub fn new(row: i8, col: i8) -> (c: Coord)
        ensures
            c.row == row,
            c.col == col,
    {
        Coord { row, col }
    }
}

/// Strict lexicographic order on coordinates, by `(row, col)`.
pub open spec fn coord_lt(a: Coord, b: Coord) -> bool {
    a.row < b.row || (a.row == b.row && a.col < b.col)
}

/// A position list in strictly increasing lexicographic order; such a list
/// holds no duplicates and is the unique ordered listing of its set of members.
pub open spec fn sorted_distinct(s: Seq<Coord>) -> bool {
    forall|i: int, j: int| 0 <= i < j < s.len() ==> #[trigger] coord_lt(s[i], s[j])
}

/// Two strictly ordered position lists with the same members are the same
/// list: the `(row, col)` order admits exactly one listing of any set of
/// coordinates.
pub proof fn lemma_sorted_distinct_unique(s1: Seq<Coord>, s2: Seq<Coord>)
    requires
        sorted_distinct(s1),
        sorted_distinct(s2),
        forall|c: Coord| s1.contains(c) <==> s2.contains(c),
    ensures
        s1 == s2,
    decreases s1.len(),
{
    if s1.len() == 0 {
        if s2.len() > 0 {
            assert(s2.contains(s2[0]));
            assert(s1.contains(s2[0]));
        }
        assert(s1 =~= s2);
    } else {
        assert(s1.contains(s1[0]));
        assert(s2.contains(s1[0]));
        let j = choose|j: int| 0 <= j < s2.len() && s2[j] == s1[0];
        assert(s2.contains(s2[0]));
        assert(s1.contains(s2[0]));
        let i = choose|i: int| 0 <= i < s1.len() && s1[i] == s2[0];
        if i > 0 && j > 0 {
            assert(coord_lt(s1[0], s1[i]));
            assert(coord_lt(s2[0], s2[j]));
            assert(false);
        }
        assert(s1[0] == s2[0]);
        let t1 = s1.subrange(1, s1.len() as int);
        let t2 = s2.subrange(1, s2.len() as int);
        assert(sorted_distinct(t1)) by {
            assert forall|k1: int, k2: int| 0 <= k1 < k2 < t1.len()
                implies #[trigger] coord_lt(t1[k1], t1[k2]) by {
                assert(coord_lt(s1[k1 + 1], s1[k2 + 1]));
            }
        }
        assert(sorted_distinct(t2)) by {
            assert forall|k1: int, k2: int| 0 <= k1 < k2 < t2.len()
                implies #[trigger] coord_lt(t2[k1], t2[k2]) by {
                assert(coord_lt(s2[k1 + 1], s2[k2 + 1]));
            }
        }
        assert forall|c: Coord| t1.contains(c) implies t2.contains(c) by {
            let k = choose|k: int| 0 <= k < t1.len() && t1[k] == c;
            assert(s1[k + 1] == c);
            assert(s1.contains(c));
            assert(s2.contains(c));
            let m = choose|m: int| 0 <= m < s2.len() && s2[m] == c;
            assert(coord_lt(s1[0], s1[k + 1]));
            if m == 0 {
                assert(false);
            }
            assert(t2[m - 1] == c);
            assert(t2.contains(c));
        }
        assert forall|c: Coord| t2.contains(c) implies t1.contains(c) by {
            let k = choose|k: int| 0 <= k < t2.len() && t2[k] == c;
            assert(s2[k + 1] == c);
            assert(s2.contains(c));
            assert(s1.contains(c));
            let m = choose|m: int| 0 <= m < s1.len() && s1[m] == c;
            assert(coord_lt(s2[0], s2[k + 1]));
            if m == 0 {
                assert(false);
            }
            assert(t1[m - 1] == c);
            assert(t1.contains(c));
        }
        lemma_sorted_distinct_unique(t1, t2);
        assert forall|k: int| 0 <= k < s1.len() implies s1[k] == s2[k] by {
            if k > 0 {
                assert(s1[k] == t1[k - 1]);
                assert(s2[k] == t2[k - 1]);
            }
        }
        assert(s1 =~= s2);
    }
}

/// The 8x8 grid of cells, stored rank-major as a flat vector of 64 cells;
/// the cell at `(row, col)` sits at index `row * 8 + col`.
#[verifier::ext_equal]
pub struct Grid {
    pub cells: Vec<Cell>,
}

impl View for Grid {
    type V = Seq<Cell>;

    open spec fn view(&self) -> Seq<Cell> {
        self.cells@
    }
}

/// The cell of board view `b` at `(row, col)`.
pub open spec fn cell_at(b: Seq<Cell>, row: int, col: int) -> Cell {
    b[row * 8 + col]
}

impl Grid {
    /// A grid is well formed when it holds exactly 64 cells.
    pub open spec fn wf(self) -> bool {
        self@.len() == 64
    }

    /// The occupant of the cell at `c`; callers must have checked validity.
    pub fn get(&self, c: Coord) -> (r: Cell)
        requires
            self.wf(),
            c.valid(),
        ensures
            r == cell_at(self@, c.row as int, c.col as int),
    {
        self.cells[(c.row as usize) * 8 + (c.col as usize)]
    }

    /// Replaces the cell at `c` with `v`, leaving every other cell unchanged.
    pub fn set(&mut self, c: Coord, v: Cell)
        requires
            old(self).wf(),
            c.valid(),
        ensures
            final(self).wf(),
            final(self)@ == old(self)@.update(c.row as int * 8 + c.col as int, v),
    {
        self.cells[(c.row as usize) * 8 + (c.col as usize)] = v;
    }

    /// A grid holding the same cells, sharing no storage with this one.
    pub fn duplicate(&self) -> (g: Grid)
        requires
            self.wf(),
        ensures
            g.wf(),
            g@ == self@,
    {
        let mut cells: Vec<Cell> = Vec::new();
        let mut i: usize = 0;
        while i < self.cells.len()
            invariant
                i <= self.cells.len(),
                cells@ =~= self.cells@.subrange(0, i as int),
            decreases self.cells.len() - i,
        {
            cells.push(self.cells[i]);
            i = i + 1;
        }
        proof {
            assert(cells@ =~= self.cells@);
        }
        Grid { cells }
    }

    /// Builds a grid from a rank-major array of rows, as test positions are written.
    pub fn from_array(a: [[Cell; 8]; 8]) -> (g: Grid)
        ensures
            g.wf(),
            forall|r: int, c: int|
                valid_coord(r, c) ==> #[trigger] cell_at(g@, r, c) == a@[r]@[c],
    {
        let mut cells: Vec<Cell> = Vec::new();
        let mut r: usize = 0;
        while r < 8
            invariant
                r <= 8,
                cells@.len() == r * 8,
                forall|rr: int, cc: int|
                    0 <= rr < r && 0 <= cc < 8 ==> cells@[rr * 8 + cc] == a@[rr]@[cc],
            decreases 8 - r,
        {
            let row = a[r];
            let mut c: usize = 0;
            while c < 8
                invariant
                    r < 8,
                    c <= 8,
                    row == a@[r as int],
                    cells@.len() == r * 8 + c,
                    forall|rr: int, cc: int|
                        0 <= rr < r && 0 <= cc < 8 ==> cells@[rr * 8 + cc] == a@[rr]@[cc],
                    forall|cc: int| 0 <= cc < c ==> cells@[r * 8 + cc] == a@[r as int]@[cc],
                decreases 8 - c,
            {
                cells.push(row[c]);
                c = c + 1;
            }
            r = r + 1;
        }
        Grid { cells }
    }
}

/// One ply of play: which piece moved from where to where, and what it captured.
/// En-passant eligibility is recomputed from the most recent record alone; it is
/// never persisted as board state.
#[derive(Clone, Copy, Debug)]
pub struct MoveRecord {
    /// The kind of the piece that made the move.
    pub moved: Option<PieceType>,
    /// The kind of the piece the move captured, if any.
    pub captured: Option<PieceType>,
    /// The square the piece left.
    pub from: Coord,
    /// The square the piece landed on.
    pub to: Coord,
}

/// The most recent record of a move history, if any move was played.
pub open spec fn last_record(h: Seq<MoveRecord>) -> Option<MoveRecord> {
    if h.len() > 0 {
        Some(h[h.len() - 1])
    } else {
        None
    }
}

/// The piece kind on `col` of a back rank in the standard initial layout.
pub open spec fn back_rank_kind(col: int) -> PieceType {
    if col == 0 || col == 7 {
        PieceType::Rook
    } else if col == 1 || col == 6 {
        PieceType::Knight
    } else if col == 2 || col == 5 {
        PieceType::Bishop
    } else if col == 3 {
        PieceType::Queen
    } else {
        PieceType::King
    }
}

/// The standard initial layout, cell by flat index: Black's back rank on
/// rank 0, its pawns on rank 1, White's pawns on rank 6 and back rank on
/// rank 7.
pub open spec fn initial_cell(i: int) -> Cell {
    let r = i / 8;
    let c = i % 8;
    if r == 0 {
        Some((back_rank_kind(c), PieceColor::Black))
    } else if r == 1 {
        Some((PieceType::Pawn, PieceColor::Black))
    } else if r == 6 {
        Some((PieceType::Pawn, PieceColor::White))
    } else if r == 7 {
        Some((back_rank_kind(c), PieceColor::White))
    } else {
        None
    }
}

/// The cell at flat index `i` of the standard initial layout.
fn initial_cell_at(i: usize) -> (r: Cell)
    requires
        i < 64,
    ensures
        r == initial_cell(i as int),
{
    let row = i / 8;
    let col = i % 8;
    let kind = if col == 0 || col == 7 {
        PieceType::Rook
    } else if col == 1 || col == 6 {
        PieceType::Knight
    } else if col == 2 || col == 5 {
        PieceType::Bishop
    } else if col == 3 {
        PieceType::Queen
    } else {
        PieceType::King
    };
    if row == 0 {
        Some((kind, PieceColor::Black))
    } else if row == 1 {
        Some((PieceType::Pawn, PieceColor::Black))
    } else if row == 6 {
        Some((PieceType::Pawn, PieceColor::White))
    } else if row == 7 {
        Some((kind, PieceColor::White))
    } else {
        None
    }
}

/// The game state the presentation layer works against: the grid, the side to
/// move, the history the engine derives en passant from, and the cursor and
/// selection the interface tracks.
pub struct Board {
    pub board: Grid,
    pub cursor_y: i8,
    pub cursor_x: i8,
    pub selected_coordinates: Option<Coord>,
    pub player_turn: PieceColor,
    pub moves_history: Vec<MoveRecord>,
}

impl Board {
    /// The grid holds its 64 cells, and cursor and selection stay on the board.
    pub open spec fn wf(self) -> bool {
        &&& self.board.wf()
        &&& 0 <= self.cursor_y < 8
        &&& 0 <= self.cursor_x < 8
        &&& match self.selected_coordinates {
            Some(c) => c.valid(),
            None => true,
        }
    }

    /// A game from an explicit position: the given grid, side to move, and
    /// history, with the cursor centered and nothing selected.
    pub fn new(board: [[Cell; 8]; 8], player_turn: PieceColor, moves_history: Vec<MoveRecord>) -> (b:
        Board)
        ensures
            b.wf(),
            forall|r: int, c: int|
                valid_coord(r, c) ==> #[trigger] cell_at(b.board@, r, c) == board@[r]@[c],
            b.player_turn == player_turn,
            b.moves_history == moves_history,
            b.cursor_y == 4,
            b.cursor_x == 4,
            b.selected_coordinates is None,
    {
        Board {
            board: Grid::from_array(board),
            cursor_y: 4,
            cursor_x: 4,
            selected_coordinates: None,
            player_turn,
            moves_history,
        }
    }

    /// Replaces the position, leaving turn, history, cursor and selection as
    /// they are.
    pub fn set_board(&mut self, cells: [[Cell; 8]; 8])
        requires
            old(self).wf(),
        ensures
            final(self).wf(),
            forall|r: int, c: int|
                valid_coord(r, c) ==> #[trigger] cell_at(final(self).board@, r, c) == cells@[r]@[c],
            final(self).cursor_y == old(self).cursor_y,
            final(self).cursor_x == old(self).cursor_x,
            final(self).selected_coordinates == old(self).selected_coordinates,
            final(self).player_turn == old(self).player_turn,
            final(self).moves_history == old(self).moves_history,
    {
        self.board = Grid::from_array(cells);
    }

    /// The kind of the piece at `coordinates`, or `None` for an empty cell.
    pub fn get_piece_type(&self, coordinates: Coord) -> (r: Option<PieceType>)
        requires
            self.wf(),
            coordinates.valid(),
        ensures
            r == match cell_at(self.board@, coordinates.row as int, coordinates.col as int) {
                Some(p) => Some(p.0),
                None => None,
            },
    {
        crate::utils::get_piece_type(&self.board, coordinates)
    }

    /// The color of the piece at `coordinates`, or `None` for an empty cell.
    pub fn get_piece_color(&self, coordinates: Coord) -> (r: Option<PieceColor>)
        requires
            self.wf(),
            coordinates.valid(),
        ensures
            r == crate::utils::color_of(
                cell_at(self.board@, coordinates.row as int, coordinates.col as int),
            ),
    {
        crate::utils::get_piece_color(&self.board, coordinates)
    }

    /// Legal destinations of the selected piece, taken as a `piece_type` of
    /// `piece_color`; with nothing selected the result is empty.
    pub fn authorized_positions_enum(&self, piece_type: PieceType, piece_color: PieceColor) -> (r:
        Vec<Coord>)
        requires
            self.wf(),
        ensures
            match self.selected_coordinates {
                Some(sel) => sorted_distinct(r@) && forall|c: Coord|
                    #[trigger] r@.contains(c) <==> authorized_reaches(
                        piece_type,
                        self.board@,
                        piece_color,
                        sel,
                        c,
                        last_record(self.moves_history@),
                    ),
                None => r@.len() == 0,
            },
    {
        match self.selected_coordinates {
            Some(sel) => {
                let checked = crate::utils::is_getting_checked(
                    &self.board,
                    piece_color,
                    &self.moves_history,
                );
                piece_type.authorized_positions(
                    sel,
                    piece_color,
                    &self.board,
                    &self.moves_history,
                    checked,
                )
            },
            None => Vec::new(),
        }
    }

    /// True iff a cell is currently selected.
    fn is_cell_selected(&self) -> (r: bool)
        ensures
            r == (self.selected_coordinates is Some),
    {
        self.selected_coordinates.is_some()
    }

    /// Moves the cursor one rank up, unless it sits on the edge or a cell is
    /// selected.
    pub fn cursor_up(&mut self)
        requires
            old(self).wf(),
        ensures
            final(self).wf(),
            final(self).cursor_y == if old(self).cursor_y > 0 && old(
                self,
            ).selected_coordinates is None {
                old(self).cursor_y - 1
            } else {
                old(self).cursor_y as int
            },
            final(self).cursor_x == old(self).cursor_x,
            final(self).board == old(self).board,
            final(self).selected_coordinates == old(self).selected_coordinates,
            final(self).player_turn == old(self).player_turn,
            final(self).moves_history == old(self).moves_history,
    {
        if self.cursor_y > 0 && !self.is_cell_selected() {
            self.cursor_y = self.cursor_y - 1;
        }
    }

    /// Moves the cursor one rank down, unless it sits on the edge or a cell is
    /// selected.
    pub fn cursor_down(&mut self)
        requires
            old(self).wf(),
        ensures
            final(self).wf(),
            final(self).cursor_y == if old(self).cursor_y < 7 && old(
                self,
            ).selected_coordinates is None {
                old(self).cursor_y + 1
            } else {
                old(self).cursor_y as int
            },
            final(self).cursor_x == old(self).cursor_x,
            final(self).board == old(self).board,
            final(self).selected_coordinates == old(self).selected_coordinates,
            final(self).player_turn == old(self).player_turn,
            final(self).moves_history == old(self).moves_history,
    {
        if self.cursor_y < 7 && !self.is_cell_selected() {
            self.cursor_y = self.cursor_y + 1;
        }
    }

    /// Moves the cursor one file left, unless it sits on the edge or a cell is
    /// selected.
    pub fn cursor_left(&mut self)
        requires
            old(self).wf(),
        ensures
            final(self).wf(),
            final(self).cursor_x == if old(self).cursor_x > 0 && old(
                self,
            ).selected_coordinates is None {
                old(self).cursor_x - 1
            } else {
                old(self).cursor_x as int
            },
            final(self).cursor_y == old(self).cursor_y,
            final(self).board == old(self).board,
            final(self).selected_coordinates == old(self).selected_coordinates,
            final(self).player_turn == old(self).player_turn,
            final(self).moves_history == old(self).moves_history,
    {
        if self.cursor_x > 0 && !self.is_cell_selected() {
            self.cursor_x = self.cursor_x - 1;
        }
    }

    /// Moves the cursor one file right, unless it sits on the edge or a cell
    /// is selected.
    pub fn cursor_right(&mut self)
        requires
            old(self).wf(),
        ensures
            final(self).wf(),
            final(self).cursor_x == if old(self).cursor_x < 7 && old(
                self,
            ).selected_coordinates is None {
                old(self).cursor_x + 1
            } else {
                old(self).cursor_x as int
            },
            final(self).cursor_y == old(self).cursor_y,
            final(self).board == old(self).board,
            final(self).selected_coordinates == old(self).selected_coordinates,
            final(self).player_turn == old(self).player_turn,
            final(self).moves_history == old(self).moves_history,
    {
        if self.cursor_x < 7 && !self.is_cell_selected() {
            self.cursor_x = self.cursor_x + 1;
        }
    }

    /// Selects the cell under the cursor, when nothing is selected yet and the
    /// cell is occupied.
    pub fn select_cell(&mut self)
        requires
            old(self).wf(),
        ensures
            final(self).wf(),
            final(self).selected_coordinates == if old(self).selected_coordinates is None
                && cell_at(
                old(self).board@,
                old(self).cursor_y as int,
                old(self).cursor_x as int,
            ) is Some {
                Some(Coord { row: old(self).cursor_y, col: old(self).cursor_x })
            } else {
                old(self).selected_coordinates
            },
            final(self).cursor_y == old(self).cursor_y,
            final(self).cursor_x == old(self).cursor_x,
            final(self).board == old(self).board,
            final(self).player_turn == old(self).player_turn,
            final(self).moves_history == old(self).moves_history,
    {
        if !self.is_cell_selected() {
            let here = Coord { row: self.cursor_y, col: self.cursor_x };
            if self.board.get(here).is_some() {
                self.selected_coordinates = Some(here);
            }
        }
    }

    /// Clears the selection.
    pub fn unselect_cell(&mut self)
        requires
            old(self).wf(),
        ensures
            final(self).wf(),
            final(self).selected_coordinates is None,
            final(self).cursor_y == old(self).cursor_y,
            final(self).cursor_x == old(self).cursor_x,
            final(self).board == old(self).board,
            final(self).player_turn == old(self).player_turn,
            final(self).moves_history == old(self).moves_history,
    {
        self.selected_coordinates = None;
    }
}

impl Default for Board {
    /// A game from the standard initial layout, White to move, the cursor
    /// centered and nothing selected.
    fn default() -> (b: Board)
        ensures
            b.wf(),
            forall|i: int| 0 <= i < 64 ==> b.board@[i] == initial_cell(i),
            b.cursor_y == 4,
            b.cursor_x == 4,
            b.selected_coordinates is None,
            b.player_turn == PieceColor::White,
            b.moves_history@.len() == 0,
    {
        let mut cells: Vec<Cell> = Vec::new();
        let mut i: usize = 0;
        while i < 64
            invariant
                i <= 64,
                cells@.len() == i,
                forall|k: int| 0 <= k < i ==> cells@[k] == initial_cell(k),
            decreases 64 - i,
        {
            cells.push(initial_cell_at(i));
            i = i + 1;
        }
        Board {
            board: Grid { cells },
            cursor_y: 4,
            cursor_x: 4,
            selected_coordinates: None,
            player_turn: PieceColor::White,
            moves_history: Vec::new(),
        }
    }
}

} // verus!
