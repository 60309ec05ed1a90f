//! The shared movement model: what a ray or a jump can reach on a given board,
//! and the helpers every generator uses (validity checks, occupancy tests, and
//! the de-duplicating order pass applied to every candidate list).

use vstd::prelude::*;

use crate::board::{cell_at, coord_lt, last_record, sorted_distinct, valid_coord, Cell, Coord, Grid,
    MoveRecord};
use crate::pieces::{other_color, piece_reaches, PieceColor, PieceType};

verus! {

broadcast use vstd::seq_lib::lemma_seq_contains_after_push;

/// The color of a cell's occupant, or `None` for an empty cell.
pub open spec fn color_of(cell: Cell) -> Option<PieceColor> {
    match cell {
        Some(p) => Some(p.1),
        None => None,
    }
}

/// True iff the cell at `(row, col)` holds a piece of `color`.
pub open spec fn is_ally_at(b: Seq<Cell>, row: int, col: int, color: PieceColor) -> bool {
    color_of(cell_at(b, row, col)) == Some(color)
}

/// True iff the cell at `(row, col)` holds a piece of the color opposing `color`.
pub open spec fn is_enemy_at(b: Seq<Cell>, row: int, col: int, color: PieceColor) -> bool {
    color_of(cell_at(b, row, col)) == Some(other_color(color))
}

/// True iff a ray owned by `color` may pass over `(row, col)` and continue.
/// Empty squares always pass.  In protection mode the opposing king also
/// passes: a piece "sees through" the enemy king, so that squares behind the
/// king still count as attacked when deciding where that king may flee.
pub open spec fn sees_through(
    b: Seq<Cell>,
    row: int,
    col: int,
    color: PieceColor,
    protect: bool,
) -> bool {
    cell_at(b, row, col) is None
    || (protect && cell_at(b, row, col) == Some((PieceType::King, other_color(color))))
}

/// True iff a ray or jump owned by `color` may end on `(row, col)`: any square
/// in protection mode, otherwise any square not held by an ally.
pub open spec fn target_ok(
    b: Seq<Cell>,
    row: int,
    col: int,
    color: PieceColor,
    protect: bool,
) -> bool {
    protect || !is_ally_at(b, row, col, color)
}

/// How many unit steps of direction component `d` lead from `a` to `ta`
/// (meaningful only when the other conjuncts of `dir_hits` hold).
pub open spec fn axis_steps(a: int, d: int, ta: int) -> int {
    if d == 1 {
        ta - a
    } else if d == -1 {
        a - ta
    } else {
        0
    }
}

/// The number of steps of `(dy, dx)` from `(y, x)` to `(ty, tx)`, read off
/// whichever axis the direction moves along.
pub open spec fn dir_steps(y: int, x: int, dy: int, dx: int, ty: int, tx: int) -> int {
    if dy != 0 {
        axis_steps(y, dy, ty)
    } else {
        axis_steps(x, dx, tx)
    }
}

/// True iff `(ty, tx)` is reached from `(y, x)` by one or more steps of the
/// unit direction `(dy, dx)`.
pub open spec fn dir_hits(y: int, x: int, dy: int, dx: int, ty: int, tx: int) -> bool {
    &&& dir_steps(y, x, dy, dx, ty, tx) >= 1
    &&& (dy == 0 ==> ty == y)
    &&& (dx == 0 ==> tx == x)
    &&& (dy != 0 ==> axis_steps(y, dy, ty) == dir_steps(y, x, dy, dx, ty, tx))
    &&& (dx != 0 ==> axis_steps(x, dx, tx) == dir_steps(y, x, dy, dx, ty, tx))
}

/// True iff a ray of `color` starting at `(y, x)` and walking direction
/// `(dy, dx)` reaches `(ty, tx)`: the target is on the board, every square
/// strictly between start and target lets the ray pass, and the target square
/// itself may be entered.
pub open spec fn dir_reaches(
    b: Seq<Cell>,
    color: PieceColor,
    y: int,
    x: int,
    dy: int,
    dx: int,
    ty: int,
    tx: int,
    protect: bool,
) -> bool {
    &&& valid_coord(ty, tx)
    &&& dir_hits(y, x, dy, dx, ty, tx)
    &&& (forall|r: int, c: int|
        #[trigger] dir_hits(y, x, dy, dx, r, c) && dir_hits(r, c, dy, dx, ty, tx)
            ==> sees_through(b, r, c, color, protect))
    &&& target_ok(b, ty, tx, color, protect)
}

/// True iff a single jump of offset `(dy, dx)` from `(y, x)` may land on
/// `(ty, tx)`: exactly that offset, on the board, and the landing square may
/// be entered.
pub open spec fn jump_reaches(
    b: Seq<Cell>,
    color: PieceColor,
    y: int,
    x: int,
    dy: int,
    dx: int,
    ty: int,
    tx: int,
    protect: bool,
) -> bool {
    &&& ty == y + dy
    &&& tx == x + dx
    &&& valid_coord(ty, tx)
    &&& target_ok(b, ty, tx, color, protect)
}

/// True iff both components of `coordinates` lie in `[0, 7]`.
pub fn is_valid(coordinates: Coord) -> (r: bool)
    ensures
        r == coordinates.valid(),
{
    coordinates.row >= 0 && coordinates.row <= 7 && coordinates.col >= 0 && coordinates.col <= 7
}

/// The color of the occupant at `coordinates`, or `None` for an empty cell.
pub fn get_piece_color(board: &Grid, coordinates: Coord) -> (r: Option<PieceColor>)
    requires
        board.wf(),
        coordinates.valid(),
    ensures
        r == color_of(cell_at(board@, coordinates.row as int, coordinates.col as int)),
{
    match board.get(coordinates) {
        Some((_, c)) => Some(c),
        None => None,
    }
}

/// The kind of the occupant at `coordinates`, or `None` for an empty cell.
pub fn get_piece_type(board: &Grid, coordinates: Coord) -> (r: Option<PieceType>)
    requires
        board.wf(),
        coordinates.valid(),
    ensures
        r == match cell_at(board@, coordinates.row as int, coordinates.col as int) {
            Some(p) => Some(p.0),
            None => None,
        },
{
    match board.get(coordinates) {
        Some((t, _)) => Some(t),
        None => None,
    }
}

/// True iff the cell at `coordinates` holds a piece of `color`.
pub fn is_cell_color_ally(board: &Grid, coordinates: Coord, color: PieceColor) -> (r: bool)
    requires
        board.wf(),
        coordinates.valid(),
    ensures
        r == is_ally_at(board@, coordinates.row as int, coordinates.col as int, color),
{
    match get_piece_color(board, coordinates) {
        Some(c) => c == color,
        None => false,
    }
}

/// True iff `piece` is the king of the color opposing `color`.
pub fn is_piece_opposite_king(piece: Cell, color: PieceColor) -> (r: bool)
    ensures
        r == (piece == Some((PieceType::King, other_color(color)))),
{
    match piece {
        Some((PieceType::King, c)) => c == color.opposite(),
        _ => false,
    }
}

/// Exec comparison realizing the lexicographic `coord_lt` order.
pub fn coord_less(a: Coord, b: Coord) -> (r: bool)
    ensures
        r == coord_lt(a, b),
{
    a.row < b.row || (a.row == b.row && a.col < b.col)
}

/// The de-duplication and ordering pass applied to every generated candidate
/// list: the result holds exactly the members of `positions`, each once, in
/// strictly increasing `(row, col)` order.
pub fn cleaned_positions(positions: Vec<Coord>) -> (r: Vec<Coord>)
    ensures
        sorted_distinct(r@),
        forall|c: Coord| #[trigger] r@.contains(c) <==> positions@.contains(c),
{
    let mut res: Vec<Coord> = Vec::new();
    let mut i: usize = 0;
    while i < positions.len()
        invariant
            i <= positions.len(),
            sorted_distinct(res@),
            forall|c: Coord| #[trigger] res@.contains(c) <==> positions@.subrange(0, i as int).contains(c),
        decreases positions.len() - i,
    {
        let p = positions[i];
        let mut j: usize = 0;
        while j < res.len() && coord_less(res[j], p)
            invariant
                j <= res.len(),
                forall|k: int| 0 <= k < j ==> coord_lt(#[trigger] res@[k], p),
            decreases res.len() - j,
        {
            j = j + 1;
        }
        if j == res.len() {
            let ghost prev = res@;
            res.push(p);
            proof {
                assert forall|k1: int, k2: int| 0 <= k1 < k2 < res@.len()
                    implies #[trigger] coord_lt(res@[k1], res@[k2]) by {
                    if k2 == prev.len() {
                        assert(coord_lt(prev[k1], p));
                    }
                }
            }
        } else if !(res[j] == p) {
            let ghost prev = res@;
            proof {
                assert(coord_lt(p, prev[j as int]));
                prev.insert_ensures(j as int, p);
            }
            res.insert(j, p);
            proof {
                assert forall|k: int| 0 <= k < res@.len()
                    implies res@[k] == (if k < j { prev[k] } else if k == j { p } else {
                        prev[k - 1]
                    }) by {
                    if k > j {
                        assert(prev.insert(j as int, p)[(k - 1) + 1] == prev[k - 1]);
                    }
                }
                assert forall|k1: int, k2: int| 0 <= k1 < k2 < res@.len()
                    implies #[trigger] coord_lt(res@[k1], res@[k2]) by {
                    if k2 == j {
                        assert(coord_lt(prev[k1], p));
                    } else if k1 == j {
                        assert(coord_lt(p, prev[j as int]));
                        if k2 - 1 > j {
                            assert(coord_lt(prev[j as int], prev[k2 - 1]));
                        }
                    } else if k1 < j && k2 > j {
                        assert(coord_lt(prev[k1], p));
                        assert(coord_lt(p, prev[j as int]));
                        if k2 - 1 > j {
                            assert(coord_lt(prev[j as int], prev[k2 - 1]));
                        }
                    }
                }
                assert forall|c: Coord| #[trigger] res@.contains(c)
                    implies prev.contains(c) || c == p by {
                    let k = choose|k: int| 0 <= k < res@.len() && res@[k] == c;
                    if k < j {
                        assert(prev[k] == c);
                    } else if k > j {
                        assert(prev[k - 1] == c);
                    }
                }
                assert forall|c: Coord| prev.contains(c) || c == p
                    implies #[trigger] res@.contains(c) by {
                    if c == p {
                        assert(res@[j as int] == c);
                    } else {
                        let k = choose|k: int| 0 <= k < prev.len() && prev[k] == c;
                        if k < j {
                            assert(res@[k] == c);
                        } else {
                            assert(res@[k + 1] == c);
                        }
                    }
                }
            }
        } else {
            proof {
                assert(res@.contains(p)) by {
                    assert(res@[j as int] == p);
                }
            }
        }
        proof {
            assert(positions@.subrange(0, i as int + 1) =~= positions@.subrange(0, i as int).push(p));
        }
        i = i + 1;
    }
    proof {
        assert(positions@.subrange(0, positions@.len() as int) =~= positions@);
    }
    res
}

/// Extends `positions` with every square a ray of `color` from `start` in
/// direction `(dy, dx)` reaches on `board`.
pub fn ray_extend(
    positions: &mut Vec<Coord>,
    board: &Grid,
    color: PieceColor,
    start: Coord,
    dy: i8,
    dx: i8,
    protect: bool,
)
    requires
        board.wf(),
        start.valid(),
        -1 <= dy <= 1,
        -1 <= dx <= 1,
        !(dy == 0 && dx == 0),
    ensures
        forall|c: Coord| #[trigger] final(positions)@.contains(c) <==> old(positions)@.contains(c)
            || dir_reaches(
                board@,
                color,
                start.row as int,
                start.col as int,
                dy as int,
                dx as int,
                c.row as int,
                c.col as int,
                protect,
            ),
{
    let ghost b = board@;
    let ghost y0 = start.row as int;
    let ghost x0 = start.col as int;
    let ghost sdy = dy as int;
    let ghost sdx = dx as int;
    let mut cy: i8 = start.row;
    let mut cx: i8 = start.col;
    let mut k: u8 = 0;
    let mut blocked = false;
    while !blocked && k < 8
        invariant
            k <= 8,
            !blocked ==> valid_coord(cy as int, cx as int),
            !blocked && k == 0 ==> cy == start.row && cx == start.col,
            !blocked && k >= 1 ==> dir_hits(y0, x0, sdy, sdx, cy as int, cx as int)
                && dir_steps(y0, x0, sdy, sdx, cy as int, cx as int) == k,
            forall|c: Coord| #[trigger] positions@.contains(c) <==> old(positions)@.contains(c)
                || (dir_reaches(b, color, y0, x0, sdy, sdx, c.row as int, c.col as int, protect)
                    && dir_steps(y0, x0, sdy, sdx, c.row as int, c.col as int) <= k),
            !blocked ==> forall|r: int, c: int|
                #[trigger] dir_hits(y0, x0, sdy, sdx, r, c)
                    && dir_steps(y0, x0, sdy, sdx, r, c) <= k ==> sees_through(b, r, c, color, protect),
            blocked ==> forall|r: int, c: int|
                #[trigger] dir_hits(y0, x0, sdy, sdx, r, c)
                    && dir_steps(y0, x0, sdy, sdx, r, c) > k
                    ==> !dir_reaches(b, color, y0, x0, sdy, sdx, r, c, protect),
        decreases 8 - k,
    {
        let ny = cy + dy;
        let nx = cx + dx;
        proof {
            assert(dir_hits(y0, x0, sdy, sdx, ny as int, nx as int));
            assert(dir_steps(y0, x0, sdy, sdx, ny as int, nx as int) == k + 1);
        }
        if !(ny >= 0 && ny <= 7 && nx >= 0 && nx <= 7) {
            blocked = true;
            k = k + 1;
            proof {
                assert forall|r: int, c: int|
                    #[trigger] dir_hits(y0, x0, sdy, sdx, r, c)
                        && dir_steps(y0, x0, sdy, sdx, r, c) > k
                        implies !dir_reaches(b, color, y0, x0, sdy, sdx, r, c, protect) by {
                    assert(!valid_coord(r, c));
                }
            }
        } else {
            let target = Coord { row: ny, col: nx };
            let cell = board.get(target);
            let is_empty = cell.is_none();
            let through = is_empty
                || (protect && is_piece_opposite_king(cell, color));
            let enterable = protect || !is_cell_color_ally(board, target, color);
            if enterable {
                positions.push(target);
                proof {
                    assert(dir_reaches(b, color, y0, x0, sdy, sdx, ny as int, nx as int, protect));
                }
            } else {
                proof {
                    assert(!dir_reaches(b, color, y0, x0, sdy, sdx, ny as int, nx as int, protect));
                }
            }
            k = k + 1;
            if through {
                cy = ny;
                cx = nx;
            } else {
                blocked = true;
                proof {
                    assert forall|r: int, c: int|
                        #[trigger] dir_hits(y0, x0, sdy, sdx, r, c)
                            && dir_steps(y0, x0, sdy, sdx, r, c) > k
                            implies !dir_reaches(b, color, y0, x0, sdy, sdx, r, c, protect) by {
                        assert(dir_hits(y0, x0, sdy, sdx, ny as int, nx as int));
                        assert(dir_hits(ny as int, nx as int, sdy, sdx, r, c));
                        assert(!sees_through(b, ny as int, nx as int, color, protect));
                    }
                }
            }
        }
    }
    proof {
        if !blocked {
            assert forall|c: Coord|
                dir_reaches(b, color, y0, x0, sdy, sdx, c.row as int, c.col as int, protect)
                    implies dir_steps(y0, x0, sdy, sdx, c.row as int, c.col as int) <= k by {
                assert(valid_coord(c.row as int, c.col as int));
            }
        }
    }
}

/// The flat index of the first cell at or after `i`, in rank-major order,
/// holding the king of `color`; `None` when there is no such cell.
pub open spec fn king_index(b: Seq<Cell>, color: PieceColor, i: int) -> Option<int>
    decreases b.len() - i,
{
    if i < 0 || i >= b.len() {
        None
    } else if b[i] == Some((PieceType::King, color)) {
        Some(i)
    } else {
        king_index(b, color, i + 1)
    }
}

/// True iff the piece standing at `(pr, pc)` belongs to `by` and covers
/// `(row, col)` in its protection view.
pub open spec fn attacks_square(
    b: Seq<Cell>,
    by: PieceColor,
    pr: int,
    pc: int,
    row: int,
    col: int,
    last: Option<MoveRecord>,
) -> bool {
    match cell_at(b, pr, pc) {
        Some(p) => p.1 == by && piece_reaches(p.0, b, by, pr, pc, row, col, true, last),
        None => false,
    }
}

/// True iff some piece of `by` attacks the square `(row, col)` on `b`.
pub open spec fn square_attacked(
    b: Seq<Cell>,
    by: PieceColor,
    row: int,
    col: int,
    last: Option<MoveRecord>,
) -> bool {
    exists|pr: int, pc: int|
        valid_coord(pr, pc) && #[trigger] attacks_square(b, by, pr, pc, row, col, last)
}

/// True iff the `color` king is in check on `b`: its square appears in the
/// union of the opposing pieces' protection views.  A board without a `color`
/// king is never in check.
pub open spec fn is_checked(b: Seq<Cell>, color: PieceColor, last: Option<MoveRecord>) -> bool {
    match king_index(b, color, 0) {
        Some(i) => square_attacked(b, other_color(color), i / 8, i % 8, last),
        None => false,
    }
}

/// The board after moving the occupant of `from` to `to`: the origin is
/// cleared, the destination overwritten (capturing whatever stood there), and
/// when a pawn moves diagonally onto an empty square the pawn it captured en
/// passant, beside its origin, is removed as well.
pub open spec fn apply_move_spec(b: Seq<Cell>, from: Coord, to: Coord) -> Seq<Cell> {
    let moved = cell_at(b, from.row as int, from.col as int);
    let moved_pawn = match moved {
        Some(p) => p.0 == PieceType::Pawn,
        None => false,
    };
    let base = b.update(to.row as int * 8 + to.col as int, moved).update(
        from.row as int * 8 + from.col as int,
        None,
    );
    if moved_pawn && to.col != from.col && cell_at(b, to.row as int, to.col as int) is None {
        base.update(from.row as int * 8 + to.col as int, None)
    } else {
        base
    }
}

/// True iff `positions` holds `c`.
pub fn contains_coord(positions: &Vec<Coord>, c: Coord) -> (r: bool)
    ensures
        r == positions@.contains(c),
{
    let mut i: usize = 0;
    while i < positions.len()
        invariant
            i <= positions.len(),
            forall|k: int| 0 <= k < i ==> positions@[k] != c,
        decreases positions.len() - i,
    {
        if positions[i] == c {
            return true;
        }
        i = i + 1;
    }
    false
}

/// The square holding the king of `color`, found by rank-major scan, or
/// `None` when the board holds no such king.
pub fn get_king_coordinates(board: &Grid, color: PieceColor) -> (r: Option<Coord>)
    requires
        board.wf(),
    ensures
        match r {
            Some(c) => c.valid() && king_index(board@, color, 0) == Some(
                c.row as int * 8 + c.col as int,
            ),
            None => king_index(board@, color, 0) is None,
        },
{
    let mut i: usize = 0;
    while i < 64
        invariant
            i <= 64,
            king_index(board@, color, 0) == king_index(board@, color, i as int),
        decreases 64 - i,
    {
        let cell = board.cells[i];
        let found = match cell {
            Some((t, c)) => t == PieceType::King && c == color,
            None => false,
        };
        if found {
            let row = (i / 8) as i8;
            let col = (i % 8) as i8;
            proof {
                assert(king_index(board@, color, i as int) == Some(i as int));
            }
            return Some(Coord { row, col });
        }
        proof {
            assert(king_index(board@, color, i as int) == king_index(board@, color, i as int + 1));
        }
        i = i + 1;
    }
    proof {
        assert(king_index(board@, color, 64) is None);
    }
    None
}

/// True iff the `color` king is currently attacked: the king's square is
/// located by scan, and every opposing piece's protection view is examined
/// for it.
pub fn is_getting_checked(board: &Grid, color: PieceColor, move_history: &Vec<MoveRecord>) -> (r:
    bool)
    requires
        board.wf(),
    ensures
        r == is_checked(board@, color, last_record(move_history@)),
{
    let ghost b = board@;
    let ghost last = last_record(move_history@);
    let kc = match get_king_coordinates(board, color) {
        Some(c) => c,
        None => {
            return false;
        },
    };
    let ghost kr = kc.row as int;
    let ghost kl = kc.col as int;
    let enemy = color.opposite();
    let mut row: i8 = 0;
    while row < 8
        invariant
            0 <= row <= 8,
            forall|pr: int, pc: int|
                0 <= pr < row && 0 <= pc < 8 ==> !attacks_square(b, enemy, pr, pc, kr, kl, last),
        decreases 8 - row,
    {
        let mut col: i8 = 0;
        while col < 8
            invariant
                0 <= row < 8,
                0 <= col <= 8,
                forall|pr: int, pc: int|
                    0 <= pr < row && 0 <= pc < 8 ==> !attacks_square(b, enemy, pr, pc, kr, kl, last),
                forall|pc: int|
                    0 <= pc < col ==> !attacks_square(b, enemy, row as int, pc, kr, kl, last),
            decreases 8 - col,
        {
            let here = Coord { row, col };
            if let Some((t, pcolor)) = board.get(here) {
                if pcolor == enemy {
                    let prot = PieceType::protected_positions(here, t, enemy, board, move_history);
                    if contains_coord(&prot, kc) {
                        proof {
                            assert(attacks_square(b, enemy, row as int, col as int, kr, kl, last));
                            assert(square_attacked(b, enemy, kr, kl, last));
                        }
                        return true;
                    }
                }
            }
            col = col + 1;
        }
        row = row + 1;
    }
    proof {
        assert forall|pr: int, pc: int| valid_coord(pr, pc)
            implies !attacks_square(b, enemy, pr, pc, kr, kl, last) by {}
        assert(!square_attacked(b, enemy, kr, kl, last));
    }
    false
}

/// The board that results from playing `from -> to`, built on a scratch copy:
/// the authoritative board is never mutated.
pub fn apply_move(board: &Grid, from: Coord, to: Coord) -> (r: Grid)
    requires
        board.wf(),
        from.valid(),
        to.valid(),
    ensures
        r.wf(),
        r@ == apply_move_spec(board@, from, to),
{
    let moved = board.get(from);
    let target_before = board.get(to);
    let mut g = board.duplicate();
    g.set(to, moved);
    g.set(from, None);
    let moved_pawn = match moved {
        Some((t, _)) => t == PieceType::Pawn,
        None => false,
    };
    if moved_pawn && to.col != from.col && target_before.is_none() {
        g.set(Coord { row: from.row, col: to.col }, None);
    }
    g
}

/// The legality filter: keeps only the candidates whose play would not leave
/// the `color` king in check, each tested by simulating the move on a scratch
/// board and re-running check detection.
pub fn impossible_positions_king_checked(
    original_coordinates: Coord,
    positions: Vec<Coord>,
    board: &Grid,
    color: PieceColor,
    move_history: &Vec<MoveRecord>,
) -> (r: Vec<Coord>)
    requires
        board.wf(),
        original_coordinates.valid(),
        sorted_distinct(positions@),
        forall|k: int| 0 <= k < positions@.len() ==> (#[trigger] positions@[k]).valid(),
    ensures
        sorted_distinct(r@),
        forall|k: int| 0 <= k < r@.len() ==> (#[trigger] r@[k]).valid(),
        forall|c: Coord| #[trigger] r@.contains(c) <==> positions@.contains(c) && !is_checked(
            apply_move_spec(board@, original_coordinates, c),
            color,
            last_record(move_history@),
        ),
{
    let ghost b = board@;
    let ghost last = last_record(move_history@);
    let mut res: Vec<Coord> = Vec::new();
    let mut i: usize = 0;
    while i < positions.len()
        invariant
            i <= positions.len(),
            sorted_distinct(res@),
            forall|k: int| 0 <= k < res@.len() ==> (#[trigger] res@[k]).valid(),
            forall|k: int| 0 <= k < res@.len() ==> exists|j: int|
                0 <= j < i && positions@[j] == #[trigger] res@[k],
            forall|c: Coord| #[trigger] res@.contains(c) <==> positions@.subrange(
                0,
                i as int,
            ).contains(c) && !is_checked(
                apply_move_spec(b, original_coordinates, c),
                color,
                last,
            ),
        decreases positions.len() - i,
    {
        let candidate = positions[i];
        let sim = apply_move(board, original_coordinates, candidate);
        if !is_getting_checked(&sim, color, move_history) {
            proof {
                assert forall|k: int| 0 <= k < res@.len() implies coord_lt(
                    #[trigger] res@[k],
                    candidate,
                ) by {
                    let j = choose|j: int| 0 <= j < i && positions@[j] == res@[k];
                    assert(coord_lt(positions@[j], positions@[i as int]));
                }
            }
            res.push(candidate);
        }
        proof {
            assert(positions@.subrange(0, i as int + 1) =~= positions@.subrange(
                0,
                i as int,
            ).push(candidate));
        }
        i = i + 1;
    }
    proof {
        assert(positions@.subrange(0, positions@.len() as int) =~= positions@);
    }
    res
}

/// Extends `positions` with the landing square of the single jump `(dy, dx)`
/// from `start`, when that square is on the board and may be entered.
pub fn jump_extend(
    positions: &mut Vec<Coord>,
    board: &Grid,
    color: PieceColor,
    start: Coord,
    dy: i8,
    dx: i8,
    protect: bool,
)
    requires
        board.wf(),
        start.valid(),
        -2 <= dy <= 2,
        -2 <= dx <= 2,
    ensures
        forall|c: Coord| #[trigger] final(positions)@.contains(c) <==> old(positions)@.contains(c)
            || jump_reaches(
                board@,
                color,
                start.row as int,
                start.col as int,
                dy as int,
                dx as int,
                c.row as int,
                c.col as int,
                protect,
            ),
{
    let ny = start.row + dy;
    let nx = start.col + dx;
    if ny >= 0 && ny <= 7 && nx >= 0 && nx <= 7 {
        let target = Coord { row: ny, col: nx };
        if protect || !is_cell_color_ally(board, target, color) {
            positions.push(target);
        }
    }
}

} // verus!
