use chess::board::{Board, Coord};
use chess::pieces::bishop::Bishop;
use chess::pieces::{PieceColor, PieceType, Position};

fn c(row: i8, col: i8) -> Coord {
    Coord::new(row, col)
}

#[test]
fn bishop_moves_no_enemies() {
    let custom_board = [
        [None, None, None, None, None, None, None, None],
        [None, None, None, None, None, None, None, None],
        [None, None, None, None, None, None, None, None],
        [None, None, None, None, None, None, None, None],
        [
            None,
            None,
            None,
            None,
            Some((PieceType::Bishop, PieceColor::White)),
            None,
            None,
            None,
        ],
        [None, None, None, None, None, None, None, None],
        [None, None, None, None, None, None, None, None],
        [None, None, None, None, None, None, None, None],
    ];
    let mut board = Board::default();
    board.set_board(custom_board);

    let mut right_positions = vec![
        c(0, 0),
        c(1, 1),
        c(2, 2),
        c(3, 3),
        c(5, 5),
        c(6, 6),
        c(7, 7),
        c(1, 7),
        c(2, 6),
        c(3, 5),
        c(5, 3),
        c(6, 2),
        c(7, 1),
    ];
    right_positions.sort();

    let mut positions =
        Bishop::authorized_positions(c(4, 4), PieceColor::White, &board.board, &vec![], false);
    positions.sort();

    assert_eq!(right_positions, positions);
}

#[test]
fn bishop_moves_one_enemies_top_right() {
    let custom_board = [
        [None, None, None, None, None, None, None, None],
        [None, None, None, None, None, None, None, None],
        [None, None, None, None, None, None, None, None],
        [
            None,
            None,
            None,
            None,
            None,
            Some((PieceType::Pawn, PieceColor::Black)),
            None,
            None,
        ],
        [
            None,
            None,
            None,
            None,
            Some((PieceType::Rook, PieceColor::White)),
            None,
            None,
            None,
        ],
        [None, None, None, None, None, None, None, None],
        [None, None, None, None, None, None, None, None],
        [None, None, None, None, None, None, None, None],
    ];
    let mut board = Board::default();
    board.set_board(custom_board);

    let mut right_positions = vec![
        c(0, 0),
        c(1, 1),
        c(2, 2),
        c(3, 3),
        c(5, 5),
        c(6, 6),
        c(7, 7),
        c(3, 5),
        c(5, 3),
        c(6, 2),
        c(7, 1),
    ];
    right_positions.sort();

    let mut positions =
        Bishop::authorized_positions(c(4, 4), PieceColor::White, &board.board, &vec![], false);
    positions.sort();

    assert_eq!(right_positions, positions);
}

#[test]
fn bishop_moves_multiple_enemies_and_ally_front() {
    let custom_board = [
        [None, None, None, None, None, None, None, None],
        [None, None, None, None, None, None, None, None],
        [None, None, None, None, None, None, None, None],
        [
            None,
            None,
            None,
            Some((PieceType::Pawn, PieceColor::Black)),
            None,
            None,
            None,
            None,
        ],
        [
            None,
            None,
            None,
            None,
            Some((PieceType::Rook, PieceColor::White)),
            None,
            None,
            None,
        ],
        [
            None,
            None,
            None,
            None,
            None,
            Some((PieceType::Pawn, PieceColor::Black)),
            None,
            None,
        ],
        [None, None, None, None, None, None, None, None],
        [
            None,
            Some((PieceType::Rook, PieceColor::White)),
            None,
            None,
            None,
            None,
            None,
            None,
        ],
    ];
    let mut board = Board::default();
    board.set_board(custom_board);

    let mut right_positions = vec![
        c(3, 3),
        c(5, 5),
        c(3, 5),
        c(2, 6),
        c(1, 7),
        c(5, 3),
        c(6, 2),
    ];
    right_positions.sort();

    let mut positions =
        Bishop::authorized_positions(c(4, 4), PieceColor::White, &board.board, &vec![], false);
    positions.sort();

    assert_eq!(right_positions, positions);
}
