use chess::board::{Board, Coord};
use chess::pieces::knight::Knight;
use chess::pieces::{PieceColor, PieceType, Position};

fn c(row: i8, col: i8) -> Coord {
    Coord::new(row, col)
}

#[test]
fn knight_piece_move_no_enemies() {
    let custom_board = [
        [None, None, None, None, None, None, None, None],
        [None, None, None, None, None, None, None, None],
        [None, None, None, None, None, None, None, None],
        [None, None, None, None, None, None, None, None],
        [
            None,
            None,
            None,
            None,
            Some((PieceType::Knight, PieceColor::White)),
            None,
            None,
            None,
        ],
        [None, None, None, None, None, None, None, None],
        [None, None, None, None, None, None, None, None],
        [None, None, None, None, None, None, None, None],
    ];
    let mut board = Board::default();
    board.set_board(custom_board);

    let mut right_positions = vec![
        c(2, 3),
        c(2, 5),
        c(3, 2),
        c(3, 6),
        c(5, 2),
        c(5, 6),
        c(6, 3),
        c(6, 5),
    ];
    right_positions.sort();

    let mut positions =
        Knight::authorized_positions(c(4, 4), PieceColor::White, &board.board, &vec![], false);
    positions.sort();

    assert_eq!(right_positions, positions);
}

#[test]
fn piece_move_enemy_and_ally() {
    let custom_board = [
        [None, None, None, None, None, None, None, None],
        [None, None, None, None, None, None, None, None],
        [None, None, None, None, None, None, None, None],
        [None, None, None, None, None, None, None, None],
        [None, None, None, None, None, None, None, None],
        [
            None,
            None,
            None,
            None,
            None,
            None,
            Some((PieceType::Pawn, PieceColor::White)),
            None,
        ],
        [
            None,
            None,
            None,
            None,
            None,
            Some((PieceType::Pawn, PieceColor::Black)),
            None,
            None,
        ],
        [
            None,
            None,
            None,
            None,
            None,
            None,
            None,
            Some((PieceType::Knight, PieceColor::White)),
        ],
    ];
    let mut board = Board::default();
    board.set_board(custom_board);

    let mut right_positions = vec![c(6, 5)];
    right_positions.sort();

    let mut positions =
        Knight::authorized_positions(c(7, 7), PieceColor::White, &board.board, &vec![], false);
    positions.sort();

    assert_eq!(right_positions, positions);
}
