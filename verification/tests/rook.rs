use chess::board::{Board, Coord};
use chess::pieces::{PieceColor, PieceType, Position};
use chess::pieces::rook::Rook;
use chess::utils::is_getting_checked;

fn c(row: i8, col: i8) -> Coord {
    Coord::new(row, col)
}

#[test]
fn rook_piece_move_no_enemies() {
    let custom_board = [
        [None, None, None, None, None, None, None, None],
        [None, None, None, None, None, None, None, None],
        [None, None, None, None, None, None, None, None],
        [None, None, None, None, None, None, None, None],
        [
            None,
            None,
            None,
            None,
            Some((PieceType::Rook, PieceColor::White)),
            None,
            None,
            None,
        ],
        [None, None, None, None, None, None, None, None],
        [None, None, None, None, None, None, None, None],
        [None, None, None, None, None, None, None, None],
    ];
    let mut board = Board::default();
    board.set_board(custom_board);

    let mut right_positions = vec![
        c(7, 4),
        c(6, 4),
        c(5, 4),
        c(3, 4),
        c(2, 4),
        c(1, 4),
        c(0, 4),
        c(4, 0),
        c(4, 1),
        c(4, 2),
        c(4, 3),
        c(4, 5),
        c(4, 6),
        c(4, 7),
    ];
    right_positions.sort();

    let mut positions =
        Rook::authorized_positions(c(4, 4), PieceColor::White, &board.board, &vec![], false);
    positions.sort();
    assert_eq!(right_positions, positions);
}

#[test]
fn piece_move_one_enemies_front() {
    let custom_board = [
        [None, None, None, None, None, None, None, None],
        [None, None, None, None, None, None, None, None],
        [None, None, None, None, None, None, None, None],
        [
            None,
            None,
            None,
            None,
            Some((PieceType::Pawn, PieceColor::Black)),
            None,
            None,
            None,
        ],
        [
            None,
            None,
            None,
            None,
            Some((PieceType::Rook, PieceColor::White)),
            None,
            None,
            None,
        ],
        [None, None, None, None, None, None, None, None],
        [None, None, None, None, None, None, None, None],
        [None, None, None, None, None, None, None, None],
    ];
    let mut board = Board::default();
    board.set_board(custom_board);

    let mut right_positions = vec![
        c(7, 4),
        c(6, 4),
        c(5, 4),
        c(3, 4),
        c(4, 0),
        c(4, 1),
        c(4, 2),
        c(4, 3),
        c(4, 5),
        c(4, 6),
        c(4, 7),
    ];
    right_positions.sort();

    let mut positions =
        Rook::authorized_positions(c(4, 4), PieceColor::White, &board.board, &vec![], false);
    positions.sort();
    assert_eq!(right_positions, positions);
}

#[test]
fn piece_move_multiple_enemies_and_ally_front() {
    let custom_board = [
        [None, None, None, None, None, None, None, None],
        [None, None, None, None, None, None, None, None],
        [None, None, None, None, None, None, None, None],
        [
            None,
            None,
            None,
            None,
            Some((PieceType::Pawn, PieceColor::Black)),
            None,
            None,
            None,
        ],
        [
            None,
            None,
            None,
            None,
            Some((PieceType::Rook, PieceColor::White)),
            None,
            Some((PieceType::Pawn, PieceColor::Black)),
            None,
        ],
        [None, None, None, None, None, None, None, None],
        [
            None,
            None,
            None,
            None,
            Some((PieceType::Rook, PieceColor::White)),
            None,
            None,
            None,
        ],
        [None, None, None, None, None, None, None, None],
    ];
    let mut board = Board::default();
    board.set_board(custom_board);

    let mut right_positions = vec![
        c(4, 0),
        c(4, 1),
        c(4, 2),
        c(4, 3),
        c(4, 5),
        c(4, 6),
        c(3, 4),
        c(5, 4),
    ];
    right_positions.sort();

    let mut positions =
        Rook::authorized_positions(c(4, 4), PieceColor::White, &board.board, &vec![], false);
    positions.sort();

    assert_eq!(right_positions, positions);
}

#[test]
fn king_checked_can_resolve() {
    let custom_board = [
        [None, None, None, None, None, None, None, None],
        [None, None, None, None, None, None, None, None],
        [
            None,
            None,
            Some((PieceType::King, PieceColor::Black)),
            None,
            None,
            None,
            None,
            None,
        ],
        [None, None, None, None, None, None, None, None],
        [
            None,
            None,
            Some((PieceType::Rook, PieceColor::White)),
            None,
            None,
            None,
            None,
            None,
        ],
        [
            None,
            None,
            Some((PieceType::Rook, PieceColor::Black)),
            None,
            None,
            None,
            None,
            None,
        ],
        [None, None, None, None, None, None, None, None],
        [None, None, None, None, None, None, None, None],
    ];
    let mut board = Board::new(custom_board, PieceColor::Black, vec![]);
    board.set_board(custom_board);

    let is_king_checked =
        is_getting_checked(&board.board, board.player_turn, &board.moves_history);

    let mut right_positions = vec![c(4, 2)];
    right_positions.sort();

    let mut positions = Rook::authorized_positions(
        c(5, 2),
        PieceColor::Black,
        &board.board,
        &vec![],
        is_king_checked,
    );
    positions.sort();

    assert_eq!(right_positions, positions);
}

#[test]
fn king_checked_cant_resolve() {
    let custom_board = [
        [None, None, None, None, None, None, None, None],
        [None, None, None, None, None, None, None, None],
        [
            None,
            None,
            Some((PieceType::King, PieceColor::Black)),
            None,
            None,
            None,
            None,
            None,
        ],
        [None, None, None, None, None, None, None, None],
        [
            None,
            None,
            Some((PieceType::Rook, PieceColor::White)),
            None,
            None,
            None,
            None,
            None,
        ],
        [
            None,
            None,
            None,
            Some((PieceType::Rook, PieceColor::Black)),
            None,
            None,
            None,
            None,
        ],
        [None, None, None, None, None, None, None, None],
        [None, None, None, None, None, None, None, None],
    ];
    let mut board = Board::new(custom_board, PieceColor::Black, vec![]);
    board.set_board(custom_board);

    let is_king_checked =
        is_getting_checked(&board.board, board.player_turn, &board.moves_history);

    let mut right_positions: Vec<Coord> = vec![];
    right_positions.sort();

    let mut positions = Rook::authorized_positions(
        c(5, 3),
        PieceColor::Black,
        &board.board,
        &vec![],
        is_king_checked,
    );
    positions.sort();

    assert_eq!(right_positions, positions);
}

#[test]
fn nailing() {
    let custom_board = [
        [
            None,
            None,
            None,
            None,
            Some((PieceType::King, PieceColor::Black)),
            None,
            None,
            None,
        ],
        [
            None,
            None,
            None,
            None,
            Some((PieceType::Rook, PieceColor::Black)),
            None,
            None,
            None,
        ],
        [None, None, None, None, None, None, None, None],
        [
            None,
            None,
            None,
            None,
            Some((PieceType::Queen, PieceColor::White)),
            None,
            None,
            None,
        ],
        [None, None, None, None, None, None, None, None],
        [None, None, None, None, None, None, None, None],
        [None, None, None, None, None, None, None, None],
        [None, None, None, None, None, None, None, None],
    ];
    let mut board = Board::new(custom_board, PieceColor::Black, vec![]);
    board.set_board(custom_board);

    let is_king_checked =
        is_getting_checked(&board.board, board.player_turn, &board.moves_history);

    let mut right_positions: Vec<Coord> = vec![c(2, 4), c(3, 4)];
    right_positions.sort();

    let mut positions = Rook::authorized_positions(
        c(1, 4),
        PieceColor::Black,
        &board.board,
        &vec![],
        is_king_checked,
    );
    positions.sort();

    assert_eq!(right_positions, positions);
}
