use chess::app::App;
use chess::board::{Board, Coord, MoveRecord};
use chess::pieces::king::King;
use chess::pieces::queen::Queen;
use chess::pieces::{PieceColor, PieceType, Position};
use chess::utils::{apply_move, is_getting_checked};

fn c(row: i8, col: i8) -> Coord {
    Coord::new(row, col)
}

fn empty_row() -> [Option<(PieceType, PieceColor)>; 8] {
    [None, None, None, None, None, None, None, None]
}

fn board_with(pieces: &[(i8, i8, PieceType, PieceColor)]) -> Board {
    let mut grid = [
        empty_row(),
        empty_row(),
        empty_row(),
        empty_row(),
        empty_row(),
        empty_row(),
        empty_row(),
        empty_row(),
    ];
    for &(row, col, kind, color) in pieces {
        grid[row as usize][col as usize] = Some((kind, color));
    }
    let mut board = Board::default();
    board.set_board(grid);
    board
}

#[test]
fn queen_moves_empty_board() {
    let board = board_with(&[(4, 4, PieceType::Queen, PieceColor::White)]);
    let positions =
        Queen::authorized_positions(c(4, 4), PieceColor::White, &board.board, &vec![], false);
    // 14 rook squares and 13 bishop squares from (4, 4)
    assert_eq!(positions.len(), 27);
    assert!(positions.contains(&c(4, 0)));
    assert!(positions.contains(&c(0, 4)));
    assert!(positions.contains(&c(0, 0)));
    assert!(positions.contains(&c(1, 7)));
    assert!(positions.contains(&c(7, 7)));
    assert!(!positions.contains(&c(4, 4)));
}

#[test]
fn king_moves_corner_with_ally() {
    let board = board_with(&[
        (0, 0, PieceType::King, PieceColor::White),
        (0, 1, PieceType::Pawn, PieceColor::White),
    ]);
    let mut positions =
        King::authorized_positions(c(0, 0), PieceColor::White, &board.board, &vec![], false);
    positions.sort();
    let mut right_positions = vec![c(1, 0), c(1, 1)];
    right_positions.sort();
    assert_eq!(right_positions, positions);
}

#[test]
fn king_cannot_step_into_rook_ray() {
    let board = board_with(&[
        (4, 4, PieceType::King, PieceColor::Black),
        (4, 6, PieceType::Rook, PieceColor::White),
    ]);
    let mut positions =
        King::authorized_positions(c(4, 4), PieceColor::Black, &board.board, &vec![], false);
    positions.sort();
    let mut right_positions = vec![c(3, 3), c(3, 4), c(3, 5), c(5, 3), c(5, 4), c(5, 5)];
    right_positions.sort();
    // (4, 5) is attacked outright, and (4, 3) stays attacked because the rook
    // sees through the king's own square
    assert_eq!(right_positions, positions);
}

#[test]
fn authorized_positions_same_inputs_same_output() {
    let board = board_with(&[
        (2, 2, PieceType::King, PieceColor::Black),
        (4, 2, PieceType::Rook, PieceColor::White),
        (5, 2, PieceType::Rook, PieceColor::Black),
    ]);
    let first = PieceType::Rook.authorized_positions(
        c(5, 2),
        PieceColor::Black,
        &board.board,
        &board.moves_history,
        false,
    );
    let second = PieceType::Rook.authorized_positions(
        c(5, 2),
        PieceColor::Black,
        &board.board,
        &board.moves_history,
        false,
    );
    assert_eq!(first, second);
}

#[test]
fn authorized_positions_sorted_without_duplicates() {
    let board = board_with(&[(4, 4, PieceType::Queen, PieceColor::White)]);
    let positions =
        Queen::authorized_positions(c(4, 4), PieceColor::White, &board.board, &vec![], false);
    for pair in positions.windows(2) {
        assert!(pair[0] < pair[1]);
    }
}

#[test]
fn invalid_origin_yields_no_destination() {
    let board = board_with(&[(4, 4, PieceType::Queen, PieceColor::White)]);
    let positions =
        Queen::authorized_positions(c(8, 4), PieceColor::White, &board.board, &vec![], false);
    assert!(positions.is_empty());
    let positions =
        Queen::authorized_positions(c(-1, 0), PieceColor::White, &board.board, &vec![], false);
    assert!(positions.is_empty());
}

#[test]
fn protection_view_includes_defended_ally() {
    let board = board_with(&[
        (4, 4, PieceType::Rook, PieceColor::White),
        (4, 6, PieceType::Pawn, PieceColor::White),
    ]);
    let protected = PieceType::protected_positions(
        c(4, 4),
        PieceType::Rook,
        PieceColor::White,
        &board.board,
        &vec![],
    );
    assert!(protected.contains(&c(4, 6)));
    assert!(!protected.contains(&c(4, 7)));
    let authorized =
        PieceType::Rook.authorized_positions(c(4, 4), PieceColor::White, &board.board, &vec![], false);
    assert!(!authorized.contains(&c(4, 6)));
}

#[test]
fn en_passant_capture_removes_passed_pawn() {
    // White pawn on (3, 3) takes en passant to (2, 2); the black pawn on
    // (3, 2) must leave the board
    let board = board_with(&[
        (3, 3, PieceType::Pawn, PieceColor::White),
        (3, 2, PieceType::Pawn, PieceColor::Black),
    ]);
    let after = apply_move(&board.board, c(3, 3), c(2, 2));
    assert_eq!(after.get(c(2, 2)), Some((PieceType::Pawn, PieceColor::White)));
    assert_eq!(after.get(c(3, 3)), None);
    assert_eq!(after.get(c(3, 2)), None);
}

#[test]
fn check_detected_on_open_file() {
    let board = board_with(&[
        (2, 2, PieceType::King, PieceColor::Black),
        (4, 2, PieceType::Rook, PieceColor::White),
    ]);
    assert!(is_getting_checked(&board.board, PieceColor::Black, &vec![]));
    assert!(!is_getting_checked(&board.board, PieceColor::White, &vec![]));
}

#[test]
fn check_not_detected_when_file_blocked() {
    let board = board_with(&[
        (2, 2, PieceType::King, PieceColor::Black),
        (3, 2, PieceType::Pawn, PieceColor::Black),
        (4, 2, PieceType::Rook, PieceColor::White),
    ]);
    assert!(!is_getting_checked(&board.board, PieceColor::Black, &vec![]));
}

#[test]
fn pawn_protects_diagonals_regardless_of_occupants() {
    let board = board_with(&[(4, 4, PieceType::Pawn, PieceColor::White)]);
    let mut protected = PieceType::protected_positions(
        c(4, 4),
        PieceType::Pawn,
        PieceColor::White,
        &board.board,
        &vec![],
    );
    protected.sort();
    let mut right_positions = vec![c(3, 3), c(3, 5)];
    right_positions.sort();
    assert_eq!(right_positions, protected);
}

#[test]
fn initial_board_layout() {
    let board = Board::default();
    assert_eq!(board.get_piece_type(c(0, 0)), Some(PieceType::Rook));
    assert_eq!(board.get_piece_type(c(0, 4)), Some(PieceType::King));
    assert_eq!(board.get_piece_type(c(0, 3)), Some(PieceType::Queen));
    assert_eq!(board.get_piece_color(c(1, 5)), Some(PieceColor::Black));
    assert_eq!(board.get_piece_type(c(1, 5)), Some(PieceType::Pawn));
    assert_eq!(board.get_piece_type(c(4, 4)), None);
    assert_eq!(board.get_piece_type(c(6, 2)), Some(PieceType::Pawn));
    assert_eq!(board.get_piece_color(c(7, 1)), Some(PieceColor::White));
    assert_eq!(board.get_piece_type(c(7, 6)), Some(PieceType::Knight));
    assert_eq!(board.get_piece_type(c(7, 2)), Some(PieceType::Bishop));
}

#[test]
fn cursor_moves_and_selection() {
    let mut board = Board::default();
    assert_eq!(board.cursor_y, 4);
    assert_eq!(board.cursor_x, 4);
    board.cursor_up();
    assert_eq!(board.cursor_y, 3);
    board.cursor_left();
    assert_eq!(board.cursor_x, 3);
    for _ in 0..10 {
        board.cursor_up();
    }
    assert_eq!(board.cursor_y, 0);
    // rank 0 is occupied, so selection sticks and freezes the cursor
    board.select_cell();
    assert_eq!(board.selected_coordinates, Some(c(0, 3)));
    board.cursor_down();
    assert_eq!(board.cursor_y, 0);
    board.unselect_cell();
    assert_eq!(board.selected_coordinates, None);
    board.cursor_down();
    assert_eq!(board.cursor_y, 1);
}

#[test]
fn selecting_empty_cell_does_nothing() {
    let mut board = Board::default();
    // the default cursor (4, 4) sits on an empty cell
    board.select_cell();
    assert_eq!(board.selected_coordinates, None);
}

#[test]
fn authorized_positions_enum_uses_selection() {
    let mut board = board_with(&[(4, 4, PieceType::Rook, PieceColor::White)]);
    let none_selected = board.authorized_positions_enum(PieceType::Rook, PieceColor::White);
    assert!(none_selected.is_empty());
    board.select_cell();
    assert_eq!(board.selected_coordinates, Some(c(4, 4)));
    let positions = board.authorized_positions_enum(PieceType::Rook, PieceColor::White);
    assert_eq!(positions.len(), 14);
}

#[test]
fn app_lifecycle() {
    let mut app = App::new();
    assert!(app.running);
    assert!(!app.show_popup);
    app.show_popup();
    assert!(app.show_popup);
    app.show_popup();
    assert!(!app.show_popup);
    app.tick();
    app.quit();
    assert!(!app.running);
}

#[test]
fn piece_art_is_distinct() {
    let glyphs = [
        chess::pieces::pawn::Pawn::to_string(),
        chess::pieces::rook::Rook::to_string(),
        chess::pieces::bishop::Bishop::to_string(),
        chess::pieces::knight::Knight::to_string(),
        chess::pieces::queen::Queen::to_string(),
        chess::pieces::king::King::to_string(),
    ];
    for (i, a) in glyphs.iter().enumerate() {
        assert!(!a.is_empty());
        for b in glyphs.iter().skip(i + 1) {
            assert_ne!(a, b);
        }
    }
}

#[test]
fn move_history_only_last_record_matters() {
    // an older double advance no longer allows en passant once another pawn
    // move follows it
    let board = board_with(&[
        (3, 3, PieceType::Pawn, PieceColor::White),
        (3, 2, PieceType::Pawn, PieceColor::Black),
    ]);
    let stale = MoveRecord {
        moved: Some(PieceType::Pawn),
        captured: None,
        from: c(1, 2),
        to: c(3, 2),
    };
    let newer = MoveRecord {
        moved: Some(PieceType::Pawn),
        captured: None,
        from: c(1, 6),
        to: c(2, 6),
    };
    let history = vec![stale, newer];
    let positions = chess::pieces::pawn::Pawn::authorized_positions(
        c(3, 3),
        PieceColor::White,
        &board.board,
        &history,
        false,
    );
    assert!(!positions.contains(&c(2, 2)));
    assert!(positions.contains(&c(2, 3)));
}
