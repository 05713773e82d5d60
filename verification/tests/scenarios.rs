use chess_engine::board::Board;
use chess_engine::piece::{Coordinate, Piece, PieceColor, PieceKind};

fn wipe(b: &mut Board) {
    for x in 0..8i8 {
        for y in 0..8i8 {
            b.remove_piece(Coordinate(x, y));
        }
    }
}

fn put(b: &mut Board, kind: PieceKind, color: PieceColor, x: i8, y: i8, moved: bool) {
    b.place_piece(Piece { kind, color, square: Coordinate(x, y), moved });
}

#[test]
fn en_passant_capture_available_then_gone() {
    // A black pawn already stands beside the white e-pawn's double-step
    // landing square.
    let mut b = Board::new();
    b.remove_piece(Coordinate(5, 6));
    put(&mut b, PieceKind::PAWN, PieceColor::BLACK, 5, 3, true);

    b.move_piece(&Coordinate(4, 1), &Coordinate(4, 3));
    assert_eq!(b.en_pessant_file, Some(4));
    b.flip_on_move();

    let black_pawn = b.piece_at(Coordinate(5, 3)).unwrap();
    let mv = b.get_valid_moves(&black_pawn);
    assert!(mv.contains(&Coordinate(4, 2)));

    b.move_piece(&Coordinate(5, 3), &Coordinate(4, 2));
    // The passed-over white pawn is captured.
    assert!(b.piece_at(Coordinate(4, 3)).is_none());
    let landed = b.piece_at(Coordinate(4, 2)).unwrap();
    assert!(landed.kind == PieceKind::PAWN && landed.color == PieceColor::BLACK);
    assert!(b.en_pessant_file.is_none());
}

#[test]
fn en_passant_expires_after_unrelated_move() {
    let mut b = Board::new();
    b.remove_piece(Coordinate(5, 6));
    put(&mut b, PieceKind::PAWN, PieceColor::BLACK, 5, 3, true);

    b.move_piece(&Coordinate(4, 1), &Coordinate(4, 3));
    b.flip_on_move();
    // Black plays something else; the flag is cleared unconditionally.
    b.move_piece(&Coordinate(1, 7), &Coordinate(2, 5));
    b.flip_on_move();
    assert!(b.en_pessant_file.is_none());

    b.move_piece(&Coordinate(6, 0), &Coordinate(5, 2));
    b.flip_on_move();
    let black_pawn = b.piece_at(Coordinate(5, 3)).unwrap();
    let mv = b.get_valid_moves(&black_pawn);
    assert!(!mv.contains(&Coordinate(4, 2)));
}

#[test]
fn en_passant_bypasses_self_check_filter() {
    // Capturing en passant here opens the rank and exposes the white king;
    // strict chess forbids it, but this engine's en-passant branch skips the
    // self-check simulation, so the capture is still offered.
    let mut b = Board::new();
    wipe(&mut b);
    put(&mut b, PieceKind::KING, PieceColor::WHITE, 7, 4, true);
    put(&mut b, PieceKind::KING, PieceColor::BLACK, 0, 7, true);
    put(&mut b, PieceKind::ROOK, PieceColor::BLACK, 0, 4, true);
    put(&mut b, PieceKind::PAWN, PieceColor::WHITE, 4, 4, true);
    put(&mut b, PieceKind::PAWN, PieceColor::BLACK, 3, 6, false);

    b.move_piece(&Coordinate(3, 6), &Coordinate(3, 4));
    assert_eq!(b.en_pessant_file, Some(3));

    let white_pawn = b.piece_at(Coordinate(4, 4)).unwrap();
    let mv = b.get_valid_moves(&white_pawn);
    assert!(mv.contains(&Coordinate(3, 5)));

    b.move_piece(&Coordinate(4, 4), &Coordinate(3, 5));
    assert!(b.piece_at(Coordinate(3, 4)).is_none());
    let king = b.piece_at(Coordinate(7, 4)).unwrap();
    assert!(b.is_checked(&king));
}

#[test]
fn castling_toward_near_rook() {
    let mut b = Board::new();
    b.remove_piece(Coordinate(1, 0));
    b.remove_piece(Coordinate(2, 0));
    let king = b.piece_at(Coordinate(3, 0)).unwrap();
    let mv = b.get_valid_moves(&king);
    assert!(mv.contains(&Coordinate(1, 0)));

    b.move_piece(&Coordinate(3, 0), &Coordinate(1, 0));
    let k = b.piece_at(Coordinate(1, 0)).unwrap();
    assert!(k.kind == PieceKind::KING && k.moved);
    let r = b.piece_at(Coordinate(2, 0)).unwrap();
    assert!(r.kind == PieceKind::ROOK && r.moved);
    assert!(b.piece_at(Coordinate(0, 0)).is_none());
    assert!(b.piece_at(Coordinate(3, 0)).is_none());
}

#[test]
fn castling_toward_far_rook() {
    let mut b = Board::new();
    b.remove_piece(Coordinate(4, 0));
    b.remove_piece(Coordinate(5, 0));
    b.remove_piece(Coordinate(6, 0));
    let king = b.piece_at(Coordinate(3, 0)).unwrap();
    let mv = b.get_valid_moves(&king);
    assert!(mv.contains(&Coordinate(5, 0)));

    b.move_piece(&Coordinate(3, 0), &Coordinate(5, 0));
    assert!(b.piece_at(Coordinate(5, 0)).unwrap().kind == PieceKind::KING);
    let r = b.piece_at(Coordinate(4, 0)).unwrap();
    assert!(r.kind == PieceKind::ROOK && r.moved);
    assert!(b.piece_at(Coordinate(7, 0)).is_none());
}

#[test]
fn castling_denied_while_checked() {
    let mut b = Board::new();
    b.remove_piece(Coordinate(1, 0));
    b.remove_piece(Coordinate(2, 0));
    b.remove_piece(Coordinate(3, 1));
    put(&mut b, PieceKind::ROOK, PieceColor::BLACK, 3, 4, true);
    let king = b.piece_at(Coordinate(3, 0)).unwrap();
    assert!(b.is_checked(&king));
    let mv = b.get_valid_moves(&king);
    assert!(!mv.contains(&Coordinate(1, 0)));
}

#[test]
fn castling_denied_when_path_blocked() {
    let mut b = Board::new();
    b.remove_piece(Coordinate(2, 0));
    // The knight still stands between king and rook.
    let king = b.piece_at(Coordinate(3, 0)).unwrap();
    let mv = b.get_valid_moves(&king);
    assert!(!mv.contains(&Coordinate(1, 0)));
}

#[test]
fn castling_denied_when_first_piece_found_is_not_a_rook() {
    let mut b = Board::new();
    b.remove_piece(Coordinate(1, 0));
    b.remove_piece(Coordinate(2, 0));
    b.remove_piece(Coordinate(0, 0));
    put(&mut b, PieceKind::KNIGHT, PieceColor::WHITE, 0, 0, true);
    let king = b.piece_at(Coordinate(3, 0)).unwrap();
    let mv = b.get_valid_moves(&king);
    assert!(!mv.contains(&Coordinate(1, 0)));
}

#[test]
fn castling_denied_through_attacked_square() {
    let mut b = Board::new();
    b.remove_piece(Coordinate(1, 0));
    b.remove_piece(Coordinate(2, 0));
    b.remove_piece(Coordinate(2, 1));
    put(&mut b, PieceKind::ROOK, PieceColor::BLACK, 2, 4, true);
    let king = b.piece_at(Coordinate(3, 0)).unwrap();
    assert!(!b.is_checked(&king));
    let mv = b.get_valid_moves(&king);
    // The king may not pass over the attacked adjacent square.
    assert!(!mv.contains(&Coordinate(2, 0)));
    assert!(!mv.contains(&Coordinate(1, 0)));
}

#[test]
fn back_rank_mate() {
    let mut b = Board::new();
    wipe(&mut b);
    put(&mut b, PieceKind::KING, PieceColor::WHITE, 3, 0, true);
    put(&mut b, PieceKind::PAWN, PieceColor::WHITE, 2, 1, false);
    put(&mut b, PieceKind::PAWN, PieceColor::WHITE, 3, 1, false);
    put(&mut b, PieceKind::PAWN, PieceColor::WHITE, 4, 1, false);
    put(&mut b, PieceKind::KING, PieceColor::BLACK, 3, 7, true);
    put(&mut b, PieceKind::ROOK, PieceColor::BLACK, 7, 0, true);

    let king = b.piece_at(Coordinate(3, 0)).unwrap();
    assert!(b.is_checked(&king));
    assert!(!b.has_moves(PieceColor::WHITE));
    assert!(b.has_moves(PieceColor::BLACK));
}

#[test]
fn stalemate_no_check_no_moves() {
    let mut b = Board::new();
    wipe(&mut b);
    put(&mut b, PieceKind::KING, PieceColor::BLACK, 0, 7, true);
    put(&mut b, PieceKind::QUEEN, PieceColor::WHITE, 2, 6, true);
    put(&mut b, PieceKind::KING, PieceColor::WHITE, 4, 4, true);

    let king = b.piece_at(Coordinate(0, 7)).unwrap();
    assert!(!b.is_checked(&king));
    assert!(!b.has_moves(PieceColor::BLACK));
}

#[test]
fn valid_moves_identical_on_unmutated_board() {
    let b = Board::new();
    for x in 0..8i8 {
        for y in [0i8, 1, 6, 7] {
            let p = b.piece_at(Coordinate(x, y)).unwrap();
            let mut m1 = b.get_valid_moves(&p);
            let mut m2 = b.get_valid_moves(&p);
            m1.sort_by_key(|c| (c.0, c.1));
            m2.sort_by_key(|c| (c.0, c.1));
            assert_eq!(m1, m2);
        }
    }
}
