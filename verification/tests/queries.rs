use chess_engine::board::Board;
use chess_engine::piece::{Coordinate, Piece, PieceColor, PieceKind};

fn wipe(b: &mut Board) {
    for x in 0..8i8 {
        for y in 0..8i8 {
            b.remove_piece(Coordinate(x, y));
        }
    }
}

fn put(b: &mut Board, kind: PieceKind, color: PieceColor, x: i8, y: i8, moved: bool) {
    b.place_piece(Piece { kind, color, square: Coordinate(x, y), moved });
}

#[test]
fn promotion_square_scans_rank_seven_first() {
    let mut b = Board::new();
    wipe(&mut b);
    put(&mut b, PieceKind::KING, PieceColor::WHITE, 4, 3, true);
    put(&mut b, PieceKind::KING, PieceColor::BLACK, 4, 5, true);
    assert!(b.promotion_square().is_none());

    put(&mut b, PieceKind::PAWN, PieceColor::BLACK, 6, 0, true);
    assert_eq!(b.promotion_square(), Some(Coordinate(6, 0)));

    // A pawn on rank 7 takes precedence over one on rank 0.
    put(&mut b, PieceKind::PAWN, PieceColor::WHITE, 2, 7, true);
    assert_eq!(b.promotion_square(), Some(Coordinate(2, 7)));

    // Within a rank, the lowest file wins.
    put(&mut b, PieceKind::PAWN, PieceColor::WHITE, 1, 7, true);
    assert_eq!(b.promotion_square(), Some(Coordinate(1, 7)));

    // Non-pawns on the back rank are ignored.
    b.remove_piece(Coordinate(1, 7));
    b.remove_piece(Coordinate(2, 7));
    b.remove_piece(Coordinate(6, 0));
    put(&mut b, PieceKind::QUEEN, PieceColor::WHITE, 0, 7, true);
    assert!(b.promotion_square().is_none());
}

#[test]
fn queen_attacks_rays_and_diagonals() {
    let mut b = Board::new();
    wipe(&mut b);
    put(&mut b, PieceKind::KING, PieceColor::WHITE, 0, 0, true);
    put(&mut b, PieceKind::KING, PieceColor::BLACK, 7, 7, true);
    put(&mut b, PieceKind::QUEEN, PieceColor::WHITE, 3, 3, true);
    put(&mut b, PieceKind::PAWN, PieceColor::BLACK, 3, 5, true);
    put(&mut b, PieceKind::PAWN, PieceColor::WHITE, 5, 5, true);
    let q = b.piece_at(Coordinate(3, 3)).unwrap();
    let look = b.looking_at(&q);
    // File: up to and including the black pawn, not beyond.
    assert!(look.contains(&Coordinate(3, 4)));
    assert!(look.contains(&Coordinate(3, 5)));
    assert!(!look.contains(&Coordinate(3, 6)));
    // Rising diagonal: up to the white pawn, excluded.
    assert!(look.contains(&Coordinate(4, 4)));
    assert!(!look.contains(&Coordinate(5, 5)));
    // Falling diagonal and rank are open.
    assert!(look.contains(&Coordinate(6, 0)));
    assert!(look.contains(&Coordinate(0, 3)));
    // A queen never attacks a knight-shaped square.
    assert!(!look.contains(&Coordinate(4, 5)));
}

#[test]
fn bishop_blocked_by_own_pawn_at_start() {
    let b = Board::new();
    let bishop = b.piece_at(Coordinate(2, 0)).unwrap();
    assert!(b.looking_at(&bishop).is_empty());
    assert!(b.get_valid_moves(&bishop).is_empty());
}

#[test]
fn king_step_attacks_adjacent_only() {
    let mut b = Board::new();
    wipe(&mut b);
    put(&mut b, PieceKind::KING, PieceColor::WHITE, 3, 3, true);
    put(&mut b, PieceKind::KING, PieceColor::BLACK, 7, 7, true);
    let k = b.piece_at(Coordinate(3, 3)).unwrap();
    let look = b.looking_at(&k);
    assert_eq!(look.len(), 8);
    for c in [
        Coordinate(2, 2),
        Coordinate(2, 3),
        Coordinate(2, 4),
        Coordinate(3, 2),
        Coordinate(3, 4),
        Coordinate(4, 2),
        Coordinate(4, 3),
        Coordinate(4, 4),
    ] {
        assert!(look.contains(&c));
    }
}

#[test]
fn scholars_style_mate_by_real_moves() {
    // This board mirrors the familiar one (king on the d-file, queen on the
    // e-file), so the scholar's-mate pattern lands on c7 = (2, 6) instead of
    // f7, with the queen swinging out to a5 = (0, 4) and the bishop to
    // f4 = (5, 3).
    let mut b = Board::new();
    let mut play = |b: &mut Board, from: Coordinate, to: Coordinate| {
        let p = b.piece_at(from).expect("scripted origin is occupied");
        assert!(p.color == b.on_move);
        assert!(b.get_valid_moves(&p).contains(&to), "scripted move is legal");
        b.move_piece(&from, &to);
        b.flip_on_move();
    };
    // Both king pawns step out two squares.
    play(&mut b, Coordinate(3, 1), Coordinate(3, 3));
    play(&mut b, Coordinate(3, 6), Coordinate(3, 4));
    // The white queen comes out along the opened diagonal.
    play(&mut b, Coordinate(4, 0), Coordinate(0, 4));
    // Black develops a knight, ignoring the threat.
    play(&mut b, Coordinate(6, 7), Coordinate(5, 5));
    // The white bishop takes aim at the weak pawn beside the black king.
    play(&mut b, Coordinate(2, 0), Coordinate(5, 3));
    // Black develops the other knight: the losing blunder.
    play(&mut b, Coordinate(1, 7), Coordinate(2, 5));
    // The queen captures the pawn beside the king, defended by the bishop.
    play(&mut b, Coordinate(0, 4), Coordinate(2, 6));

    let black_king = b.piece_at(Coordinate(3, 7)).unwrap();
    assert!(b.is_checked(&black_king));
    assert!(!b.has_moves(PieceColor::BLACK));
    assert!(b.has_moves(PieceColor::WHITE));
}

#[test]
fn placement_consistent_across_long_sequence() {
    let mut b = Board::new();
    let script = [
        (Coordinate(4, 1), Coordinate(4, 3)),
        (Coordinate(4, 6), Coordinate(4, 4)),
        (Coordinate(6, 0), Coordinate(5, 2)),
        (Coordinate(1, 7), Coordinate(2, 5)),
        (Coordinate(5, 0), Coordinate(1, 4)),
        (Coordinate(6, 7), Coordinate(5, 5)),
    ];
    for (from, to) in script {
        let p = b.piece_at(from).expect("scripted origin is occupied");
        assert!(p.color == b.on_move, "script follows turn order");
        assert!(b.get_valid_moves(&p).contains(&to), "scripted move is legal");
        b.move_piece(&from, &to);
        b.flip_on_move();
        for x in 0..8i8 {
            for y in 0..8i8 {
                if let Some(q) = b.piece_at(Coordinate(x, y)) {
                    assert!(q.square == Coordinate(x, y));
                }
            }
        }
    }
    assert_eq!(b.piece_count(), 32);
    assert_eq!(b.turn_number, 6);
}

#[test]
fn returned_moves_never_leave_own_king_checked() {
    // Simulate every move offered in an ordinary middlegame position and
    // confirm the mover's king is never left in check. (The deliberate
    // en-passant exception is exercised by its own test; no en-passant
    // capture is available here.)
    let mut b = Board::new();
    b.move_piece(&Coordinate(3, 1), &Coordinate(3, 3));
    b.flip_on_move();
    b.move_piece(&Coordinate(3, 6), &Coordinate(3, 4));
    b.flip_on_move();
    b.move_piece(&Coordinate(4, 0), &Coordinate(1, 3));
    b.flip_on_move();
    assert!(b.en_pessant_file.is_none());

    for x in 0..8i8 {
        for y in 0..8i8 {
            let p = match b.piece_at(Coordinate(x, y)) {
                Some(p) if p.color == b.on_move => p,
                _ => continue,
            };
            for mv in b.get_valid_moves(&p) {
                let mut sim = b.clone();
                sim.move_piece(&Coordinate(x, y), &mv);
                let mut king = None;
                for kx in 0..8i8 {
                    for ky in 0..8i8 {
                        if let Some(q) = sim.piece_at(Coordinate(kx, ky)) {
                            if q.kind == PieceKind::KING && q.color == p.color {
                                king = Some(q);
                            }
                        }
                    }
                }
                assert!(!sim.is_checked(&king.expect("king survives")));
            }
        }
    }
}
