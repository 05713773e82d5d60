//! Engine-wide laws, stated and proved against the move-generation and
//! move-execution contracts.

use vstd::prelude::*;
use crate::piece::{Coordinate, Piece, PieceKind, coord_idx, on_board};
use crate::board::{Board, at_xy};
use crate::moves::{
    castle_move, ep_move, filtered_move, leaves_king_checked, valid_move, move_ep,
    lemma_candidate_props, lemma_first_occupied_some,
};

verus! {

/// On a well-formed board, every piece's `square` field equals the square it
/// stands on: reading any occupied square hands back a piece that names that
/// very square. Together with the well-formedness guarantee of `move_piece`,
/// `place_piece` and `remove_piece`, the two can never diverge across any
/// sequence of moves.
pub proof fn lemma_placement_consistent(b: Board, c: Coordinate)
    requires
        b.wf(),
        on_board(c),
        at_xy(b@, c.0 as int, c.1 as int) is Some,
    ensures
        at_xy(b@, c.0 as int, c.1 as int)->Some_0.square == c,
{
    let p = at_xy(b@, c.0 as int, c.1 as int)->Some_0;
    assert(b@[coord_idx(c)] is Some);
    assert(coord_idx(p.square) == coord_idx(c));
    assert(p.square.0 == c.0 && p.square.1 == c.1);
}

/// A legal move that is neither a castling destination nor an en-passant
/// capture never leaves the mover's own king checked: it survived the
/// simulation filter. The two exceptions are deliberate: en passant is added
/// without the simulation, and castling destinations are vetted by their own
/// synthetic-king test on the unmoved board instead.
pub proof fn lemma_valid_move_self_check_safe(b: Board, p: Piece, c: Coordinate)
    requires
        valid_move(b, p, c),
        !castle_move(b, p, c),
        !ep_move(b, p, c),
    ensures
        !leaves_king_checked(b@, p, c),
{
}

/// For every piece other than a king or a pawn, every legal move survives
/// the self-check simulation: castling and en passant concern only kings
/// and pawns.
pub proof fn lemma_piece_moves_self_check_safe(b: Board, p: Piece, c: Coordinate)
    requires
        valid_move(b, p, c),
        p.kind != PieceKind::KING,
        p.kind != PieceKind::PAWN,
    ensures
        !leaves_king_checked(b@, p, c),
{
}

/// Legal move generation is a function of the position alone: any two move
/// lists that satisfy the `get_valid_moves` contract for the same board and
/// piece hold exactly the same destinations. Two consecutive calls on an
/// unmutated board therefore return identical sets.
pub proof fn lemma_valid_moves_deterministic(
    b: Board,
    p: Piece,
    r1: Seq<Coordinate>,
    r2: Seq<Coordinate>,
)
    requires
        forall|c: Coordinate| #[trigger] r1.contains(c) <==> valid_move(b, p, c),
        forall|c: Coordinate| #[trigger] r2.contains(c) <==> valid_move(b, p, c),
    ensures
        r1.to_set() == r2.to_set(),
{
    assert(r1.to_set() =~= r2.to_set());
}

/// Every legal destination lies on the board: out-of-range coordinates only
/// ever arise transiently during generation and are filtered before being
/// returned.
pub proof fn lemma_valid_move_on_board(b: Board, p: Piece, c: Coordinate)
    requires
        b.wf(),
        on_board(p.square),
        valid_move(b, p, c),
    ensures
        on_board(c),
{
    if filtered_move(b, p, c) {
        lemma_candidate_props(b@, p, c.0 as int, c.1 as int);
    } else if castle_move(b, p, c) {
        let kx = p.square.0 as int;
        let rank = p.square.1 as int;
        if c.0 as int == kx - 2 {
            let g = crate::moves::first_occupied(b@, kx - 3, -1, rank)->Some_0;
            lemma_first_occupied_some(b@, kx - 3, -1, rank, g);
        } else {
            let g = crate::moves::first_occupied(b@, kx + 3, 1, rank)->Some_0;
            lemma_first_occupied_some(b@, kx + 3, 1, rank, g);
        }
    } else {
    }
}

/// Exactly when a pawn moves more than one rank does the committed move
/// record an en-passant file, and it records the destination file; every
/// other move clears it. The file thus never survives more than one ply.
pub proof fn lemma_ep_file_lifecycle(v: Seq<Option<Piece>>, from: Coordinate, to: Coordinate)
    requires
        v[coord_idx(from)] is Some,
    ensures
        move_ep(v, from, to) == if v[coord_idx(from)]->Some_0.kind == PieceKind::PAWN && (to.1
            - from.1 > 1 || from.1 - to.1 > 1) {
            Some(to.0)
        } else {
            None::<i8>
        },
{
}

} // verus!
