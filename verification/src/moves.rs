//! Legal move generation and move execution.
//!
//! A candidate move (attack square or pawn push) is legal when simulating it
//! on a copy of the board leaves the mover's own king unchecked. Castling and
//! en passant are added by their own rules: castling re-uses the filtered
//! king moves and a rook scan, and en passant is added without the self-check
//! simulation, exactly as the rules of this engine are stated.

use vstd::prelude::*;
use crate::piece::{Coordinate, Piece, PieceColor, PieceKind, coord_idx, on_board, on_board_xy, xy_idx};
use crate::board::{Board, at_xy};
use crate::attack::{attacks_xy, same_color_at, square_attacked};

verus! {

broadcast use vstd::seq_lib::lemma_seq_contains_after_push;

/// A forward (non-capturing) pawn push from `p.square` to (x, y): one step
/// onto an empty on-board square, or additionally two steps when the pawn
/// has never moved and both squares are empty.
pub open spec fn pawn_push(v: Seq<Option<Piece>>, p: Piece, x: int, y: int) -> bool {
    let sx = p.square.0 as int;
    let sy = p.square.1 as int;
    let d = p.color.forward();
    p.kind == PieceKind::PAWN && x == sx && {
        ||| (y == sy + d && 0 <= sy + d <= 7 && at_xy(v, sx, sy + d) is None)
        ||| (y == sy + d + d && !p.moved && 0 <= sy + d <= 7 && at_xy(v, sx, sy + d) is None && 0
            <= sy + d + d <= 7 && at_xy(v, sx, sy + d + d) is None)
    }
}

/// A candidate destination before self-check filtering: an attacked square
/// or a pawn push.
pub open spec fn candidate_move(v: Seq<Option<Piece>>, p: Piece, x: int, y: int) -> bool {
    attacks_xy(v, p, x, y) || pawn_push(v, p, x, y)
}

/// `p` moved (unchanged except for its square) onto `c` in a what-if copy.
pub open spec fn sim_piece(p: Piece, c: Coordinate) -> Piece {
    Piece { kind: p.kind, color: p.color, square: c, moved: p.moved }
}

/// The position after simulating the move of `p` to `c`: the origin square
/// is emptied and a copy of `p` standing on `c` is placed there.
pub open spec fn sim_view(v: Seq<Option<Piece>>, p: Piece, c: Coordinate) -> Seq<Option<Piece>> {
    v.update(coord_idx(p.square), None).update(coord_idx(c), Some(sim_piece(p, c)))
}

/// Square `i` holds a king of `color`.
pub open spec fn king_at(v: Seq<Option<Piece>>, i: int, color: PieceColor) -> bool {
    0 <= i < 64 && (v[i] matches Some(q) && q.kind == PieceKind::KING && q.color == color)
}

/// Some square holds a king of `color`.
pub open spec fn has_king(v: Seq<Option<Piece>>, color: PieceColor) -> bool {
    exists|i: int| king_at(v, i, color)
}

/// The square index of a king of `color` (meaningful when one exists).
pub open spec fn king_idx(v: Seq<Option<Piece>>, color: PieceColor) -> int {
    choose|i: int| king_at(v, i, color)
}

/// Exactly one king of `color` stands on the board. King-dependent queries
/// (self-check filtering, castling safety) assume this.
pub open spec fn unique_king(v: Seq<Option<Piece>>, color: PieceColor) -> bool {
    &&& has_king(v, color)
    &&& forall|i: int, j: int|
        #[trigger] king_at(v, i, color) && #[trigger] king_at(v, j, color) ==> i == j
}

/// Simulating the move of `p` to `c` leaves the king of `p`'s color attacked.
pub open spec fn leaves_king_checked(v: Seq<Option<Piece>>, p: Piece, c: Coordinate) -> bool {
    let w = sim_view(v, p, c);
    let ksq = if p.kind == PieceKind::KING {
        c
    } else {
        v[king_idx(v, p.color)]->Some_0.square
    };
    square_attacked(w, ksq.0 as int, ksq.1 as int, p.color.opposite())
}

/// A candidate move that survives the self-check simulation.
pub open spec fn filtered_move(b: Board, p: Piece, c: Coordinate) -> bool {
    candidate_move(b@, p, c.0 as int, c.1 as int) && !leaves_king_checked(b@, p, c)
}

/// The file of the first occupied square on `rank`, starting at file `x` and
/// stepping by `d` (one of -1, 1), `None` when the walk leaves the board
/// without meeting a piece.
pub open spec fn first_occupied(v: Seq<Option<Piece>>, x: int, d: int, rank: int) -> Option<int>
    decreases (if d == 1 { 8 - x } else { x + 1 }),
{
    if !(d == 1 || d == -1) || !on_board_xy(x, rank) {
        None
    } else if at_xy(v, x, rank) is Some {
        Some(x)
    } else {
        first_occupied(v, x + d, d, rank)
    }
}

/// When the scan finds a square, that square is on the board, occupied, and
/// lies on the scanned side of the starting file.
pub proof fn lemma_first_occupied_some(v: Seq<Option<Piece>>, x: int, d: int, rank: int, f: int)
    requires
        first_occupied(v, x, d, rank) == Some(f),
    ensures
        on_board_xy(f, rank),
        at_xy(v, f, rank) is Some,
        d == 1 ==> f >= x,
        d == -1 ==> f <= x,
    decreases (if d == 1 { 8 - x } else { x + 1 }),
{
    if !(d == 1 || d == -1) || !on_board_xy(x, rank) {
    } else if at_xy(v, x, rank) is Some {
    } else {
        lemma_first_occupied_some(v, x + d, d, rank, f);
    }
}

/// One leg of the castling test for a king `p` and horizontal direction `d`:
/// the adjacent square is already a legal (simulation-filtered) king move,
/// the two-away square is empty, a king standing on the two-away square would
/// not be checked, and the first occupied square scanned outward from three
/// away is a never-moved rook of the king's color.
pub open spec fn castle_side_ok(b: Board, p: Piece, d: int) -> bool {
    let kx = p.square.0 as int;
    let rank = p.square.1 as int;
    &&& filtered_move(b, p, Coordinate((kx + d) as i8, p.square.1))
    &&& at_xy(b@, kx + d + d, rank) is None
    &&& !square_attacked(b@, kx + d + d, rank, p.color.opposite())
    &&& (first_occupied(b@, kx + d + d + d, d, rank) matches Some(f) && (at_xy(
        b@,
        f,
        rank,
    ) matches Some(q) && q.kind == PieceKind::ROOK && q.color == p.color && !q.moved))
}

/// A castling destination: a never-moved, currently unchecked king steps two
/// files sideways, subject to `castle_side_ok` for that side.
pub open spec fn castle_move(b: Board, p: Piece, c: Coordinate) -> bool {
    &&& p.kind == PieceKind::KING
    &&& !p.moved
    &&& !square_attacked(b@, p.square.0 as int, p.square.1 as int, p.color.opposite())
    &&& c.1 == p.square.1
    &&& {
        ||| (c.0 as int == p.square.0 as int - 2 && castle_side_ok(b, p, -1))
        ||| (c.0 as int == p.square.0 as int + 2 && castle_side_ok(b, p, 1))
    }
}

/// An en-passant capture: a pawn standing on its color's en-passant rank
/// (rank 4 for white, rank 3 for black) moves one square diagonally forward
/// onto the recorded en-passant file. No self-check simulation is applied to
/// this branch.
pub open spec fn ep_move(b: Board, p: Piece, c: Coordinate) -> bool {
    let sx = p.square.0 as int;
    let sy = p.square.1 as int;
    &&& p.kind == PieceKind::PAWN
    &&& (b.en_pessant_file matches Some(f) && {
        &&& sy == if p.color == PieceColor::WHITE {
            4int
        } else {
            3int
        }
        &&& c.1 as int == sy + p.color.forward()
        &&& (c.0 as int == sx - 1 || c.0 as int == sx + 1)
        &&& f as int == c.0 as int
    })
}

/// A legal destination for `p`: a simulation-filtered candidate, a castling
/// destination, or an en-passant capture.
pub open spec fn valid_move(b: Board, p: Piece, c: Coordinate) -> bool {
    ||| filtered_move(b, p, c)
    ||| castle_move(b, p, c)
    ||| ep_move(b, p, c)
}

/// `p` as it stands after being moved to `to`: same kind and color, standing
/// on `to`, marked as having moved.
pub open spec fn moved_piece(p: Piece, to: Coordinate) -> Piece {
    Piece { kind: p.kind, color: p.color, square: to, moved: true }
}

/// The placement after committing the move `from` -> `to`:
/// the piece at `from` (marked moved) is put on `to` and removed from `from`;
/// if it is a king that moved more than one file, the first piece found
/// scanning outward past `to` is relocated (marked moved) to the square the
/// king passed over; if it is a pawn that changed file onto an empty square,
/// the passed-over square (same file as `to`, same rank as `from`) is emptied.
pub open spec fn move_view(v: Seq<Option<Piece>>, from: Coordinate, to: Coordinate) -> Seq<
    Option<Piece>,
> {
    let p = v[coord_idx(from)]->Some_0;
    let was_capture = at_xy(v, to.0 as int, to.1 as int) is Some;
    let v1 = v.update(coord_idx(to), Some(moved_piece(p, to))).update(coord_idx(from), None);
    let v2 = if p.kind == PieceKind::KING && (to.0 - from.0 > 1 || from.0 - to.0 > 1) {
        let d: int = if to.0 > from.0 {
            1
        } else {
            -1
        };
        match first_occupied(v1, to.0 + d, d, to.1 as int) {
            Some(f) => {
                let r = v1[xy_idx(f, to.1 as int)]->Some_0;
                let target = Coordinate((from.0 + d) as i8, from.1);
                v1.update(coord_idx(target), Some(moved_piece(r, target))).update(
                    xy_idx(f, to.1 as int),
                    None,
                )
            },
            None => v1,
        }
    } else {
        v1
    };
    if p.kind == PieceKind::PAWN && !was_capture && from.0 != to.0 {
        v2.update(xy_idx(to.0 as int, from.1 as int), None)
    } else {
        v2
    }
}

/// The en-passant file after committing the move `from` -> `to`: cleared
/// unconditionally, then set to the destination file when a pawn moved more
/// than one rank.
pub open spec fn move_ep(v: Seq<Option<Piece>>, from: Coordinate, to: Coordinate) -> Option<i8> {
    let p = v[coord_idx(from)]->Some_0;
    if p.kind == PieceKind::PAWN && (to.1 - from.1 > 1 || from.1 - to.1 > 1) {
        Some(to.0)
    } else {
        None
    }
}

/// A candidate destination is on the board and never holds a piece of the
/// mover's own color.
pub proof fn lemma_candidate_props(v: Seq<Option<Piece>>, p: Piece, x: int, y: int)
    requires
        on_board(p.square),
        candidate_move(v, p, x, y),
    ensures
        on_board_xy(x, y),
        !same_color_at(v, x, y, p.color),
{
}

impl Board {
    /// The candidate destinations of `piece` before self-check filtering:
    /// its attack set, plus (for pawns) the forward pushes.
    #[verifier::loop_isolation(false)]
    fn candidate_moves(&self, piece: &Piece) -> (cand: Vec<Coordinate>)
        requires
            self.wf(),
            on_board(piece.square),
        ensures
            forall|c: Coordinate| #[trigger]
                cand@.contains(c) <==> candidate_move(self@, *piece, c.0 as int, c.1 as int),
    {
        let mut cand = self.looking_at(piece);
        if piece.kind == PieceKind::PAWN {
            let d: i8 = if piece.color == PieceColor::WHITE {
                1
            } else {
                -1
            };
            let y1 = piece.square.1 + d;
            if 0 <= y1 && y1 <= 7 {
                if self.sq_get(piece.square.0 as i32, y1 as i32).is_none() {
                    cand.push(Coordinate(piece.square.0, y1));
                    let y2 = y1 + d;
                    if !piece.moved && 0 <= y2 && y2 <= 7 {
                        if self.sq_get(piece.square.0 as i32, y2 as i32).is_none() {
                            cand.push(Coordinate(piece.square.0, y2));
                        }
                    }
                }
            }
        }
        cand
    }

    /// A what-if copy of the board with `piece` moved from its square to `c`.
    #[verifier::loop_isolation(false)]
    fn simulated(&self, piece: &Piece, c: Coordinate) -> (sim: Board)
        requires
            self.wf(),
            on_board(piece.square),
            on_board(c),
        ensures
            sim@ == sim_view(self@, *piece, c),
            sim.wf(),
            sim.en_pessant_file == self.en_pessant_file,
    {
        let mut v: Vec<Option<Piece>> = Vec::new();
        let mut i: usize = 0;
        while i < 64
            invariant
                0 <= i <= 64,
                v@.len() == i,
                forall|j: int| 0 <= j < i ==> v@[j] == self@[j],
            decreases 64 - i,
        {
            v.push(self.pieces[i]);
            i = i + 1;
        }
        let mut sim = Board {
            pieces: v,
            on_move: self.on_move,
            turn_number: self.turn_number,
            en_pessant_file: self.en_pessant_file,
        };
        proof {
            assert(sim@ =~= self@);
        }
        sim.remove_piece(piece.square);
        sim.place_piece(Piece { kind: piece.kind, color: piece.color, square: c, moved: piece.moved });
        sim
    }

    /// The king of `color`, assuming exactly one stands on the board.
    fn find_king(&self, color: PieceColor) -> (k: Piece)
        requires
            self.wf(),
            unique_king(self@, color),
        ensures
            k.kind == PieceKind::KING,
            k.color == color,
            on_board(k.square),
            coord_idx(k.square) == king_idx(self@, color),
            self@[king_idx(self@, color)] == Some(k),
    {
        proof {
            assert(king_at(self@, king_idx(self@, color), color));
        }
        let mut i: usize = 0;
        while i < 64
            invariant
                self.wf(),
                unique_king(self@, color),
                0 <= i <= 64,
                forall|j: int| 0 <= j < i ==> !king_at(self@, j, color),
            decreases 64 - i,
        {
            if let Some(q) = self.pieces[i] {
                if q.kind == PieceKind::KING && q.color == color {
                    proof {
                        assert(king_at(self@, i as int, color));
                        assert(king_at(self@, king_idx(self@, color), color));
                    }
                    return q;
                }
            }
            i = i + 1;
        }
        proof {
            assert(king_at(self@, king_idx(self@, color), color));
            assert(false);
        }
        vstd::pervasive::unreached()
    }

    /// Whether moving `piece` to `c` would leave its own king checked,
    /// judged by simulating the move on a copy of the board and testing
    /// check against the king found there.
    fn leaves_checked(&self, piece: &Piece, c: Coordinate) -> (r: bool)
        requires
            self.wf(),
            on_board(piece.square),
            on_board(c),
            self@[coord_idx(piece.square)] == Some(*piece),
            unique_king(self@, piece.color),
            !same_color_at(self@, c.0 as int, c.1 as int, piece.color),
        ensures
            r == leaves_king_checked(self@, *piece, c),
    {
        let sim = self.simulated(piece, c);
        if piece.kind == PieceKind::KING {
            let k = Piece { kind: piece.kind, color: piece.color, square: c, moved: piece.moved };
            sim.is_checked(&k)
        } else {
            proof {
                let kidx = king_idx(self@, piece.color);
                assert(king_at(self@, kidx, piece.color));
                assert(kidx != coord_idx(piece.square));
                assert(self@[coord_idx(c)] == at_xy(self@, c.0 as int, c.1 as int));
                assert(kidx != coord_idx(c));
                assert(coord_idx(piece.square) != coord_idx(c));
                assert(sim@[kidx] == self@[kidx]);
                assert(king_at(sim@, kidx, piece.color));
                assert forall|i: int, j: int|
                    #[trigger] king_at(sim@, i, piece.color) && #[trigger] king_at(
                        sim@,
                        j,
                        piece.color,
                    ) implies i == j by {
                    assert(i != coord_idx(piece.square) && i != coord_idx(c) ==> sim@[i]
                        == self@[i]);
                    assert(j != coord_idx(piece.square) && j != coord_idx(c) ==> sim@[j]
                        == self@[j]);
                    assert(king_at(self@, i, piece.color));
                    assert(king_at(self@, j, piece.color));
                }
                assert(unique_king(sim@, piece.color));
                assert(king_at(sim@, king_idx(sim@, piece.color), piece.color));
                assert(king_idx(sim@, piece.color) == kidx);
            }
            let k = sim.find_king(piece.color);
            sim.is_checked(&k)
        }
    }

    /// The file of the first occupied square on `rank` scanning from `x0`
    /// in direction `d`, `None` when the scan runs off the board.
    #[verifier::loop_isolation(false)]
    fn scan_occupied(&self, x0: i8, d: i8, rank: i8) -> (r: Option<i8>)
        requires
            self.wf(),
            d == 1 || d == -1,
            0 <= rank <= 7,
            -3 <= x0 <= 10,
        ensures
            first_occupied(self@, x0 as int, d as int, rank as int) == match r {
                Some(f) => Some(f as int),
                None => None::<int>,
            },
    {
        let mut x = x0;
        while 0 <= x && x <= 7
            invariant
                -3 <= x <= 10,
                first_occupied(self@, x0 as int, d as int, rank as int) == first_occupied(
                    self@,
                    x as int,
                    d as int,
                    rank as int,
                ),
            decreases (if d == 1 {
                8 - x as int
            } else {
                x as int + 1
            }),
        {
            if self.sq_get(x as i32, rank as i32).is_some() {
                return Some(x);
            }
            x = x + d;
        }
        None
    }

    /// Whether `filtered` (the simulation-filtered moves of the king `piece`)
    /// admits castling in horizontal direction `d`.
    fn castle_dir_ok(&self, piece: &Piece, d: i8, filtered: &Vec<Coordinate>) -> (r: bool)
        requires
            self.wf(),
            on_board(piece.square),
            piece.kind == PieceKind::KING,
            d == 1 || d == -1,
            forall|c: Coordinate| #[trigger]
                filtered@.contains(c) <==> filtered_move(*self, *piece, c),
        ensures
            r == castle_side_ok(*self, *piece, d as int),
    {
        let sq = piece.square;
        let adj = Coordinate(sq.0 + d, sq.1);
        if !contains_coord(filtered, adj) {
            return false;
        }
        let two: i8 = sq.0 + d + d;
        if self.sq_get(two as i32, sq.1 as i32).is_some() {
            return false;
        }
        let synth = Piece {
            kind: PieceKind::KING,
            color: piece.color,
            square: Coordinate(two, sq.1),
            moved: false,
        };
        if self.is_checked(&synth) {
            return false;
        }
        match self.scan_occupied(two + d, d, sq.1) {
            Some(f) => {
                proof {
                    lemma_first_occupied_some(
                        self@,
                        two as int + d as int,
                        d as int,
                        sq.1 as int,
                        f as int,
                    );
                }
                let q = match self.sq_get(f as i32, sq.1 as i32) {
                    Some(q) => q,
                    None => vstd::pervasive::unreached(),
                };
                q.kind == PieceKind::ROOK && q.color == piece.color && !q.moved
            },
            None => false,
        }
    }

    /// The fully legal destinations of `piece` in the current position:
    /// candidates filtered by the self-check simulation, castling
    /// destinations, and en-passant captures.
    #[verifier::loop_isolation(false)]
    pub fn get_valid_moves(&self, piece: &Piece) -> (moves: Vec<Coordinate>)
        requires
            self.wf(),
            on_board(piece.square),
            self@[coord_idx(piece.square)] == Some(*piece),
            unique_king(self@, piece.color),
        ensures
            forall|c: Coordinate| #[trigger] moves@.contains(c) <==> valid_move(*self, *piece, c),
    {
        let cand = self.candidate_moves(piece);
        let mut moves: Vec<Coordinate> = Vec::new();
        let mut i: usize = 0;
        while i < cand.len()
            invariant
                0 <= i <= cand@.len(),
                forall|c: Coordinate| #[trigger]
                    moves@.contains(c) <==> (cand@.subrange(0, i as int).contains(c)
                        && !leaves_king_checked(self@, *piece, c)),
            decreases cand@.len() - i,
        {
            let c = cand[i];
            proof {
                assert(cand@.contains(c));
                lemma_candidate_props(self@, *piece, c.0 as int, c.1 as int);
            }
            if !self.leaves_checked(piece, c) {
                moves.push(c);
            }
            proof {
                assert(cand@.subrange(0, i + 1 as int) =~= cand@.subrange(0, i as int).push(c));
            }
            i = i + 1;
        }
        proof {
            assert(cand@.subrange(0, cand@.len() as int) =~= cand@);
            assert forall|c: Coordinate| #[trigger] moves@.contains(c) <==> filtered_move(
                *self,
                *piece,
                c,
            ) by {}
        }
        if piece.kind == PieceKind::KING && !piece.moved {
            if !self.is_checked(piece) {
                let ok_minus = self.castle_dir_ok(piece, -1, &moves);
                let ok_plus = self.castle_dir_ok(piece, 1, &moves);
                let c_minus = Coordinate(piece.square.0 - 2, piece.square.1);
                let c_plus = Coordinate(piece.square.0 + 2, piece.square.1);
                if ok_minus {
                    moves.push(c_minus);
                }
                if ok_plus {
                    moves.push(c_plus);
                }
                proof {
                    assert forall|c: Coordinate| #[trigger] moves@.contains(c) <==> (filtered_move(
                        *self,
                        *piece,
                        c,
                    ) || castle_move(*self, *piece, c)) by {
                        if c == c_minus && ok_minus {
                            assert(castle_move(*self, *piece, c));
                        }
                        if c == c_plus && ok_plus {
                            assert(castle_move(*self, *piece, c));
                        }
                        if castle_move(*self, *piece, c) {
                            if c.0 as int == piece.square.0 as int - 2 && castle_side_ok(
                                *self,
                                *piece,
                                -1,
                            ) {
                                assert(c == c_minus);
                            } else {
                                assert(c == c_plus);
                            }
                        }
                    }
                }
            } else {
                proof {
                    assert forall|c: Coordinate| !castle_move(*self, *piece, c) by {}
                }
            }
        } else {
            proof {
                assert forall|c: Coordinate| !castle_move(*self, *piece, c) by {}
            }
        }
        if piece.kind == PieceKind::PAWN {
            if let Some(f) = self.en_pessant_file {
                let eprank: i8 = if piece.color == PieceColor::WHITE {
                    4
                } else {
                    3
                };
                if piece.square.1 == eprank {
                    let d: i8 = if piece.color == PieceColor::WHITE {
                        1
                    } else {
                        -1
                    };
                    if f == piece.square.0 - 1 {
                        moves.push(Coordinate(piece.square.0 - 1, piece.square.1 + d));
                    }
                    if f == piece.square.0 + 1 {
                        moves.push(Coordinate(piece.square.0 + 1, piece.square.1 + d));
                    }
                }
            }
        }
        moves
    }

    /// Commit the move `from` -> `to`, assumed legal (drawn from
    /// `get_valid_moves`); no legality re-check is performed. Marks the piece
    /// moved, relocates the castling rook, removes an en-passant victim, and
    /// maintains the en-passant file for exactly one ply.
    pub fn move_piece(&mut self, from: &Coordinate, to: &Coordinate)
        requires
            old(self).wf(),
            on_board(*from),
            on_board(*to),
            old(self)@[coord_idx(*from)] is Some,
            *from != *to,
        ensures
            final(self)@ == move_view(old(self)@, *from, *to),
            final(self).en_pessant_file == move_ep(old(self)@, *from, *to),
            final(self).on_move == old(self).on_move,
            final(self).turn_number == old(self).turn_number,
            final(self).wf(),
    {
        let from = *from;
        let to = *to;
        let mut piece = match self.piece_at(from) {
            Some(p) => p,
            None => vstd::pervasive::unreached(),
        };
        piece.moved = true;
        piece.square = to;
        let capture = self.piece_at(to).is_some();
        self.place_piece(piece);
        self.remove_piece(from);
        if piece.kind == PieceKind::KING && (to.0 - from.0 > 1 || from.0 - to.0 > 1) {
            let d: i8 = if to.0 > from.0 {
                1
            } else {
                -1
            };
            match self.scan_occupied(to.0 + d, d, to.1) {
                Some(f) => {
                    proof {
                        lemma_first_occupied_some(
                            self@,
                            to.0 as int + d as int,
                            d as int,
                            to.1 as int,
                            f as int,
                        );
                    }
                    let mut r = match self.sq_get(f as i32, to.1 as i32) {
                        Some(q) => q,
                        None => vstd::pervasive::unreached(),
                    };
                    r.moved = true;
                    r.square = Coordinate(from.0 + d, from.1);
                    self.place_piece(r);
                    self.remove_piece(Coordinate(f, to.1));
                },
                None => {},
            }
        }
        if piece.kind == PieceKind::PAWN && !capture && from.0 != to.0 {
            self.remove_piece(Coordinate(to.0, from.1));
        }
        self.en_pessant_file = None;
        if piece.kind == PieceKind::PAWN && (to.1 - from.1 > 1 || from.1 - to.1 > 1) {
            self.en_pessant_file = Some(to.0);
        }
    }

    /// Whether any piece of `color` has at least one legal move. Callers
    /// combine this with `is_checked` to label checkmate and stalemate.
    #[verifier::loop_isolation(false)]
    pub fn has_moves(&self, color: PieceColor) -> (r: bool)
        requires
            self.wf(),
            unique_king(self@, color),
        ensures
            r == color_has_moves(*self, color),
    {
        let mut i: usize = 0;
        while i < 64
            invariant
                0 <= i <= 64,
                forall|k: int|
                    0 <= k < i ==> !((#[trigger] self@[k]) matches Some(p) && p.color == color
                        && exists|c: Coordinate| valid_move(*self, p, c)),
            decreases 64 - i,
        {
            if let Some(p) = self.pieces[i] {
                if p.color == color {
                    let mv = self.get_valid_moves(&p);
                    if mv.len() > 0 {
                        let c0 = mv[0];
                        proof {
                            assert(mv@.contains(c0));
                            assert(valid_move(*self, p, c0));
                        }
                        return true;
                    }
                    proof {
                        assert forall|c: Coordinate| !valid_move(*self, p, c) by {
                            if valid_move(*self, p, c) {
                                assert(mv@.contains(c));
                            }
                        }
                    }
                }
            }
            i = i + 1;
        }
        false
    }
}

/// Some piece of `color` has a legal move in the current position.
pub open spec fn color_has_moves(b: Board, color: PieceColor) -> bool {
    exists|i: int|
        0 <= i < 64 && ((#[trigger] b@[i]) matches Some(p) && p.color == color && exists|
            c: Coordinate,
        | valid_move(b, p, c))
}

/// Whether `v` holds the coordinate `c`.
fn contains_coord(v: &Vec<Coordinate>, c: Coordinate) -> (r: bool)
    ensures
        r == v@.contains(c),
{
    let mut i: usize = 0;
    while i < v.len()
        invariant
            0 <= i <= v@.len(),
            forall|j: int| 0 <= j < i ==> v@[j] != c,
        decreases v@.len() - i,
    {
        if v[i] == c {
            return true;
        }
        i = i + 1;
    }
    false
}

} // verus!
