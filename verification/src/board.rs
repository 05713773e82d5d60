//! The board: piece placement, turn state and the transient en-passant file.

use vstd::prelude::*;
use crate::piece::{Coordinate, Piece, PieceColor, PieceKind, coord_idx, on_board, on_board_xy, xy_idx};

verus! {

/// The authoritative game state. Squares are stored rank-major in a
/// 64-entry array; `None` means the square is empty.
#[derive(Clone)]
pub struct Board {
    /// The 64 squares, rank-major: entry `rank * 8 + file`.
    pub pieces: Vec<Option<Piece>>,
    /// Whose turn it is.
    pub on_move: PieceColor,
    /// Completed-turn counter; bookkeeping only, never consulted by the rules.
    pub turn_number: u32,
    /// Set to a pawn's file immediately after its double step; cleared
    /// unconditionally by the next move.
    pub en_pessant_file: Option<i8>,
}

impl View for Board {
    type V = Seq<Option<Piece>>;

    open spec fn view(&self) -> Seq<Option<Piece>> {
        self.pieces@
    }
}

/// The piece standing on square (x, y), `None` for an empty or off-board square.
pub open spec fn at_xy(v: Seq<Option<Piece>>, x: int, y: int) -> Option<Piece> {
    if on_board_xy(x, y) {
        v[xy_idx(x, y)]
    } else {
        None
    }
}

/// The piece kind of the starting back rank at file `x`:
/// rook, knight, bishop, king, queen, bishop, knight, rook.
pub open spec fn back_rank_kind(x: int) -> PieceKind {
    if x == 0 {
        PieceKind::ROOK
    } else if x == 1 {
        PieceKind::KNIGHT
    } else if x == 2 {
        PieceKind::BISHOP
    } else if x == 3 {
        PieceKind::KING
    } else if x == 4 {
        PieceKind::QUEEN
    } else if x == 5 {
        PieceKind::BISHOP
    } else if x == 6 {
        PieceKind::KNIGHT
    } else {
        PieceKind::ROOK
    }
}

/// The standard starting occupant of square (x, y): white back rank and
/// pawns on ranks 0 and 1, black pawns and back rank on ranks 6 and 7.
pub open spec fn initial_at(x: int, y: int) -> Option<Piece> {
    let sq = Coordinate(x as i8, y as i8);
    if y == 0 {
        Some(Piece { kind: back_rank_kind(x), color: PieceColor::WHITE, square: sq, moved: false })
    } else if y == 1 {
        Some(Piece { kind: PieceKind::PAWN, color: PieceColor::WHITE, square: sq, moved: false })
    } else if y == 6 {
        Some(Piece { kind: PieceKind::PAWN, color: PieceColor::BLACK, square: sq, moved: false })
    } else if y == 7 {
        Some(Piece { kind: back_rank_kind(x), color: PieceColor::BLACK, square: sq, moved: false })
    } else {
        None
    }
}

/// How many of the first `n` squares are occupied.
pub open spec fn count_pieces_to(v: Seq<Option<Piece>>, n: int) -> int
    decreases n,
{
    if n <= 0 {
        0
    } else {
        count_pieces_to(v, n - 1) + if v[n - 1] is Some {
            1int
        } else {
            0int
        }
    }
}

/// How many squares of the board are occupied.
pub open spec fn num_pieces(v: Seq<Option<Piece>>) -> int {
    count_pieces_to(v, 64)
}

/// Position of a back-rank square in promotion-scan order: rank 7 is
/// scanned before rank 0, each by ascending file.
pub open spec fn promo_order(c: Coordinate) -> int {
    if c.1 == 7 {
        c.0 as int
    } else {
        8 + c.0 as int
    }
}

/// Well-formed placement: 64 squares, and every piece's `square` field
/// matches the square it stands on (so it is also on the board).
pub open spec fn squares_wf(v: Seq<Option<Piece>>) -> bool {
    &&& v.len() == 64
    &&& forall|i: int|
        0 <= i < 64 ==> ((#[trigger] v[i]) matches Some(p) ==> on_board(p.square)
            && coord_idx(p.square) == i)
}

/// The starting back-rank kind at file `x`.
fn back_kind(x: i8) -> (k: PieceKind)
    requires
        0 <= x <= 7,
    ensures
        k == back_rank_kind(x as int),
{
    if x == 0 {
        PieceKind::ROOK
    } else if x == 1 {
        PieceKind::KNIGHT
    } else if x == 2 {
        PieceKind::BISHOP
    } else if x == 3 {
        PieceKind::KING
    } else if x == 4 {
        PieceKind::QUEEN
    } else if x == 5 {
        PieceKind::BISHOP
    } else if x == 6 {
        PieceKind::KNIGHT
    } else {
        PieceKind::ROOK
    }
}

/// The starting occupant of square (x, y).
fn init_square(x: i8, y: i8) -> (r: Option<Piece>)
    requires
        on_board_xy(x as int, y as int),
    ensures
        r == initial_at(x as int, y as int),
{
    let sq = Coordinate(x, y);
    if y == 0 {
        Some(Piece { kind: back_kind(x), color: PieceColor::WHITE, square: sq, moved: false })
    } else if y == 1 {
        Some(Piece { kind: PieceKind::PAWN, color: PieceColor::WHITE, square: sq, moved: false })
    } else if y == 6 {
        Some(Piece { kind: PieceKind::PAWN, color: PieceColor::BLACK, square: sq, moved: false })
    } else if y == 7 {
        Some(Piece { kind: back_kind(x), color: PieceColor::BLACK, square: sq, moved: false })
    } else {
        None
    }
}

/// On a board laid out as the starting position, the first `n` squares hold
/// `n` pieces up to square 16, none further until square 48, and one per
/// square from there on; in particular all 64 squares hold 32 pieces.
proof fn lemma_initial_count(v: Seq<Option<Piece>>, n: int)
    requires
        v.len() == 64,
        0 <= n <= 64,
        forall|x: int, y: int| on_board_xy(x, y) ==> at_xy(v, x, y) == initial_at(x, y),
    ensures
        count_pieces_to(v, n) == if n <= 16 {
            n
        } else if n <= 48 {
            16
        } else {
            n - 32
        },
    decreases n,
{
    if n > 0 {
        lemma_initial_count(v, n - 1);
        let x = (n - 1) % 8;
        let y = (n - 1) / 8;
        vstd::arithmetic::div_mod::lemma_fundamental_div_mod(n - 1, 8);
        vstd::arithmetic::div_mod::lemma_mod_bound(n - 1, 8);
        assert(0 <= x < 8 && 0 <= y < 8 && y * 8 + x == n - 1);
        assert(v[n - 1] == at_xy(v, x, y));
        assert(at_xy(v, x, y) == initial_at(x, y));
    }
}

impl Board {
    /// Well-formed board: placement is consistent and a recorded
    /// en-passant file is a real file.
    pub open spec fn wf(self) -> bool {
        &&& squares_wf(self@)
        &&& (self.en_pessant_file matches Some(f) ==> 0 <= f <= 7)
    }

    /// A fresh board in the standard starting position: 32 pieces in the
    /// symmetric two-rank setup per side, white to move, turn counter zero,
    /// no en-passant file. Always succeeds.
    pub fn new() -> (b: Board)
        ensures
            b.wf(),
            forall|x: int, y: int| on_board_xy(x, y) ==> at_xy(b@, x, y) == initial_at(x, y),
            num_pieces(b@) == 32,
            b.on_move == PieceColor::WHITE,
            b.turn_number == 0,
            b.en_pessant_file is None,
    {
        let mut v: Vec<Option<Piece>> = Vec::new();
        let mut y: i8 = 0;
        while y < 8
            invariant
                0 <= y <= 8,
                v@.len() == y * 8,
                forall|xx: int, yy: int|
                    on_board_xy(xx, yy) && xy_idx(xx, yy) < v@.len() ==> v@[xy_idx(xx, yy)]
                        == initial_at(xx, yy),
            decreases 8 - y,
        {
            let mut x: i8 = 0;
            while x < 8
                invariant
                    0 <= y < 8,
                    0 <= x <= 8,
                    v@.len() == y * 8 + x,
                    forall|xx: int, yy: int|
                        on_board_xy(xx, yy) && xy_idx(xx, yy) < v@.len() ==> v@[xy_idx(xx, yy)]
                            == initial_at(xx, yy),
                decreases 8 - x,
            {
                v.push(init_square(x, y));
                x = x + 1;
            }
            y = y + 1;
        }
        let b = Board { pieces: v, on_move: PieceColor::WHITE, turn_number: 0, en_pessant_file: None };
        proof {
            assert forall|i: int| 0 <= i < 64 implies ((#[trigger] b@[i]) matches Some(p)
                ==> on_board(p.square) && coord_idx(p.square) == i) by {
                let x = i % 8;
                let y = i / 8;
                vstd::arithmetic::div_mod::lemma_fundamental_div_mod(i, 8);
                vstd::arithmetic::div_mod::lemma_mod_bound(i, 8);
                assert(0 <= x < 8 && 0 <= y < 8 && y * 8 + x == i);
                assert(b@[i] == at_xy(b@, x, y));
            }
            lemma_initial_count(b@, 64);
        }
        b
    }

    /// The number of pieces on the board.
    pub fn piece_count(&self) -> (n: usize)
        requires
            self.wf(),
        ensures
            n == num_pieces(self@),
    {
        let mut n: usize = 0;
        let mut i: usize = 0;
        while i < 64
            invariant
                self.wf(),
                0 <= i <= 64,
                n == count_pieces_to(self@, i as int),
                n <= i,
            decreases 64 - i,
        {
            if self.pieces[i].is_some() {
                n = n + 1;
            }
            i = i + 1;
        }
        n
    }

    /// The piece on square (x, y), `None` for an empty or off-board square.
    pub(crate) fn sq_get(&self, x: i32, y: i32) -> (r: Option<Piece>)
        requires
            self.wf(),
        ensures
            r == at_xy(self@, x as int, y as int),
    {
        if 0 <= x && x <= 7 && 0 <= y && y <= 7 {
            self.pieces[(y * 8 + x) as usize]
        } else {
            None
        }
    }

    /// The piece standing on the given square.
    pub fn piece_at(&self, c: Coordinate) -> (r: Option<Piece>)
        requires
            self.wf(),
        ensures
            r == at_xy(self@, c.0 as int, c.1 as int),
    {
        self.sq_get(c.0 as i32, c.1 as i32)
    }

    /// Put `p` on the square its `square` field names, replacing whatever
    /// stood there. This is the placement primitive promotion uses to
    /// re-insert the chosen piece.
    pub fn place_piece(&mut self, p: Piece)
        requires
            old(self).wf(),
            on_board(p.square),
        ensures
            final(self)@ == old(self)@.update(coord_idx(p.square), Some(p)),
            final(self).wf(),
            final(self).on_move == old(self).on_move,
            final(self).turn_number == old(self).turn_number,
            final(self).en_pessant_file == old(self).en_pessant_file,
    {
        let i = (p.square.1 as usize) * 8 + (p.square.0 as usize);
        self.pieces[i] = Some(p);
    }

    /// Empty the given square. This is the removal primitive promotion
    /// uses to take a pawn off the back rank.
    pub fn remove_piece(&mut self, c: Coordinate)
        requires
            old(self).wf(),
            on_board(c),
        ensures
            final(self)@ == old(self)@.update(coord_idx(c), None),
            final(self).wf(),
            final(self).on_move == old(self).on_move,
            final(self).turn_number == old(self).turn_number,
            final(self).en_pessant_file == old(self).en_pessant_file,
    {
        let i = (c.1 as usize) * 8 + (c.0 as usize);
        self.pieces[i] = None;
    }

    /// A pawn stands on `c`, and `c` is on one of the two back ranks, so the
    /// pawn is awaiting promotion.
    pub open spec fn back_rank_pawn(self, c: Coordinate) -> bool {
        &&& (c.1 == 7 || c.1 == 0)
        &&& on_board(c)
        &&& (at_xy(self@, c.0 as int, c.1 as int) matches Some(p) && p.kind == PieceKind::PAWN)
    }

    /// The square a pawn awaiting promotion stands on: the back ranks are
    /// scanned rank 7 first, each by ascending file, and the first pawn
    /// found wins. `None` when no pawn stands on a back rank.
    #[verifier::loop_isolation(false)]
    pub fn promotion_square(&self) -> (r: Option<Coordinate>)
        requires
            self.wf(),
        ensures
            match r {
                Some(c) => self.back_rank_pawn(c) && forall|c2: Coordinate|
                    #[trigger] self.back_rank_pawn(c2) ==> promo_order(c) <= promo_order(c2),
                None => forall|c2: Coordinate| !self.back_rank_pawn(c2),
            },
    {
        let mut k: usize = 0;
        while k < 2
            invariant
                0 <= k <= 2,
                forall|c2: Coordinate|
                    #[trigger] self.back_rank_pawn(c2) ==> promo_order(c2) >= k * 8,
            decreases 2 - k,
        {
            let rank: i8 = if k == 0 {
                7
            } else {
                0
            };
            let mut x: i8 = 0;
            while x < 8
                invariant
                    0 <= x <= 8,
                    0 <= k < 2,
                    rank == (if k == 0 {
                        7i8
                    } else {
                        0i8
                    }),
                    forall|c2: Coordinate|
                        #[trigger] self.back_rank_pawn(c2) ==> promo_order(c2) >= k * 8 + x,
                decreases 8 - x,
            {
                if let Some(p) = self.sq_get(x as i32, rank as i32) {
                    if p.kind == PieceKind::PAWN {
                        return Some(Coordinate(x, rank));
                    }
                }
                x = x + 1;
            }
            k = k + 1;
        }
        None
    }

    /// Advance turn ownership: increment the turn counter and give the
    /// other side the move. No other state is touched.
    pub fn flip_on_move(&mut self)
        requires
            old(self).turn_number < u32::MAX,
        ensures
            final(self)@ == old(self)@,
            final(self).turn_number == old(self).turn_number + 1,
            final(self).on_move == old(self).on_move.opposite(),
            final(self).en_pessant_file == old(self).en_pessant_file,
    {
        self.turn_number = self.turn_number + 1;
        self.on_move = match self.on_move {
            PieceColor::WHITE => PieceColor::BLACK,
            PieceColor::BLACK => PieceColor::WHITE,
        };
    }
}

} // verus!
