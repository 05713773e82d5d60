//! Attack-set computation and check detection.
//!
//! The shared primitive is the "looking at" relation: the squares a piece
//! attacks or could occupy, ignoring check-safety and ignoring pawn forward
//! pushes. A square is checked when some opposing piece is looking at it.

use vstd::prelude::*;
use crate::piece::{Coordinate, Piece, PieceColor, PieceKind, coord_idx, on_board_xy};
use crate::board::{Board, at_xy};

verus! {

broadcast use vstd::seq_lib::lemma_seq_contains_after_push;

/// A piece of the given color stands on (x, y).
pub open spec fn same_color_at(v: Seq<Option<Piece>>, x: int, y: int, color: PieceColor) -> bool {
    at_xy(v, x, y) matches Some(q) && q.color == color
}

/// A piece of the other color stands on (x, y).
pub open spec fn enemy_at(v: Seq<Option<Piece>>, x: int, y: int, color: PieceColor) -> bool {
    at_xy(v, x, y) matches Some(q) && q.color != color
}

/// (x, y) is one of the up-to-eight squares adjacent to (sx, sy).
pub open spec fn king_step(sx: int, sy: int, x: int, y: int) -> bool {
    &&& !(x == sx && y == sy)
    &&& -1 <= x - sx <= 1
    &&& -1 <= y - sy <= 1
}

/// (x, y) is an L-shaped knight jump away from (sx, sy).
pub open spec fn knight_jump(sx: int, sy: int, x: int, y: int) -> bool {
    let dx = x - sx;
    let dy = y - sy;
    ||| (dx == 1 || dx == -1) && (dy == 2 || dy == -2)
    ||| (dx == 2 || dx == -2) && (dy == 1 || dy == -1)
}

/// (x, y) is a forward-diagonal capture square for a pawn of `color` on (sx, sy).
pub open spec fn pawn_capture_step(color: PieceColor, sx: int, sy: int, x: int, y: int) -> bool {
    y == sy + color.forward() && (x == sx + 1 || x == sx - 1)
}

/// Every square of file `x` strictly between ranks `ya` and `yb` is empty.
pub open spec fn file_clear(v: Seq<Option<Piece>>, x: int, ya: int, yb: int) -> bool {
    forall|jx: int, jy: int|
        jx == x && (ya < jy < yb || yb < jy < ya) ==> at_xy(v, jx, jy) is None
}

/// Every square of rank `y` strictly between files `xa` and `xb` is empty.
pub open spec fn rank_clear(v: Seq<Option<Piece>>, y: int, xa: int, xb: int) -> bool {
    forall|jx: int, jy: int|
        jy == y && (xa < jx < xb || xb < jx < xa) ==> at_xy(v, jx, jy) is None
}

/// Every square of the rising diagonal through (sx, sy) whose file lies
/// strictly between `sx` and `xb` is empty.
pub open spec fn diag_clear(v: Seq<Option<Piece>>, sx: int, sy: int, xb: int) -> bool {
    forall|jx: int, jy: int|
        (sx < jx < xb || xb < jx < sx) && jy - sy == jx - sx ==> at_xy(v, jx, jy) is None
}

/// Every square of the falling diagonal through (sx, sy) whose file lies
/// strictly between `sx` and `xb` is empty.
pub open spec fn anti_clear(v: Seq<Option<Piece>>, sx: int, sy: int, xb: int) -> bool {
    forall|jx: int, jy: int|
        (sx < jx < xb || xb < jx < sx) && jy - sy == sx - jx ==> at_xy(v, jx, jy) is None
}

/// A rook walk from (sx, sy) reaches (x, y): same file or same rank, a
/// different square, and every square strictly between is empty.
pub open spec fn rook_reaches(v: Seq<Option<Piece>>, sx: int, sy: int, x: int, y: int) -> bool {
    ||| (x == sx && y != sy && file_clear(v, x, sy, y))
    ||| (y == sy && x != sx && rank_clear(v, y, sx, x))
}

/// A bishop walk from (sx, sy) reaches (x, y): same diagonal, a different
/// square, and every square strictly between is empty.
pub open spec fn bishop_reaches(v: Seq<Option<Piece>>, sx: int, sy: int, x: int, y: int) -> bool {
    x != sx && {
        ||| (y - sy == x - sx && diag_clear(v, sx, sy, x))
        ||| (y - sy == sx - x && anti_clear(v, sx, sy, x))
    }
}

/// The "looking at" relation on raw coordinates: piece `p` (standing on
/// `p.square` in position `v`) attacks or could occupy (x, y). Pawn forward
/// pushes are deliberately excluded; pawns only look at their two forward
/// diagonals, and only when an enemy piece stands there.
pub open spec fn attacks_xy(v: Seq<Option<Piece>>, p: Piece, x: int, y: int) -> bool {
    let sx = p.square.0 as int;
    let sy = p.square.1 as int;
    on_board_xy(x, y) && match p.kind {
        PieceKind::KING => king_step(sx, sy, x, y) && !same_color_at(v, x, y, p.color),
        PieceKind::KNIGHT => knight_jump(sx, sy, x, y) && !same_color_at(v, x, y, p.color),
        PieceKind::PAWN => pawn_capture_step(p.color, sx, sy, x, y) && enemy_at(v, x, y, p.color),
        PieceKind::ROOK => rook_reaches(v, sx, sy, x, y) && !same_color_at(v, x, y, p.color),
        PieceKind::BISHOP => bishop_reaches(v, sx, sy, x, y) && !same_color_at(v, x, y, p.color),
        PieceKind::QUEEN => (rook_reaches(v, sx, sy, x, y) || bishop_reaches(v, sx, sy, x, y))
            && !same_color_at(v, x, y, p.color),
    }
}

/// The "looking at" relation on coordinates.
pub open spec fn attacks(v: Seq<Option<Piece>>, p: Piece, c: Coordinate) -> bool {
    attacks_xy(v, p, c.0 as int, c.1 as int)
}

/// Some piece of color `by` in position `v` is looking at (x, y).
pub open spec fn square_attacked(v: Seq<Option<Piece>>, x: int, y: int, by: PieceColor) -> bool {
    exists|i: int|
        0 <= i < 64 && ((#[trigger] v[i]) matches Some(q) && q.color == by && attacks_xy(
            v,
            q,
            x,
            y,
        ))
}

impl Board {
    /// A piece of `color` stands on (x, y).
    fn same_color_on(&self, x: i32, y: i32, color: PieceColor) -> (r: bool)
        requires
            self.wf(),
        ensures
            r == same_color_at(self@, x as int, y as int, color),
    {
        match self.sq_get(x, y) {
            Some(q) => q.color == color,
            None => false,
        }
    }

    /// A piece of the color opposing `color` stands on (x, y).
    fn enemy_on(&self, x: i32, y: i32, color: PieceColor) -> (r: bool)
        requires
            self.wf(),
        ensures
            r == enemy_at(self@, x as int, y as int, color),
    {
        match self.sq_get(x, y) {
            Some(q) => q.color != color,
            None => false,
        }
    }

    /// Rook walk from (sx, sy) to (x, y): aligned and nothing strictly between.
    #[verifier::loop_isolation(false)]
    fn rook_reach(&self, sx: i32, sy: i32, x: i32, y: i32) -> (r: bool)
        requires
            self.wf(),
            -128 <= sx <= 127,
            -128 <= sy <= 127,
            0 <= x <= 7,
            0 <= y <= 7,
        ensures
            r == rook_reaches(self@, sx as int, sy as int, x as int, y as int),
    {
        if x == sx && y != sy {
            let lo = if sy < y { sy } else { y };
            let hi = if sy < y { y } else { sy };
            let mut j = lo + 1;
            while j < hi
                invariant
                    self.wf(),
                    lo + 1 <= j,
                    lo < hi,
                    -128 <= lo <= hi <= 127,
                    j <= hi,
                    forall|jx: int, jy: int|
                        jx == x && lo < jy < j ==> at_xy(self@, jx, jy) is None,
                decreases hi - j,
            {
                if self.sq_get(x, j).is_some() {
                    return false;
                }
                j = j + 1;
            }
            true
        } else if y == sy && x != sx {
            let lo = if sx < x { sx } else { x };
            let hi = if sx < x { x } else { sx };
            let mut j = lo + 1;
            while j < hi
                invariant
                    self.wf(),
                    lo + 1 <= j,
                    lo < hi,
                    -128 <= lo <= hi <= 127,
                    j <= hi,
                    forall|jx: int, jy: int|
                        jy == y && lo < jx < j ==> at_xy(self@, jx, jy) is None,
                decreases hi - j,
            {
                if self.sq_get(j, y).is_some() {
                    return false;
                }
                j = j + 1;
            }
            true
        } else {
            false
        }
    }

    /// Bishop walk from (sx, sy) to (x, y): same diagonal and nothing
    /// strictly between.
    #[verifier::loop_isolation(false)]
    fn bishop_reach(&self, sx: i32, sy: i32, x: i32, y: i32) -> (r: bool)
        requires
            self.wf(),
            -128 <= sx <= 127,
            -128 <= sy <= 127,
            0 <= x <= 7,
            0 <= y <= 7,
        ensures
            r == bishop_reaches(self@, sx as int, sy as int, x as int, y as int),
    {
        if x == sx {
            return false;
        }
        if y - sy == x - sx {
            let lo = if sx < x { sx } else { x };
            let hi = if sx < x { x } else { sx };
            let mut j = lo + 1;
            while j < hi
                invariant
                    self.wf(),
                    lo + 1 <= j,
                    lo < hi,
                    -128 <= lo <= hi <= 127,
                    -128 <= sy <= 127,
                    j <= hi,
                    forall|jx: int, jy: int|
                        lo < jx < j && jy - sy == jx - sx ==> at_xy(self@, jx, jy) is None,
                decreases hi - j,
            {
                if self.sq_get(j, sy + (j - sx)).is_some() {
                    return false;
                }
                j = j + 1;
            }
            true
        } else if y - sy == sx - x {
            let lo = if sx < x { sx } else { x };
            let hi = if sx < x { x } else { sx };
            let mut j = lo + 1;
            while j < hi
                invariant
                    self.wf(),
                    lo + 1 <= j,
                    lo < hi,
                    -128 <= lo <= hi <= 127,
                    -128 <= sy <= 127,
                    j <= hi,
                    forall|jx: int, jy: int|
                        lo < jx < j && jy - sy == sx - jx ==> at_xy(self@, jx, jy) is None,
                decreases hi - j,
            {
                if self.sq_get(j, sy - (j - sx)).is_some() {
                    return false;
                }
                j = j + 1;
            }
            true
        } else {
            false
        }
    }

    /// Whether `p` is looking at square `c` in the current position.
    pub fn attacks_square(&self, p: &Piece, c: Coordinate) -> (r: bool)
        requires
            self.wf(),
        ensures
            r == attacks(self@, *p, c),
    {
        let sx = p.square.0 as i32;
        let sy = p.square.1 as i32;
        let x = c.0 as i32;
        let y = c.1 as i32;
        if !(0 <= x && x <= 7 && 0 <= y && y <= 7) {
            return false;
        }
        match p.kind {
            PieceKind::KING => {
                let dx = x - sx;
                let dy = y - sy;
                !(dx == 0 && dy == 0) && -1 <= dx && dx <= 1 && -1 <= dy && dy <= 1
                    && !self.same_color_on(x, y, p.color)
            },
            PieceKind::KNIGHT => {
                let dx = x - sx;
                let dy = y - sy;
                ((dx == 1 || dx == -1) && (dy == 2 || dy == -2) || (dx == 2 || dx == -2) && (dy == 1
                    || dy == -1)) && !self.same_color_on(x, y, p.color)
            },
            PieceKind::PAWN => {
                let dir: i32 = if p.color == PieceColor::WHITE {
                    1
                } else {
                    -1
                };
                y == sy + dir && (x == sx + 1 || x == sx - 1) && self.enemy_on(x, y, p.color)
            },
            PieceKind::ROOK => self.rook_reach(sx, sy, x, y) && !self.same_color_on(x, y, p.color),
            PieceKind::BISHOP => self.bishop_reach(sx, sy, x, y) && !self.same_color_on(
                x,
                y,
                p.color,
            ),
            PieceKind::QUEEN => (self.rook_reach(sx, sy, x, y) || self.bishop_reach(sx, sy, x, y))
                && !self.same_color_on(x, y, p.color),
        }
    }

    /// The squares `piece` attacks or could occupy, ignoring check-safety
    /// and ignoring pawn forward pushes. This is the shared primitive behind
    /// move generation and check detection.
    #[verifier::loop_isolation(false)]
    pub fn looking_at(&self, piece: &Piece) -> (look: Vec<Coordinate>)
        requires
            self.wf(),
        ensures
            forall|c: Coordinate| #[trigger] look@.contains(c) <==> attacks(self@, *piece, c),
            look@.no_duplicates(),
    {
        let mut look: Vec<Coordinate> = Vec::new();
        let mut y: i8 = 0;
        while y < 8
            invariant
                self.wf(),
                0 <= y <= 8,
                forall|c: Coordinate| #[trigger]
                    look@.contains(c) <==> attacks(self@, *piece, c) && coord_idx(c) < y * 8,
                look@.no_duplicates(),
            decreases 8 - y,
        {
            let mut x: i8 = 0;
            while x < 8
                invariant
                    self.wf(),
                    0 <= y < 8,
                    0 <= x <= 8,
                    forall|c: Coordinate| #[trigger]
                        look@.contains(c) <==> attacks(self@, *piece, c) && coord_idx(c) < y * 8
                            + x,
                    look@.no_duplicates(),
                decreases 8 - x,
            {
                let c = Coordinate(x, y);
                if self.attacks_square(piece, c) {
                    proof {
                        assert(!look@.contains(c));
                    }
                    look.push(c);
                }
                x = x + 1;
            }
            y = y + 1;
        }
        look
    }

    /// Whether the square `piece` stands on is attacked by the opposing
    /// color. `piece` itself need not be on the board: castling probes
    /// check with a synthetic king.
    #[verifier::loop_isolation(false)]
    pub fn is_checked(&self, piece: &Piece) -> (r: bool)
        requires
            self.wf(),
        ensures
            r == square_attacked(
                self@,
                piece.square.0 as int,
                piece.square.1 as int,
                piece.color.opposite(),
            ),
    {
        let mut i: usize = 0;
        while i < 64
            invariant
                self.wf(),
                0 <= i <= 64,
                forall|k: int|
                    0 <= k < i ==> !((#[trigger] self@[k]) matches Some(q) && q.color
                        == piece.color.opposite() && attacks_xy(
                        self@,
                        q,
                        piece.square.0 as int,
                        piece.square.1 as int,
                    )),
            decreases 64 - i,
        {
            if let Some(q) = self.pieces[i] {
                if q.color != piece.color && self.attacks_square(&q, piece.square) {
                    return true;
                }
            }
            i = i + 1;
        }
        false
    }
}

} // verus!
