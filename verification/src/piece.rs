//! Piece kinds, colors, board coordinates and the piece value type.

use vstd::prelude::*;

verus! {

/// The six kinds of chess pieces.
#[allow(non_camel_case_types)]
#[derive(Copy, Clone, PartialEq, Eq, Structural, Debug)]
pub enum PieceKind {
    PAWN,
    ROOK,
    KNIGHT,
    BISHOP,
    KING,
    QUEEN,
}

impl PieceKind {
    /// Lower-case English name of the kind, for display by callers.
    pub fn name(&self) -> (s: &'static str)
        ensures
            s@ == match *self {
                PieceKind::PAWN => "pawn"@,
                PieceKind::ROOK => "rook"@,
                PieceKind::KNIGHT => "knight"@,
                PieceKind::BISHOP => "bishop"@,
                PieceKind::KING => "king"@,
                PieceKind::QUEEN => "queen"@,
            },
    {
        match self {
            PieceKind::PAWN => "pawn",
            PieceKind::ROOK => "rook",
            PieceKind::KNIGHT => "knight",
            PieceKind::BISHOP => "bishop",
            PieceKind::KING => "king",
            PieceKind::QUEEN => "queen",
        }
    }
}

/// The two sides.
#[allow(non_camel_case_types)]
#[derive(Copy, Clone, PartialEq, Eq, Structural, Debug)]
pub enum PieceColor {
    WHITE,
    BLACK,
}

impl PieceColor {
    /// The other side.
    pub open spec fn opposite(self) -> PieceColor {
        match self {
            PieceColor::WHITE => PieceColor::BLACK,
            PieceColor::BLACK => PieceColor::WHITE,
        }
    }

    /// Forward direction of this side's pawns: white pawns move toward
    /// higher ranks, black pawns toward lower ranks.
    pub open spec fn forward(self) -> int {
        match self {
            PieceColor::WHITE => 1,
            PieceColor::BLACK => -1,
        }
    }

    /// Lower-case English name of the color, for display by callers.
    pub fn name(&self) -> (s: &'static str)
        ensures
            s@ == match *self {
                PieceColor::WHITE => "white"@,
                PieceColor::BLACK => "black"@,
            },
    {
        match self {
            PieceColor::WHITE => "white",
            PieceColor::BLACK => "black",
        }
    }
}

/// A board square as a (file, rank) pair. On-board squares have both
/// components in `0..=7`; move generation may transiently form out-of-range
/// pairs, which are bounds-checked before use.
#[derive(Copy, Clone, PartialEq, Eq, Structural, Hash, Debug)]
pub struct Coordinate(pub i8, pub i8);

/// Whether a (file, rank) pair lies on the board.
pub open spec fn on_board_xy(x: int, y: int) -> bool {
    0 <= x <= 7 && 0 <= y <= 7
}

/// Whether a coordinate lies on the board.
pub open spec fn on_board(c: Coordinate) -> bool {
    on_board_xy(c.0 as int, c.1 as int)
}

/// Rank-major index of an on-board (file, rank) pair into the 64-square array.
pub open spec fn xy_idx(x: int, y: int) -> int {
    y * 8 + x
}

/// Rank-major index of an on-board coordinate.
pub open spec fn coord_idx(c: Coordinate) -> int {
    xy_idx(c.0 as int, c.1 as int)
}

/// A piece on the board. `square` always matches the square the piece
/// occupies; `moved` records whether this piece has ever been moved
/// (it gates castling and the pawn double step).
#[derive(Copy, Clone, PartialEq, Eq, Structural, Debug)]
pub struct Piece {
    pub kind: PieceKind,
    pub color: PieceColor,
    pub square: Coordinate,
    pub moved: bool,
}

} // verus!
