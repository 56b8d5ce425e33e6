//! Pieces and their move tables: each piece kind has a fixed set of
//! directional step offsets (row-major square deltas) and a maximum step
//! count (8 for sliders, 1 for everything else).

use vstd::prelude::*;

verus! {

/// The side a piece belongs to.
#[derive(Clone, Copy, PartialEq, Eq, Structural, Debug)]
pub enum Color {
    White,
    Black,
}

/// The closed set of piece kinds.
#[derive(Clone, Copy, PartialEq, Eq, Structural, Debug)]
pub enum PieceKind {
    Pawn,
    Rook,
    Knight,
    Bishop,
    Queen,
    King,
}

/// A chess piece. Its move table is determined by its kind and color
/// (see [`kind_offsets`] and [`kind_max_steps`]); `has_moved` becomes true
/// the first time the piece is the source of a committed move and never
/// resets.
#[derive(Clone, Copy, PartialEq, Eq, Structural, Debug)]
pub struct Piece {
    pub kind: PieceKind,
    pub color: Color,
    pub has_moved: bool,
}

impl Piece {
    /// A freshly placed piece of the given kind and color.
    pub fn new(kind: PieceKind, color: Color) -> (p: Piece)
        ensures
            p == (Piece { kind, color, has_moved: false }),
    {
        Piece { kind, color, has_moved: false }
    }
}

/// The logical opposite of a color.
pub open spec fn flip(c: Color) -> Color {
    match c {
        Color::White => Color::Black,
        Color::Black => Color::White,
    }
}

/// Executable color flip.
pub fn flip_color(c: Color) -> (r: Color)
    ensures
        r == flip(c),
{
    match c {
        Color::White => Color::Black,
        Color::Black => Color::White,
    }
}

/// Move table: the directional step offsets (row-major square deltas) of a
/// piece kind. A pawn only ever steps toward the opposing side, so its
/// single offset depends on its color.
pub open spec fn kind_offsets(kind: PieceKind, color: Color) -> Seq<i32> {
    match kind {
        PieceKind::Pawn => if color == Color::White {
            seq![-8i32]
        } else {
            seq![8i32]
        },
        PieceKind::Rook => seq![8i32, -8i32, 1i32, -1i32],
        PieceKind::Knight => seq![17i32, 15i32, 10i32, 6i32, -17i32, -15i32, -10i32, -6i32],
        PieceKind::Bishop => seq![9i32, 7i32, -9i32, -7i32],
        PieceKind::Queen => seq![8i32, -8i32, 1i32, -1i32, 9i32, 7i32, -9i32, -7i32],
        PieceKind::King => seq![8i32, -8i32, 1i32, -1i32, 9i32, 7i32, -9i32, -7i32],
    }
}

/// Move table: the maximum number of steps a piece may take along one
/// offset. Sliders (rook, bishop, queen) walk up to 8 steps; every other
/// kind takes a single step (a pawn's two-square initial push is handled
/// separately by the move generator).
pub open spec fn kind_max_steps(kind: PieceKind) -> usize {
    match kind {
        PieceKind::Rook => 8,
        PieceKind::Bishop => 8,
        PieceKind::Queen => 8,
        _ => 1,
    }
}

/// Executable move table lookup: the step offsets of a kind.
pub fn offsets(kind: PieceKind, color: Color) -> (v: Vec<i32>)
    ensures
        v@ == kind_offsets(kind, color),
{
    let mut v: Vec<i32> = Vec::new();
    match kind {
        PieceKind::Pawn => {
            if color == Color::White {
                v.push(-8);
            } else {
                v.push(8);
            }
        },
        PieceKind::Rook => {
            v.push(8);
            v.push(-8);
            v.push(1);
            v.push(-1);
        },
        PieceKind::Knight => {
            v.push(17);
            v.push(15);
            v.push(10);
            v.push(6);
            v.push(-17);
            v.push(-15);
            v.push(-10);
            v.push(-6);
        },
        PieceKind::Bishop => {
            v.push(9);
            v.push(7);
            v.push(-9);
            v.push(-7);
        },
        PieceKind::Queen | PieceKind::King => {
            v.push(8);
            v.push(-8);
            v.push(1);
            v.push(-1);
            v.push(9);
            v.push(7);
            v.push(-9);
            v.push(-7);
        },
    }
    proof {
        assert(v@ =~= kind_offsets(kind, color));
    }
    v
}

/// Executable move table lookup: the maximum step count of a kind.
pub fn max_steps(kind: PieceKind) -> (n: usize)
    ensures
        n == kind_max_steps(kind),
{
    match kind {
        PieceKind::Rook | PieceKind::Bishop | PieceKind::Queen => 8,
        _ => 1,
    }
}

} // verus!
