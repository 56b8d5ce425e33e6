//! The mathematical model of the engine: a ghost board, the geometric shape
//! test, move classification, the self-exposure filter, ray-walking move
//! generation, and the full effect of committing a move. The executable
//! code in [`crate::board`] is proved to return exactly these values.

use vstd::prelude::*;

use crate::board::GameState;
use crate::board::MoveClass;
use crate::piece::flip;
use crate::piece::kind_max_steps;
use crate::piece::kind_offsets;
use crate::piece::Color;
use crate::piece::Piece;
use crate::piece::PieceKind;

verus! {

/// The ghost state of a board: 64 optional pieces in row-major order
/// (row 0 is the top rank as laid out by the descriptor), the side to move,
/// the interactively selected square, the coarse game status, and the
/// check attacks recorded by the last detection pass, used by the
/// self-exposure filter.
#[verifier::ext_equal]
pub struct BoardModel {
    pub squares: Seq<Option<Piece>>,
    pub turn: Color,
    pub selected: Option<usize>,
    pub game_state: GameState,
    pub check_moves: Option<Seq<(usize, usize)>>,
}

/// A well-formed board has exactly 64 squares.
pub open spec fn wf(m: BoardModel) -> bool {
    m.squares.len() == 64
}

/// The row (rank index from the top) of a square.
pub open spec fn sq_row(s: int) -> int {
    s / 8
}

/// The column (file index from the left) of a square.
pub open spec fn sq_col(s: int) -> int {
    s % 8
}

/// Absolute difference.
pub open spec fn dist(a: int, b: int) -> int {
    if a >= b {
        a - b
    } else {
        b - a
    }
}

/// The occupant of a square; `None` for an empty or out-of-range square.
pub open spec fn piece_at(m: BoardModel, s: int) -> Option<Piece> {
    if 0 <= s < m.squares.len() {
        m.squares[s]
    } else {
        None
    }
}

/// The canonical geometric shape test of each piece kind, computed from the
/// row and column deltas between the two squares. It ignores occupancy and
/// direction; rays, blocking and the pawn's push/attack asymmetry are
/// handled by the move generator.
pub open spec fn shape_ok(k: PieceKind, from: int, to: int) -> bool {
    let rd = dist(sq_row(from), sq_row(to));
    let cd = dist(sq_col(from), sq_col(to));
    match k {
        PieceKind::Rook => rd == 0 || cd == 0,
        PieceKind::Bishop => rd == cd,
        PieceKind::Queen => rd == 0 || cd == 0 || rd == cd,
        PieceKind::Knight => (rd == 2 && cd == 1) || (rd == 1 && cd == 2),
        PieceKind::King => rd == 0 || cd == 0 || rd == cd,
        PieceKind::Pawn => rd == cd || cd == 0,
    }
}

/// The shape test as exposed on a board: false when the source square is
/// empty or out of range.
pub open spec fn shape_at(m: BoardModel, from: int, to: int) -> bool {
    match piece_at(m, from) {
        None => false,
        Some(p) => shape_ok(p.kind, from, to),
    }
}

/// One level of the recursion measure for the self-exposure filter: the
/// simulated board always carries an empty check record, so the filter
/// cannot re-enter itself.
pub open spec fn depth(m: BoardModel) -> int {
    if m.check_moves is None {
        0
    } else {
        1
    }
}

/// Move classification without the self-exposure filter: `Blocked` unless
/// the destination is in bounds, the shape test passes for the piece at
/// `from`, and that piece belongs to the side to move; given those hold,
/// an empty destination is a `Quiet` move, an opposing occupant a
/// `Capture`, and a same-color occupant `Blocked`.
pub open spec fn classify0(m: BoardModel, from: int, to: int) -> MoveClass {
    match piece_at(m, from) {
        None => MoveClass::Blocked,
        Some(p) => if !(0 <= to < 64) {
            MoveClass::Blocked
        } else if !shape_ok(p.kind, from, to) {
            MoveClass::Blocked
        } else if p.color != m.turn {
            MoveClass::Blocked
        } else {
            match piece_at(m, to) {
                None => MoveClass::Quiet,
                Some(t) => if t.color != p.color {
                    MoveClass::Capture
                } else {
                    MoveClass::Blocked
                },
            }
        },
    }
}

/// The board obtained by applying the candidate move on a copy: the piece
/// moves from `from` to `to` unchanged, the side to move flips, and the
/// check record is cleared. Used only by the self-exposure filter.
pub open spec fn simulate(m: BoardModel, from: int, to: int) -> BoardModel {
    BoardModel {
        squares: m.squares.update(to, piece_at(m, from)).update(from, None),
        turn: flip(m.turn),
        selected: m.selected,
        game_state: m.game_state,
        check_moves: None,
    }
}

/// The self-exposure filter: a candidate move is rejected when some
/// recorded check-delivering attack `(attacker, king)` is still a legal
/// destination on the simulated board, i.e. the move fails to resolve an
/// existing check. With no recorded attacks the filter accepts everything.
pub open spec fn exposed(m: BoardModel, from: int, to: int) -> bool
    decreases depth(m), 4int, 0int,
{
    match m.check_moves {
        None => false,
        Some(ps) => {
            let sim = simulate(m, from, to);
            exists|j: int|
                #![trigger ps[j]]
                0 <= j < ps.len() && moves_f(sim, ps[j].0 as int).contains(ps[j].1)
        },
    }
}

/// Full move classification: the self-exposure filter, then the
/// occupancy/ownership rules of [`classify0`].
pub open spec fn classify_f(m: BoardModel, from: int, to: int) -> MoveClass
    decreases depth(m), 5int, 0int,
{
    if exposed(m, from, to) {
        MoveClass::Blocked
    } else {
        classify0(m, from, to)
    }
}

/// One ray walk: candidates `pos + mv*step`, `pos + mv*(step+1)`, ... up to
/// `pos + mv*last`. A quiet move is accepted and the walk continues, a
/// capture is accepted and ends the ray, anything blocked ends the ray.
pub open spec fn ray(m: BoardModel, pos: int, mv: int, step: int, last: int) -> Seq<usize>
    decreases depth(m), 7int, last + 1 - step,
{
    if step > last {
        Seq::empty()
    } else {
        let cand = pos + mv * step;
        match classify_f(m, pos, cand) {
            MoveClass::Quiet => seq![cand as usize] + ray(m, pos, mv, step + 1, last),
            MoveClass::Capture => seq![cand as usize],
            MoveClass::Blocked => Seq::empty(),
        }
    }
}

/// The concatenation of the rays of all offsets from index `i` on.
pub open spec fn rays_from(m: BoardModel, pos: int, offs: Seq<i32>, i: int, max: int) -> Seq<usize>
    decreases depth(m), 8int, offs.len() - i,
{
    if i < 0 || i >= offs.len() {
        Seq::empty()
    } else {
        ray(m, pos, offs[i] as int, 1, max) + rays_from(m, pos, offs, i + 1, max)
    }
}

/// A pawn's forward walk: a forward square is accepted only as a quiet
/// move; anything else stops the walk immediately.
pub open spec fn pawn_forward(m: BoardModel, pos: int, mv: int, step: int, last: int) -> Seq<usize>
    decreases depth(m), 7int, last + 1 - step,
{
    if step > last {
        Seq::empty()
    } else {
        let cand = pos + mv * step;
        if classify_f(m, pos, cand) == MoveClass::Quiet {
            seq![cand as usize] + pawn_forward(m, pos, mv, step + 1, last)
        } else {
            Seq::empty()
        }
    }
}

/// One pawn attack square: accepted exactly when it is a capture.
pub open spec fn pawn_attack(m: BoardModel, pos: int, a: int) -> Seq<usize>
    decreases depth(m), 6int, 0int,
{
    if classify_f(m, pos, a) == MoveClass::Capture {
        seq![a as usize]
    } else {
        Seq::empty()
    }
}

/// The legal destinations of a square: empty for an empty or out-of-range
/// square; for a pawn the two diagonal attack squares (each accepted only
/// as a capture) followed by the forward walk, whose length is 2 before the
/// pawn's first move and 1 after; for every other piece the concatenation
/// of the ray walks of its move table.
pub open spec fn moves_f(m: BoardModel, pos: int) -> Seq<usize>
    decreases depth(m), 9int, 0int,
{
    match piece_at(m, pos) {
        None => Seq::empty(),
        Some(p) => {
            if p.kind == PieceKind::Pawn {
                let mv: int = if p.color == Color::White {
                    -8
                } else {
                    8
                };
                let steps: int = if p.has_moved {
                    1
                } else {
                    2
                };
                pawn_attack(m, pos, pos + mv + 1) + pawn_attack(m, pos, pos + mv - 1)
                    + pawn_forward(m, pos, mv, 1, steps)
            } else {
                rays_from(
                    m,
                    pos,
                    kind_offsets(p.kind, p.color),
                    0,
                    kind_max_steps(p.kind) as int,
                )
            }
        },
    }
}

/// Whether destination `t` of the piece at `from` delivers check: the move
/// is a capture and the captured piece is a king of the opposite color.
pub open spec fn king_capture_pair(m: BoardModel, from: int, t: usize) -> bool {
    &&& classify_f(m, from, t as int) == MoveClass::Capture
    &&& match piece_at(m, t as int) {
        None => false,
        Some(q) => q.kind == PieceKind::King && match piece_at(m, from) {
            None => false,
            Some(p) => q.color != p.color,
        },
    }
}

/// The check-delivering pairs `(from, t)` among the destinations `ms[i..]`.
pub open spec fn pairs_from(m: BoardModel, from: int, ms: Seq<usize>, i: int) -> Seq<
    (usize, usize),
>
    decreases ms.len() - i,
{
    if i < 0 || i >= ms.len() {
        Seq::empty()
    } else {
        let rest = pairs_from(m, from, ms, i + 1);
        if king_capture_pair(m, from, ms[i]) {
            seq![(from as usize, ms[i])] + rest
        } else {
            rest
        }
    }
}

/// The post-move check scan: all check-delivering pairs of the piece that
/// just landed on `from`, in generation order.
pub open spec fn scan_pairs(m: BoardModel, from: int) -> Seq<(usize, usize)> {
    pairs_from(m, from, moves_f(m, from), 0)
}

/// The full effect of committing a move. A blocked move (including an
/// empty or out-of-range source) leaves the board unchanged. Otherwise the
/// moving piece is marked as moved and transferred, the check record is
/// rebuilt by a fresh scan from the destination, the status becomes `Check`
/// or `InProgress` accordingly (a terminal `GameOver` is never downgraded),
/// the side to move flips, and capturing the opposing king forces
/// `GameOver`.
pub open spec fn move_result(m: BoardModel, from: int, to: int) -> BoardModel {
    match piece_at(m, from) {
        None => m,
        Some(p) => {
            let c = classify_f(m, from, to);
            if c == MoveClass::Blocked {
                m
            } else {
                let mover = Piece { kind: p.kind, color: p.color, has_moved: true };
                let m1 = BoardModel {
                    squares: m.squares.update(to, Some(mover)).update(from, None),
                    turn: m.turn,
                    selected: m.selected,
                    game_state: m.game_state,
                    check_moves: None,
                };
                let pairs = scan_pairs(m1, to);
                let gs1 = if m.game_state == GameState::GameOver {
                    GameState::GameOver
                } else if pairs.len() > 0 {
                    GameState::Check
                } else {
                    GameState::InProgress
                };
                let captured_king = c == MoveClass::Capture && match piece_at(m, to) {
                    None => false,
                    Some(q) => q.kind == PieceKind::King,
                };
                BoardModel {
                    squares: m1.squares,
                    turn: flip(m.turn),
                    selected: m.selected,
                    game_state: if captured_king {
                        GameState::GameOver
                    } else {
                        gs1
                    },
                    check_moves: if pairs.len() > 0 {
                        Some(pairs)
                    } else {
                        None
                    },
                }
            }
        },
    }
}

} // verus!
