//! The mutable board: 64 optional pieces, the side to move, the
//! interactively selected square, the coarse game status, and the check
//! attacks recorded by the last detection pass. Every method is specified
//! against the ghost model in [`crate::model`].

use std::collections::HashMap;
use vstd::prelude::*;

use crate::model::classify_f;
use crate::model::depth;
use crate::model::move_result;
use crate::model::moves_f;
use crate::model::piece_at;
use crate::model::shape_at;
use crate::model::simulate;
use crate::model::BoardModel;
use crate::piece::flip;
use crate::piece::flip_color;
use crate::piece::max_steps;
use crate::piece::offsets;
use crate::piece::Color;
use crate::piece::Piece;
use crate::piece::PieceKind;

verus! {

broadcast use vstd::std_specs::hash::group_hash_axioms;

/// The coarse game status. `Checkmate` exists in the type for callers but
/// is never computed: the engine substitutes "king captured" (`GameOver`)
/// for true mate detection.
#[derive(Clone, Copy, PartialEq, Eq, Structural, Debug)]
pub enum GameState {
    InProgress,
    Check,
    Checkmate,
    GameOver,
}

/// The result of classifying a single move: blocked, a quiet move onto an
/// empty square, or a capture of an opposing piece.
#[derive(Clone, Copy, PartialEq, Eq, Structural, Debug)]
pub enum MoveClass {
    Blocked,
    Quiet,
    Capture,
}

/// The board. `selected` is interactive bookkeeping for a caller and
/// carries no rules authority; `check_moves` is the transient list of
/// `(attacker, king)` pairs recorded by the last check detection pass.
#[derive(Clone)]
pub struct Board {
    pub board: Vec<Option<Piece>>,
    pub turn: Color,
    pub selected: Option<usize>,
    pub game_state: GameState,
    check_moves: Option<Vec<(usize, usize)>>,
}

impl View for Board {
    type V = BoardModel;

    closed spec fn view(&self) -> BoardModel {
        BoardModel {
            squares: self.board@,
            turn: self.turn,
            selected: self.selected,
            game_state: self.game_state,
            check_moves: match self.check_moves {
                None => None,
                Some(v) => Some(v@),
            },
        }
    }
}

impl Board {
    /// A well-formed board holds exactly 64 squares.
    pub open spec fn wf(&self) -> bool {
        crate::model::wf(self@)
    }

    /// A fresh board with the given position and side to move: nothing
    /// selected, the game in progress, no recorded check attacks.
    pub fn new(board: Vec<Option<Piece>>, turn: Color) -> (b: Board)
        requires
            board@.len() == 64,
        ensures
            b.wf(),
            b@ == (BoardModel {
                squares: board@,
                turn,
                selected: None,
                game_state: GameState::InProgress,
                check_moves: None,
            }),
    {
        Board { board, turn, selected: None, game_state: GameState::InProgress, check_moves: None }
    }

    /// The occupant of a square; `None` for an empty or out-of-range
    /// square.
    pub fn get_piece(&self, pos: usize) -> (p: Option<Piece>)
        requires
            self.wf(),
        ensures
            p == piece_at(self@, pos as int),
    {
        if pos < 64 {
            self.board[pos]
        } else {
            None
        }
    }

    /// The geometric shape test between two squares, for the piece at
    /// `pos`: false when `pos` is empty or out of range. Occupancy and
    /// direction are deliberately ignored here.
    pub fn valid_move_in_bounds(&self, pos: usize, to: usize) -> (legal: bool)
        requires
            self.wf(),
        ensures
            legal == shape_at(self@, pos as int, to as int),
    {
        if pos >= 64 {
            return false;
        }
        let p = match self.board[pos] {
            None => {
                return false;
            },
            Some(p) => p,
        };
        let current_row = pos / 8;
        let current_col = pos % 8;
        let new_row = to / 8;
        let new_col = to % 8;
        let rd = if current_row >= new_row {
            current_row - new_row
        } else {
            new_row - current_row
        };
        let cd = if current_col >= new_col {
            current_col - new_col
        } else {
            new_col - current_col
        };
        match p.kind {
            PieceKind::Rook => rd == 0 || cd == 0,
            PieceKind::Bishop => rd == cd,
            PieceKind::Queen => rd == 0 || cd == 0 || rd == cd,
            PieceKind::Knight => (rd == 2 && cd == 1) || (rd == 1 && cd == 2),
            PieceKind::King => rd == 0 || cd == 0 || rd == cd,
            PieceKind::Pawn => rd == cd || cd == 0,
        }
    }

    /// Classify the move `from -> to`: the self-exposure filter, then
    /// bounds, shape, ownership and occupancy.
    fn valid_move(&self, from: usize, to: usize) -> (c: MoveClass)
        requires
            self.wf(),
        ensures
            c == classify_f(self@, from as int, to as int),
        decreases depth(self@), 1int,
    {
        if from >= 64 {
            return MoveClass::Blocked;
        }
        let p = match self.board[from] {
            None => {
                return MoveClass::Blocked;
            },
            Some(p) => p,
        };
        if to >= 64 {
            return MoveClass::Blocked;
        }
        if !self.valid_move_in_bounds(from, to) {
            return MoveClass::Blocked;
        }
        if self.result_in_mate(from, to) {
            return MoveClass::Blocked;
        }
        if p.color != self.turn {
            return MoveClass::Blocked;
        }
        match self.board[to] {
            None => MoveClass::Quiet,
            Some(t) => if t.color != p.color {
                MoveClass::Capture
            } else {
                MoveClass::Blocked
            },
        }
    }

    /// The self-exposure filter: clone the board, apply the candidate move
    /// on the clone, flip the clone's side to move, and test whether any
    /// recorded check-delivering attack is still a legal destination there.
    fn result_in_mate(&self, from: usize, to: usize) -> (r: bool)
        requires
            self.wf(),
            from < 64,
            to < 64,
        ensures
            r == crate::model::exposed(self@, from as int, to as int),
        decreases depth(self@), 0int,
    {
        match &self.check_moves {
            None => false,
            Some(mvs) => {
                let mut squares: Vec<Option<Piece>> = Vec::new();
                let mut i: usize = 0;
                while i < 64
                    invariant
                        i <= 64,
                        squares@.len() == i,
                        self.wf(),
                        forall|j: int| 0 <= j < i ==> squares@[j] == self.board@[j],
                    decreases 64 - i,
                {
                    squares.push(self.board[i]);
                    i += 1;
                }
                proof {
                    assert(squares@ =~= self.board@);
                }
                squares[to] = self.board[from];
                squares[from] = None;
                let sim = Board {
                    board: squares,
                    turn: flip_color(self.turn),
                    selected: self.selected,
                    game_state: self.game_state,
                    check_moves: None,
                };
                proof {
                    assert(sim@ =~= simulate(self@, from as int, to as int));
                }
                let mut j: usize = 0;
                while j < mvs.len()
                    invariant
                        j <= mvs@.len(),
                        sim.wf(),
                        sim@ == simulate(self@, from as int, to as int),
                        self@.check_moves == Some(mvs@),
                        forall|jj: int|
                            #![trigger mvs@[jj]]
                            0 <= jj < j ==> !moves_f(
                                simulate(self@, from as int, to as int),
                                mvs@[jj].0 as int,
                            ).contains(mvs@[jj].1),
                    decreases mvs@.len() - j,
                {
                    let pair = mvs[j];
                    let ms = sim.get_valid_moves(pair.0);
                    if contains_square(&ms, pair.1) {
                        proof {
                            let ps = self@.check_moves.unwrap();
                            assert(ps == mvs@);
                            assert(moves_f(
                                simulate(self@, from as int, to as int),
                                ps[j as int].0 as int,
                            ).contains(ps[j as int].1));
                            assert(crate::model::exposed(self@, from as int, to as int));
                        }
                        return true;
                    }
                    j += 1;
                }
                proof {
                    let ps = self@.check_moves.unwrap();
                    assert(ps == mvs@);
                    assert(forall|jj: int|
                        #![trigger ps[jj]]
                        0 <= jj < ps.len() ==> !moves_f(
                            simulate(self@, from as int, to as int),
                            ps[jj].0 as int,
                        ).contains(ps[jj].1));
                    assert(!crate::model::exposed(self@, from as int, to as int));
                }
                false
            },
        }
    }

    /// All legal destination squares of the piece at `pos`; the empty
    /// vector when `pos` is empty or out of range.
    pub fn get_valid_moves(&self, pos: usize) -> (moves: Vec<usize>)
        requires
            self.wf(),
        ensures
            moves@ == moves_f(self@, pos as int),
        decreases depth(self@), 2int,
    {
        let mut moves: Vec<usize> = Vec::new();
        if pos >= 64 {
            return moves;
        }
        let p = match self.board[pos] {
            None => {
                return moves;
            },
            Some(p) => p,
        };
        if p.kind == PieceKind::Pawn {
            let mv: i32 = if p.color == Color::White {
                -8
            } else {
                8
            };
            let ghost mvi: int = mv as int;
            // The two diagonal attack squares, each accepted only as a capture.
            let a1: i32 = pos as i32 + mv + 1;
            if a1 >= 0 && self.valid_move(pos, a1 as usize) == MoveClass::Capture {
                moves.push(a1 as usize);
            }
            proof {
                assert(moves@ =~= crate::model::pawn_attack(self@, pos as int, pos as int + mvi + 1));
            }
            let a2: i32 = pos as i32 + mv - 1;
            if a2 >= 0 && self.valid_move(pos, a2 as usize) == MoveClass::Capture {
                moves.push(a2 as usize);
            }
            proof {
                assert(moves@ =~= crate::model::pawn_attack(self@, pos as int, pos as int + mvi + 1)
                    + crate::model::pawn_attack(self@, pos as int, pos as int + mvi - 1));
            }
            // The forward walk: quiet moves only, two steps before the
            // pawn's first move, one after.
            let maxs: usize = if p.has_moved {
                1
            } else {
                2
            };
            let mut step: usize = 1;
            let mut walking = true;
            while walking && step <= maxs
                invariant
                    self.wf(),
                    pos < 64,
                    1 <= step <= maxs + 1,
                    maxs <= 2,
                    walking ==> moves@ + crate::model::pawn_forward(
                        self@,
                        pos as int,
                        mvi,
                        step as int,
                        maxs as int,
                    ) == moves_f(self@, pos as int),
                    !walking ==> moves@ == moves_f(self@, pos as int),
                    mvi == mv as int,
                    -8 <= mv <= 8,
                decreases maxs + 1 - step + (if walking { 1int } else { 0int }),
            {
                proof {
                    assert(-24 <= mv as int * (step as int) <= 24) by (nonlinear_arith)
                        requires
                            -8 <= mv as int <= 8,
                            1 <= step as int <= 3,
                    ;
                }
                let t: i32 = pos as i32 + mv * (step as i32);
                let ghost cand: int = pos as int + mvi * (step as int);
                let ghost rest = crate::model::pawn_forward(
                    self@,
                    pos as int,
                    mvi,
                    step as int + 1,
                    maxs as int,
                );
                if t >= 0 && self.valid_move(pos, t as usize) == MoveClass::Quiet {
                    moves.push(t as usize);
                    proof {
                        assert(moves@ + rest =~= moves_f(self@, pos as int));
                    }
                    step += 1;
                } else {
                    proof {
                        assert(classify_f(self@, pos as int, cand) != MoveClass::Quiet);
                        assert(moves@ + crate::model::pawn_forward(
                            self@,
                            pos as int,
                            mvi,
                            step as int,
                            maxs as int,
                        ) =~= moves@);
                    }
                    walking = false;
                }
            }
            proof {
                if walking {
                    assert(moves@ + crate::model::pawn_forward(
                        self@,
                        pos as int,
                        mvi,
                        step as int,
                        maxs as int,
                    ) =~= moves@);
                }
            }
        } else {
            let offs = offsets(p.kind, p.color);
            let maxs = max_steps(p.kind);
            let mut oi: usize = 0;
            while oi < offs.len()
                invariant
                    self.wf(),
                    pos < 64,
                    oi <= offs@.len(),
                    offs@ == crate::piece::kind_offsets(p.kind, p.color),
                    maxs == crate::piece::kind_max_steps(p.kind),
                    maxs <= 8,
                    forall|q: int| 0 <= q < offs@.len() ==> -17 <= #[trigger] offs@[q] <= 17,
                    moves@ + crate::model::rays_from(
                        self@,
                        pos as int,
                        offs@,
                        oi as int,
                        maxs as int,
                    ) == moves_f(self@, pos as int),
                decreases offs@.len() - oi,
            {
                let mv = offs[oi];
                let mut step: usize = 1;
                let mut walking = true;
                proof {
                    assert(crate::model::rays_from(self@, pos as int, offs@, oi as int, maxs as int)
                        =~= crate::model::ray(self@, pos as int, mv as int, 1, maxs as int)
                            + crate::model::rays_from(
                                self@,
                                pos as int,
                                offs@,
                                oi as int + 1,
                                maxs as int,
                            ));
                }
                while walking && step <= maxs
                    invariant
                        self.wf(),
                        pos < 64,
                        1 <= step <= maxs + 1,
                        maxs <= 8,
                        -17 <= mv <= 17,
                        walking ==> moves@ + crate::model::ray(
                            self@,
                            pos as int,
                            mv as int,
                            step as int,
                            maxs as int,
                        ) + crate::model::rays_from(
                            self@,
                            pos as int,
                            offs@,
                            oi as int + 1,
                            maxs as int,
                        ) == moves_f(self@, pos as int),
                        !walking ==> moves@ + crate::model::rays_from(
                            self@,
                            pos as int,
                            offs@,
                            oi as int + 1,
                            maxs as int,
                        ) == moves_f(self@, pos as int),
                    decreases maxs + 1 - step + (if walking { 1int } else { 0int }),
                {
                    proof {
                        assert(-153 <= mv as int * (step as int) <= 153) by (nonlinear_arith)
                            requires
                                -17 <= mv as int <= 17,
                                1 <= step as int <= 9,
                        ;
                    }
                    let t: i32 = pos as i32 + mv * (step as i32);
                    let ghost cand: int = pos as int + (mv as int) * (step as int);
                    let ghost done = crate::model::rays_from(
                        self@,
                        pos as int,
                        offs@,
                        oi as int + 1,
                        maxs as int,
                    );
                    let ghost rest = crate::model::ray(
                        self@,
                        pos as int,
                        mv as int,
                        step as int + 1,
                        maxs as int,
                    );
                    if t < 0 || t >= 64 {
                        proof {
                            assert(classify_f(self@, pos as int, cand) == MoveClass::Blocked);
                            assert(moves@ + crate::model::ray(
                                self@,
                                pos as int,
                                mv as int,
                                step as int,
                                maxs as int,
                            ) =~= moves@);
                        }
                        walking = false;
                    } else {
                        let c = self.valid_move(pos, t as usize);
                        if c == MoveClass::Quiet {
                            moves.push(t as usize);
                            proof {
                                assert(moves@ + rest + done =~= moves_f(self@, pos as int));
                            }
                            step += 1;
                        } else if c == MoveClass::Capture {
                            moves.push(t as usize);
                            proof {
                                assert(moves@ + done =~= moves_f(self@, pos as int));
                            }
                            walking = false;
                        } else {
                            proof {
                                assert(moves@ + crate::model::ray(
                                    self@,
                                    pos as int,
                                    mv as int,
                                    step as int,
                                    maxs as int,
                                ) =~= moves@);
                            }
                            walking = false;
                        }
                    }
                }
                proof {
                    if walking {
                        assert(moves@ + crate::model::ray(
                            self@,
                            pos as int,
                            mv as int,
                            step as int,
                            maxs as int,
                        ) =~= moves@);
                    }
                }
                oi += 1;
            }
            proof {
                assert(moves@ + crate::model::rays_from(
                    self@,
                    pos as int,
                    offs@,
                    offs@.len() as int,
                    maxs as int,
                ) =~= moves@);
            }
        }
        moves
    }

    /// Every occupied square together with its legal destinations.
    pub fn get_moves(&self) -> (moves_map: HashMap<usize, Vec<usize>>)
        requires
            self.wf(),
        ensures
            forall|k: usize| #[trigger]
                moves_map@.contains_key(k) <==> (k < 64 && piece_at(self@, k as int) is Some),
            forall|k: usize|
                moves_map@.contains_key(k) ==> (#[trigger] moves_map@[k])@ == moves_f(
                    self@,
                    k as int,
                ),
    {
        let mut moves_map: HashMap<usize, Vec<usize>> = HashMap::new();
        let mut i: usize = 0;
        while i < 64
            invariant
                self.wf(),
                i <= 64,
                forall|k: usize| #[trigger]
                    moves_map@.contains_key(k) <==> (k < i && piece_at(self@, k as int) is Some),
                forall|k: usize|
                    moves_map@.contains_key(k) ==> (#[trigger] moves_map@[k])@ == moves_f(
                        self@,
                        k as int,
                    ),
            decreases 64 - i,
        {
            if self.get_piece(i).is_some() {
                let v = self.get_valid_moves(i);
                moves_map.insert(i, v);
            }
            i += 1;
        }
        moves_map
    }

    /// The post-move check scan: recompute the destinations of the piece
    /// that just landed on `from`; every capture of an opposing king sets
    /// the status to `Check` and is recorded in the check list, which is
    /// rebuilt from scratch on every pass. Finding nothing resets the
    /// status to `InProgress`. A terminal `GameOver` is never downgraded.
    fn check_check(&mut self, from: usize)
        requires
            old(self).wf(),
            old(self)@.check_moves is None,
            from < 64,
        ensures
            final(self).wf(),
            final(self)@.squares == old(self)@.squares,
            final(self)@.turn == old(self)@.turn,
            final(self)@.selected == old(self)@.selected,
            ({
                let pairs = crate::model::scan_pairs(old(self)@, from as int);
                &&& final(self)@.check_moves == (if pairs.len() > 0 {
                    Some(pairs)
                } else {
                    None::<Seq<(usize, usize)>>
                })
                &&& final(self)@.game_state == (if old(self)@.game_state == GameState::GameOver {
                    GameState::GameOver
                } else if pairs.len() > 0 {
                    GameState::Check
                } else {
                    GameState::InProgress
                })
            }),
    {
        let ms = self.get_valid_moves(from);
        let mut pairs: Vec<(usize, usize)> = Vec::new();
        let mut i: usize = 0;
        proof {
            assert(pairs@ + crate::model::pairs_from(self@, from as int, ms@, 0)
                =~= crate::model::scan_pairs(self@, from as int));
        }
        while i < ms.len()
            invariant
                self.wf(),
                i <= ms@.len(),
                from < 64,
                ms@ == moves_f(self@, from as int),
                pairs@ + crate::model::pairs_from(self@, from as int, ms@, i as int)
                    == crate::model::scan_pairs(self@, from as int),
            decreases ms@.len() - i,
        {
            let t = ms[i];
            let ghost rest = crate::model::pairs_from(self@, from as int, ms@, i as int + 1);
            let c = self.valid_move(from, t);
            if c == MoveClass::Capture {
                proof {
                    assert(crate::model::classify0(self@, from as int, t as int)
                        == MoveClass::Capture);
                }
                if let Some(q) = self.board[t] {
                    let mover = self.board[from].unwrap();
                    if q.kind == PieceKind::King && q.color != mover.color {
                        pairs.push((from, t));
                        proof {
                            assert(pairs@ + rest =~= crate::model::scan_pairs(
                                self@,
                                from as int,
                            ));
                        }
                    }
                }
            }
            i += 1;
        }
        proof {
            assert(pairs@ + crate::model::pairs_from(self@, from as int, ms@, ms@.len() as int)
                =~= pairs@);
        }
        if pairs.len() > 0 {
            if self.game_state != GameState::GameOver {
                self.game_state = GameState::Check;
            }
            self.check_moves = Some(pairs);
        } else {
            if self.game_state != GameState::GameOver {
                self.game_state = GameState::InProgress;
            }
            self.check_moves = None;
        }
    }

    /// Commit the move `from -> to`. A blocked attempt (wrong turn, out of
    /// shape, own-piece occupancy, failing the self-exposure filter, or an
    /// empty or out-of-range source) leaves the board unchanged: the caller
    /// is expected to have filtered candidates via [`Self::get_valid_moves`],
    /// so that path is a defensive backstop. A committed move marks the
    /// piece as moved, transfers it, reruns the check scan from the
    /// destination, and flips the side to move; capturing the opposing
    /// king forces `GameOver`, which no later move ever downgrades.
    pub fn move_piece(&mut self, from: usize, to: usize)
        requires
            old(self).wf(),
        ensures
            final(self).wf(),
            final(self)@ == move_result(old(self)@, from as int, to as int),
            // After any committed move the side to move is the logical
            // opposite of its value immediately before the move.
            classify_f(old(self)@, from as int, to as int) != MoveClass::Blocked
                ==> final(self)@.turn == flip(old(self)@.turn),
            // A terminal game is never resumed.
            old(self)@.game_state == GameState::GameOver ==> final(self)@.game_state
                == GameState::GameOver,
            // Capturing the opposing king ends the game.
            classify_f(old(self)@, from as int, to as int) == MoveClass::Capture
                && piece_at(old(self)@, to as int).unwrap().kind == PieceKind::King
                ==> final(self)@.game_state == GameState::GameOver,
    {
        if from >= 64 {
            return;
        }
        let p = match self.board[from] {
            None => {
                return;
            },
            Some(p) => p,
        };
        let c = self.valid_move(from, to);
        if c == MoveClass::Blocked {
            // The illegal attempt is reported by the surrounding caller;
            // the board is left untouched.
            return;
        }
        proof {
            assert(crate::model::classify0(self@, from as int, to as int) != MoveClass::Blocked);
        }
        let captured = self.board[to];
        let mover = Piece { kind: p.kind, color: p.color, has_moved: true };
        self.board[to] = Some(mover);
        self.board[from] = None;
        self.check_moves = None;
        self.check_check(to);
        self.turn = flip_color(self.turn);
        if c == MoveClass::Capture {
            if let Some(q) = captured {
                if q.kind == PieceKind::King {
                    self.game_state = GameState::GameOver;
                }
            }
        }
    }
}

/// Whether a destination list contains a square.
fn contains_square(v: &Vec<usize>, x: usize) -> (b: bool)
    ensures
        b == v@.contains(x),
{
    let mut i: usize = 0;
    while i < v.len()
        invariant
            i <= v@.len(),
            forall|j: int| 0 <= j < i ==> v@[j] != x,
        decreases v@.len() - i,
    {
        if v[i] == x {
            return true;
        }
        i += 1;
    }
    false
}

} // verus!
