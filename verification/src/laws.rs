//! The engine's laws, stated over the ghost model and proved once and for
//! all: empty squares generate nothing, generated destinations respect
//! the shape test, sliding rays stop at the first blocker, the pawn's
//! push/attack asymmetry, the turn flip, and the persistence of a
//! finished game.

use vstd::prelude::*;

use crate::board::GameState;
use crate::board::MoveClass;
use crate::model::classify_f;
use crate::model::move_result;
use crate::model::moves_f;
use crate::model::pawn_attack;
use crate::model::pawn_forward;
use crate::model::piece_at;
use crate::model::ray;
use crate::model::rays_from;
use crate::model::shape_ok;
use crate::model::wf;
use crate::model::BoardModel;
use crate::piece::flip;
use crate::piece::Color;
use crate::piece::PieceKind;

verus! {

/// The square at step `i` of a ray: `pos + mv * i`. Named so that it can
/// serve as a quantifier trigger.
pub open spec fn ray_square(pos: int, mv: int, i: int) -> int {
    pos + mv * i
}

/// An empty or out-of-range square generates no destinations.
pub proof fn lemma_empty_square_no_moves(m: BoardModel, pos: int)
    requires
        piece_at(m, pos) is None,
    ensures
        moves_f(m, pos) == Seq::<usize>::empty(),
{
}

/// Every square that a ray walk accepts was classified as a quiet move or
/// a capture (never blocked), lies on the board, and is `pos + mv*i` for
/// some step `i` of the walk.
pub proof fn lemma_ray_classified(m: BoardModel, pos: int, mv: int, step: int, last: int)
    ensures
        forall|q: int|
            0 <= q < ray(m, pos, mv, step, last).len() ==> {
                let x = #[trigger] ray(m, pos, mv, step, last)[q];
                &&& classify_f(m, pos, x as int) != MoveClass::Blocked
                &&& 0 <= x < 64
                &&& exists|i: int| step <= i <= last && x as int == #[trigger] ray_square(pos, mv, i)
            },
    decreases last + 1 - step,
{
    if step > last {
    } else {
        let cand = pos + mv * step;
        let c = classify_f(m, pos, cand);
        if c == MoveClass::Quiet || c == MoveClass::Capture {
            assert(crate::model::classify0(m, pos, cand) == c);
            assert(0 <= cand < 64);
            let rest = ray(m, pos, mv, step + 1, last);
            lemma_ray_classified(m, pos, mv, step + 1, last);
            assert forall|q: int| 0 <= q < ray(m, pos, mv, step, last).len() implies {
                let x = #[trigger] ray(m, pos, mv, step, last)[q];
                &&& classify_f(m, pos, x as int) != MoveClass::Blocked
                &&& 0 <= x < 64
                &&& exists|i: int| step <= i <= last && x as int == #[trigger] ray_square(pos, mv, i)
            } by {
                let x = ray(m, pos, mv, step, last)[q];
                if q == 0 {
                    assert(x == cand as usize);
                    assert(ray_square(pos, mv, step) == pos + mv * step);
                    assert(step <= step <= last && x as int == ray_square(pos, mv, step));
                } else {
                    assert(x == rest[q - 1]);
                    let i = choose|i: int|
                        step + 1 <= i <= last && rest[q - 1] as int == #[trigger] ray_square(
                            pos,
                            mv,
                            i,
                        );
                    assert(step <= i <= last && x as int == ray_square(pos, mv, i));
                }
            }
        }
    }
}

/// The same, lifted to the concatenation of all rays of a move table.
pub proof fn lemma_rays_from_classified(m: BoardModel, pos: int, offs: Seq<i32>, i: int, max: int)
    ensures
        forall|q: int|
            0 <= q < rays_from(m, pos, offs, i, max).len() ==> {
                let x = #[trigger] rays_from(m, pos, offs, i, max)[q];
                &&& classify_f(m, pos, x as int) != MoveClass::Blocked
                &&& 0 <= x < 64
            },
    decreases offs.len() - i,
{
    if i < 0 || i >= offs.len() {
    } else {
        let head = ray(m, pos, offs[i] as int, 1, max);
        let tail = rays_from(m, pos, offs, i + 1, max);
        lemma_ray_classified(m, pos, offs[i] as int, 1, max);
        lemma_rays_from_classified(m, pos, offs, i + 1, max);
        assert forall|q: int| 0 <= q < rays_from(m, pos, offs, i, max).len() implies {
            let x = #[trigger] rays_from(m, pos, offs, i, max)[q];
            &&& classify_f(m, pos, x as int) != MoveClass::Blocked
            &&& 0 <= x < 64
        } by {
            if q < head.len() {
                assert(rays_from(m, pos, offs, i, max)[q] == head[q]);
            } else {
                assert(rays_from(m, pos, offs, i, max)[q] == tail[q - head.len()]);
            }
        }
    }
}

/// Every destination generated for a non-pawn satisfies the piece's
/// geometric shape test relative to its square (and lies on the board).
pub proof fn lemma_moves_satisfy_shape(m: BoardModel, pos: int)
    requires
        piece_at(m, pos) is Some,
        piece_at(m, pos).unwrap().kind != PieceKind::Pawn,
    ensures
        forall|q: int|
            0 <= q < moves_f(m, pos).len() ==> {
                let x = #[trigger] moves_f(m, pos)[q];
                &&& shape_ok(piece_at(m, pos).unwrap().kind, pos, x as int)
                &&& 0 <= x < 64
            },
{
    let p = piece_at(m, pos).unwrap();
    let offs = crate::piece::kind_offsets(p.kind, p.color);
    let max = crate::piece::kind_max_steps(p.kind) as int;
    lemma_rays_from_classified(m, pos, offs, 0, max);
    assert forall|q: int| 0 <= q < moves_f(m, pos).len() implies {
        let x = #[trigger] moves_f(m, pos)[q];
        &&& shape_ok(piece_at(m, pos).unwrap().kind, pos, x as int)
        &&& 0 <= x < 64
    } by {
        let x = moves_f(m, pos)[q];
        assert(moves_f(m, pos) == rays_from(m, pos, offs, 0, max));
        assert(classify_f(m, pos, x as int) != MoveClass::Blocked);
        assert(crate::model::classify0(m, pos, x as int) != MoveClass::Blocked);
    }
}

/// The quiet prefix of a ray: the squares at steps `step`, ..., `k - 1`.
pub open spec fn quiet_run(pos: int, mv: int, step: int, k: int) -> Seq<usize> {
    Seq::new((k - step) as nat, |t: int| (pos + mv * (step + t)) as usize)
}

/// Sliding-ray blocking. With every square strictly before step `k` along
/// the ray a quiet move, a piece standing on the step-`k` square ends the
/// ray there: when capturing it is legal the blocker square is exactly
/// the ray's last entry, otherwise the blocker square itself is excluded;
/// in both cases nothing beyond step `k` is generated (see
/// [`lemma_nothing_beyond_blocker`]).
pub proof fn lemma_ray_blocker(m: BoardModel, pos: int, mv: int, step: int, last: int, k: int)
    requires
        1 <= step <= k <= last,
        forall|j: int|
            step <= j < k ==> classify_f(m, pos, #[trigger] ray_square(pos, mv, j))
                == MoveClass::Quiet,
        piece_at(m, pos + mv * k) is Some,
    ensures
        classify_f(m, pos, pos + mv * k) == MoveClass::Capture ==> ray(m, pos, mv, step, last)
            =~= quiet_run(pos, mv, step, k).push((pos + mv * k) as usize),
        classify_f(m, pos, pos + mv * k) != MoveClass::Capture ==> ray(m, pos, mv, step, last)
            =~= quiet_run(pos, mv, step, k),
    decreases k - step,
{
    let blocker = pos + mv * k;
    assert(classify_f(m, pos, blocker) != MoveClass::Quiet);
    if step == k {
        assert(quiet_run(pos, mv, step, k) =~= Seq::<usize>::empty());
    } else {
        assert(ray_square(pos, mv, step) == pos + mv * step);
        assert(classify_f(m, pos, pos + mv * step) == MoveClass::Quiet);
        lemma_ray_blocker(m, pos, mv, step + 1, last, k);
        if classify_f(m, pos, blocker) == MoveClass::Capture {
            assert(ray(m, pos, mv, step, last) =~= quiet_run(pos, mv, step, k).push(
                blocker as usize,
            ));
        } else {
            assert(ray(m, pos, mv, step, last) =~= quiet_run(pos, mv, step, k));
        }
    }
}

/// No destination beyond a blocker: with a blocking piece of either color
/// at step `k` of a ray (and the squares before it quiet), no square
/// strictly beyond step `k` on that ray is ever generated.
pub proof fn lemma_nothing_beyond_blocker(
    m: BoardModel,
    pos: int,
    mv: int,
    last: int,
    k: int,
    j: int,
)
    requires
        mv != 0,
        1 <= k <= last,
        forall|jj: int|
            1 <= jj < k ==> classify_f(m, pos, #[trigger] ray_square(pos, mv, jj))
                == MoveClass::Quiet,
        piece_at(m, pos + mv * k) is Some,
        k < j,
        0 <= pos + mv * j < 64,
    ensures
        !ray(m, pos, mv, 1, last).contains((pos + mv * j) as usize),
{
    lemma_ray_blocker(m, pos, mv, 1, last, k);
    let r = ray(m, pos, mv, 1, last);
    let x = (pos + mv * j) as usize;
    assert forall|q: int| 0 <= q < r.len() implies r[q] != x by {
        let i: int = if q < k - 1 {
            1 + q
        } else {
            k
        };
        assert(r[q] == ((pos + mv * i) as usize));
        assert(classify_f(m, pos, pos + mv * i) != MoveClass::Blocked ==> 0 <= pos + mv * i < 64);
        if i < k {
            assert(ray_square(pos, mv, i) == pos + mv * i);
            assert(classify_f(m, pos, pos + mv * i) == MoveClass::Quiet);
        } else {
            assert(0 <= pos + mv * i < 64);
        }
        assert(pos + mv * i != pos + mv * j) by (nonlinear_arith)
            requires
                mv != 0,
                i < j,
        ;
    }
    if r.contains(x) {
        let q = choose|q: int| 0 <= q < r.len() && r[q] == x;
        assert(false);
    }
}

/// The pawn's push/attack asymmetry. Before its first move a pawn with
/// both forward squares free reaches exactly those two squares besides
/// its attacks; after its first move the far square is out of reach; and
/// a diagonal attack square appears exactly when capturing there is
/// legal, i.e. (with the pawn to move and no pending check attack) exactly
/// when an opposing piece occupies it.
pub proof fn lemma_pawn_moves(m: BoardModel, pos: int)
    requires
        wf(m),
        0 <= pos < 64,
        piece_at(m, pos) is Some,
        piece_at(m, pos).unwrap().kind == PieceKind::Pawn,
    ensures
        ({
            let p = piece_at(m, pos).unwrap();
            let mv: int = if p.color == Color::White {
                -8
            } else {
                8
            };
            let f1 = pos + mv;
            let f2 = pos + 2 * mv;
            let a1 = pos + mv + 1;
            let a2 = pos + mv - 1;
            &&& (!p.has_moved && classify_f(m, pos, f1) == MoveClass::Quiet && classify_f(
                m,
                pos,
                f2,
            ) == MoveClass::Quiet ==> moves_f(m, pos) == pawn_attack(m, pos, a1) + pawn_attack(
                m,
                pos,
                a2,
            ) + seq![f1 as usize, f2 as usize])
            &&& (p.has_moved && 0 <= f2 < 64 ==> !moves_f(m, pos).contains(f2 as usize))
            &&& (classify_f(m, pos, a1) == MoveClass::Capture ==> moves_f(m, pos).contains(
                a1 as usize,
            ))
            &&& (classify_f(m, pos, a2) == MoveClass::Capture ==> moves_f(m, pos).contains(
                a2 as usize,
            ))
            &&& (m.check_moves is None && p.color == m.turn && 0 <= a1 < 64 ==> (moves_f(
                m,
                pos,
            ).contains(a1 as usize) <==> (shape_ok(PieceKind::Pawn, pos, a1) && piece_at(m, a1)
                is Some && piece_at(m, a1).unwrap().color != p.color)))
            &&& (m.check_moves is None && p.color == m.turn && 0 <= a2 < 64 ==> (moves_f(
                m,
                pos,
            ).contains(a2 as usize) <==> (shape_ok(PieceKind::Pawn, pos, a2) && piece_at(m, a2)
                is Some && piece_at(m, a2).unwrap().color != p.color)))
        }),
{
    let p = piece_at(m, pos).unwrap();
    let mv: int = if p.color == Color::White {
        -8
    } else {
        8
    };
    let steps: int = if p.has_moved {
        1
    } else {
        2
    };
    let f1 = pos + mv;
    let f2 = pos + 2 * mv;
    let a1 = pos + mv + 1;
    let a2 = pos + mv - 1;
    let att1 = pawn_attack(m, pos, a1);
    let att2 = pawn_attack(m, pos, a2);
    let pf = pawn_forward(m, pos, mv, 1, steps);
    assert(moves_f(m, pos) == att1 + att2 + pf);
    assert(pos + mv * 1 == f1);
    assert(pos + mv * 2 == f2);

    // The two-square initial push.
    if !p.has_moved && classify_f(m, pos, f1) == MoveClass::Quiet && classify_f(m, pos, f2)
        == MoveClass::Quiet {
        assert(pawn_forward(m, pos, mv, 3, 2) =~= Seq::<usize>::empty());
        assert(pf =~= seq![f1 as usize, f2 as usize]);
    }

    // Bounds of everything the generator accepts.
    if classify_f(m, pos, a1) == MoveClass::Capture {
        assert(crate::model::classify0(m, pos, a1) == MoveClass::Capture);
        assert(0 <= a1 < 64);
        assert(att1 == seq![a1 as usize]);
        assert(moves_f(m, pos)[0] == a1 as usize);
    } else {
        assert(att1 =~= Seq::<usize>::empty());
    }
    if classify_f(m, pos, a2) == MoveClass::Capture {
        assert(crate::model::classify0(m, pos, a2) == MoveClass::Capture);
        assert(0 <= a2 < 64);
        assert(att2 == seq![a2 as usize]);
        assert(moves_f(m, pos)[att1.len() as int] == a2 as usize);
    } else {
        assert(att2 =~= Seq::<usize>::empty());
    }

    // The far square after the first move: the forward walk stops at one
    // step, and neither attack square coincides with it.
    if p.has_moved && 0 <= f2 < 64 {
        assert(steps == 1);
        assert forall|q: int| 0 <= q < moves_f(m, pos).len() implies moves_f(m, pos)[q]
            != (f2 as usize) by {
            let x = moves_f(m, pos)[q];
            if q < att1.len() {
                assert(x == a1 as usize);
                assert(classify_f(m, pos, a1) == MoveClass::Capture);
                assert(0 <= a1 < 64);
            } else if q < att1.len() + att2.len() {
                assert(x == a2 as usize);
                assert(classify_f(m, pos, a2) == MoveClass::Capture);
                assert(0 <= a2 < 64);
            } else {
                assert(x == pf[q - att1.len() - att2.len()]);
                assert(pawn_forward(m, pos, mv, 2, 1) =~= Seq::<usize>::empty());
                assert(x == f1 as usize);
                assert(classify_f(m, pos, f1) == MoveClass::Quiet);
                assert(crate::model::classify0(m, pos, f1) == MoveClass::Quiet);
                assert(0 <= f1 < 64);
            }
        }
        if moves_f(m, pos).contains(f2 as usize) {
            let q = choose|q: int|
                0 <= q < moves_f(m, pos).len() && moves_f(m, pos)[q] == (f2 as usize);
            assert(false);
        }
    }

    // The diagonal iff: a capture classification is exactly an opposing
    // occupant once the pawn is to move and no check attack is pending.
    if m.check_moves is None && p.color == m.turn {
        assert(!crate::model::exposed(m, pos, a1));
        assert(!crate::model::exposed(m, pos, a2));
        lemma_pawn_attack_membership(m, pos, a1, a2, mv);
    }
}

/// Helper for the diagonal iff of [`lemma_pawn_moves`]: membership of an
/// attack square in the generated list coincides with its capture
/// classification.
proof fn lemma_pawn_attack_membership(m: BoardModel, pos: int, a1: int, a2: int, mv: int)
    requires
        wf(m),
        0 <= pos < 64,
        piece_at(m, pos) is Some,
        piece_at(m, pos).unwrap().kind == PieceKind::Pawn,
        mv == (if piece_at(m, pos).unwrap().color == Color::White {
            -8int
        } else {
            8int
        }),
        a1 == pos + mv + 1,
        a2 == pos + mv - 1,
    ensures
        0 <= a1 < 64 ==> (moves_f(m, pos).contains(a1 as usize) <==> classify_f(m, pos, a1)
            == MoveClass::Capture),
        0 <= a2 < 64 ==> (moves_f(m, pos).contains(a2 as usize) <==> classify_f(m, pos, a2)
            == MoveClass::Capture),
{
    let p = piece_at(m, pos).unwrap();
    let steps: int = if p.has_moved {
        1
    } else {
        2
    };
    let att1 = pawn_attack(m, pos, a1);
    let att2 = pawn_attack(m, pos, a2);
    let pf = pawn_forward(m, pos, mv, 1, steps);
    assert(moves_f(m, pos) == att1 + att2 + pf);
    lemma_pawn_forward_elements(m, pos, mv, 1, steps);
    assert forall|q: int| 0 <= q < moves_f(m, pos).len() implies {
        let x = #[trigger] moves_f(m, pos)[q];
        &&& 0 <= x < 64
        &&& (x as int == a1 ==> classify_f(m, pos, a1) == MoveClass::Capture)
        &&& (x as int == a2 ==> classify_f(m, pos, a2) == MoveClass::Capture)
    } by {
        let x = moves_f(m, pos)[q];
        if q < att1.len() {
            assert(classify_f(m, pos, a1) == MoveClass::Capture);
            assert(crate::model::classify0(m, pos, a1) == MoveClass::Capture);
            assert(x == a1 as usize);
        } else if q < att1.len() + att2.len() {
            assert(classify_f(m, pos, a2) == MoveClass::Capture);
            assert(crate::model::classify0(m, pos, a2) == MoveClass::Capture);
            assert(x == a2 as usize);
        } else {
            let qq = q - att1.len() - att2.len();
            assert(x == pf[qq]);
            assert(exists|i: int|
                1 <= i <= steps && pf[qq] as int == #[trigger] ray_square(pos, mv, i));
            let i = choose|i: int|
                1 <= i <= steps && pf[qq] as int == #[trigger] ray_square(pos, mv, i);
            assert(pos + mv * 1 == pos + mv);
            assert(pos + mv * 2 == pos + mv + mv);
            assert(x as int != a1 && x as int != a2);
        }
    }
    if 0 <= a1 < 64 {
        if classify_f(m, pos, a1) == MoveClass::Capture {
            assert(moves_f(m, pos)[0] == a1 as usize);
            assert(moves_f(m, pos).contains(a1 as usize));
        }
        if moves_f(m, pos).contains(a1 as usize) {
            let q = choose|q: int|
                0 <= q < moves_f(m, pos).len() && moves_f(m, pos)[q] == (a1 as usize);
            assert(moves_f(m, pos)[q] as int == a1);
        }
    }
    if 0 <= a2 < 64 {
        if classify_f(m, pos, a2) == MoveClass::Capture {
            assert(moves_f(m, pos)[att1.len() as int] == a2 as usize);
            assert(moves_f(m, pos).contains(a2 as usize));
        }
        if moves_f(m, pos).contains(a2 as usize) {
            let q = choose|q: int|
                0 <= q < moves_f(m, pos).len() && moves_f(m, pos)[q] == (a2 as usize);
            assert(moves_f(m, pos)[q] as int == a2);
        }
    }
}

/// Every square the pawn's forward walk accepts is a quiet move at some
/// walked step.
proof fn lemma_pawn_forward_elements(m: BoardModel, pos: int, mv: int, step: int, last: int)
    ensures
        forall|q: int|
            0 <= q < pawn_forward(m, pos, mv, step, last).len() ==> {
                let x = #[trigger] pawn_forward(m, pos, mv, step, last)[q];
                &&& classify_f(m, pos, x as int) == MoveClass::Quiet
                &&& 0 <= x < 64
                &&& exists|i: int| step <= i <= last && x as int == #[trigger] ray_square(pos, mv, i)
            },
    decreases last + 1 - step,
{
    if step > last {
    } else {
        let cand = pos + mv * step;
        if classify_f(m, pos, cand) == MoveClass::Quiet {
            assert(crate::model::classify0(m, pos, cand) == MoveClass::Quiet);
            assert(0 <= cand < 64);
            let rest = pawn_forward(m, pos, mv, step + 1, last);
            lemma_pawn_forward_elements(m, pos, mv, step + 1, last);
            assert forall|q: int| 0 <= q < pawn_forward(m, pos, mv, step, last).len() implies {
                let x = #[trigger] pawn_forward(m, pos, mv, step, last)[q];
                &&& classify_f(m, pos, x as int) == MoveClass::Quiet
                &&& 0 <= x < 64
                &&& exists|i: int| step <= i <= last && x as int == #[trigger] ray_square(pos, mv, i)
            } by {
                let x = pawn_forward(m, pos, mv, step, last)[q];
                if q == 0 {
                    assert(x == cand as usize);
                    assert(ray_square(pos, mv, step) == pos + mv * step);
                    assert(step <= step <= last && x as int == ray_square(pos, mv, step));
                } else {
                    assert(x == rest[q - 1]);
                    let i = choose|i: int|
                        step + 1 <= i <= last && rest[q - 1] as int == #[trigger] ray_square(
                            pos,
                            mv,
                            i,
                        );
                    assert(step <= i <= last && x as int == ray_square(pos, mv, i));
                }
            }
        }
    }
}

/// After any committed move the side to move is the logical opposite of
/// its value immediately before the move.
pub proof fn lemma_move_flips_turn(m: BoardModel, from: int, to: int)
    requires
        classify_f(m, from, to) != MoveClass::Blocked,
    ensures
        move_result(m, from, to).turn == flip(m.turn),
{
    assert(crate::model::classify0(m, from, to) != MoveClass::Blocked);
}

/// A terminal game stays terminal: no later committed move ever leaves
/// `GameOver`.
pub proof fn lemma_game_over_persists(m: BoardModel, from: int, to: int)
    requires
        m.game_state == GameState::GameOver,
    ensures
        move_result(m, from, to).game_state == GameState::GameOver,
{
}

/// Capturing the opposing king ends the game.
pub proof fn lemma_king_capture_ends_game(m: BoardModel, from: int, to: int)
    requires
        classify_f(m, from, to) == MoveClass::Capture,
        piece_at(m, to).unwrap().kind == PieceKind::King,
    ensures
        move_result(m, from, to).game_state == GameState::GameOver,
{
    assert(crate::model::classify0(m, from, to) == MoveClass::Capture);
}

} // verus!
