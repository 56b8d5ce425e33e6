use chess::create_board;
use chess::Color;
use chess::GameState;
use chess::PieceKind;

/// An empty square generates no destinations; neither does an
/// out-of-range one.
#[test]
fn empty_square_has_no_moves() {
    let b = create_board(None).unwrap();
    for sq in 16..48 {
        assert!(b.get_valid_moves(sq).is_empty());
    }
    assert!(b.get_valid_moves(64).is_empty());
    assert!(b.get_valid_moves(usize::MAX).is_empty());
}

/// The lone-rook scenario: a white rook on the bottom-left square reaches
/// all 14 squares of its rank and file, none blocked.
#[test]
fn lone_rook_reaches_rank_and_file() {
    let b = create_board(Some("8/8/8/8/8/8/8/R7 w - - 0 1")).unwrap();
    let moves = b.get_valid_moves(56);
    assert_eq!(moves, vec![48, 40, 32, 24, 16, 8, 0, 57, 58, 59, 60, 61, 62, 63]);
}

/// Every generated destination of a non-pawn satisfies its shape test:
/// spot-checked on the knight, whose two reachable squares from the
/// starting position are exactly the (2,1)-pattern ones.
#[test]
fn knight_moves_from_start() {
    let b = create_board(None).unwrap();
    assert_eq!(b.get_valid_moves(57), vec![40, 42]);
    assert_eq!(b.get_valid_moves(62), vec![45, 47]);
}

/// No other piece can move through the starting position's pawn wall.
#[test]
fn sliders_blocked_at_start() {
    let b = create_board(None).unwrap();
    assert!(b.get_valid_moves(56).is_empty()); // rook
    assert!(b.get_valid_moves(58).is_empty()); // bishop
    assert!(b.get_valid_moves(59).is_empty()); // queen
    assert!(b.get_valid_moves(60).is_empty()); // king
}

/// A same-color blocker ends the ray before the blocker square.
#[test]
fn same_color_blocker_excluded() {
    let b = create_board(Some("8/8/8/8/R7/8/8/R7 w - - 0 1")).unwrap();
    // The lower rook's upward ray stops before its brother on square 32.
    let moves = b.get_valid_moves(56);
    assert_eq!(moves, vec![48, 40, 57, 58, 59, 60, 61, 62, 63]);
    assert!(!moves.contains(&32));
    assert!(!moves.contains(&24));
}

/// An opposite-color blocker is included as exactly the ray's last entry;
/// nothing beyond it appears.
#[test]
fn opposite_color_blocker_is_last() {
    let b = create_board(Some("8/8/8/8/r7/8/8/R7 w - - 0 1")).unwrap();
    let moves = b.get_valid_moves(56);
    assert_eq!(moves, vec![48, 40, 32, 57, 58, 59, 60, 61, 62, 63]);
    // The blocker square 32 is the last entry of the upward ray.
    assert_eq!(moves[2], 32);
    assert!(!moves.contains(&24));
    assert!(!moves.contains(&16));
}

/// A fresh pawn reaches one and two squares ahead when both are empty;
/// after its first move only one.
#[test]
fn pawn_double_step_only_before_first_move() {
    let mut b = create_board(None).unwrap();
    assert_eq!(b.get_valid_moves(48), vec![40, 32]);
    b.move_piece(48, 40);
    // Black replies so the white pawn is to move again.
    b.move_piece(8, 16);
    assert_eq!(b.get_valid_moves(40), vec![32]);
}

/// A pawn's forward push is blocked by occupancy (no capture straight
/// ahead), while the diagonals appear exactly when an opposing piece
/// occupies them.
#[test]
fn pawn_attacks_and_blocked_push() {
    // Black pawn on d5 (27), white pawn on e4 (36): the white pawn can
    // capture diagonally onto 27 and push to 28 and 20.
    let b = create_board(Some("8/8/8/3p4/4P3/8/8/8 w - - 0 1")).unwrap();
    assert_eq!(b.get_valid_moves(36), vec![27, 28, 20]);

    // Face to face: neither a push through the blocker nor a straight
    // capture exists.
    let c = create_board(Some("8/8/8/4p3/4P3/8/8/8 w - - 0 1")).unwrap();
    assert!(c.get_valid_moves(36).is_empty());
}

/// A pawn on the edge file never wraps its attack around the board.
#[test]
fn pawn_edge_no_wraparound() {
    // White pawn on a4 (32), black pawn on h5 (31): numerically 31 is
    // 32 - 8 + 7, but it is on the opposite edge and must not appear.
    let b = create_board(Some("8/8/8/7p/P7/8/8/8 w - - 0 1")).unwrap();
    assert_eq!(b.get_valid_moves(32), vec![24, 16]);
}

/// After any committed move the side to move flips; a blocked attempt
/// leaves everything unchanged.
#[test]
fn turn_flips_on_commit_only() {
    let mut b = create_board(None).unwrap();
    assert_eq!(b.turn, Color::White);
    // Wrong turn: Black's pawn cannot move now.
    b.move_piece(8, 16);
    assert_eq!(b.turn, Color::White);
    assert!(b.get_piece(16).is_none());
    // Out of range squares are a no-op.
    b.move_piece(70, 3);
    b.move_piece(3, 70);
    assert_eq!(b.turn, Color::White);
    // A real move flips the turn.
    b.move_piece(52, 36);
    assert_eq!(b.turn, Color::Black);
    b.move_piece(12, 28);
    assert_eq!(b.turn, Color::White);
}

/// An illegal attempt (own-piece destination) leaves the board unchanged.
#[test]
fn blocked_attempt_changes_nothing() {
    let mut b = create_board(None).unwrap();
    b.move_piece(56, 48); // rook onto own pawn
    assert_eq!(b.get_piece(56).unwrap().kind, PieceKind::Rook);
    assert_eq!(b.get_piece(48).unwrap().kind, PieceKind::Pawn);
    assert!(!b.get_piece(56).unwrap().has_moved);
    assert_eq!(b.turn, Color::White);
    assert_eq!(b.game_state, GameState::InProgress);
}

/// Capturing the opposing king sets `GameOver`, and that status persists
/// through later calls, blocked or committed.
#[test]
fn king_capture_ends_game_for_good() {
    let mut b = create_board(Some("8/8/8/8/8/2RqK3/8/7k b - - 0 1")).unwrap();
    assert_eq!(b.game_state, GameState::InProgress);
    // The black queen takes the white king.
    b.move_piece(43, 44);
    assert_eq!(b.game_state, GameState::GameOver);
    assert_eq!(b.turn, Color::White);
    // A blocked attempt afterwards keeps the status.
    b.move_piece(63, 62);
    assert_eq!(b.game_state, GameState::GameOver);
    // Even a committed move (the rook recaptures the queen) keeps it.
    b.move_piece(42, 44);
    assert_eq!(b.game_state, GameState::GameOver);
    assert_eq!(b.get_piece(44).unwrap().kind, PieceKind::Rook);
}

/// Delivering check sets the status, and the self-exposure filter then
/// only lets the defender play moves that break the recorded attack.
#[test]
fn check_detection_and_escape_filter() {
    let mut b = create_board(Some("4k3/8/8/8/8/8/8/R7 w - - 0 1")).unwrap();
    // Rook slides under the black king: check.
    b.move_piece(56, 60);
    assert_eq!(b.game_state, GameState::Check);
    assert_eq!(b.turn, Color::Black);
    // Of the king's five in-range neighbours, only stepping onto the
    // rook's file (blocking the recorded attack square) survives the
    // filter; sidesteps leave the attack on the old square intact.
    assert_eq!(b.get_valid_moves(4), vec![12]);
    // The filtered moves are also refused on commit.
    b.move_piece(4, 3);
    assert_eq!(b.turn, Color::Black);
    b.move_piece(4, 12);
    assert_eq!(b.turn, Color::White);
    assert_eq!(b.get_piece(12).unwrap().kind, PieceKind::King);
}

/// A later scan with no attack found resets `Check` to `InProgress`.
#[test]
fn check_status_is_recomputed() {
    let mut b = create_board(Some("4k3/8/8/8/8/8/8/R7 w - - 0 1")).unwrap();
    b.move_piece(56, 60);
    assert_eq!(b.game_state, GameState::Check);
    b.move_piece(4, 12);
    assert_eq!(b.game_state, GameState::InProgress);
}

/// `get_moves` maps exactly the occupied squares to the same lists that
/// `get_valid_moves` returns.
#[test]
fn get_moves_matches_per_square_queries() {
    let b = create_board(None).unwrap();
    let map = b.get_moves();
    assert_eq!(map.len(), 32);
    for sq in 0..64 {
        match b.get_piece(sq) {
            Some(_) => assert_eq!(map.get(&sq), Some(&b.get_valid_moves(sq))),
            None => assert!(map.get(&sq).is_none()),
        }
    }
}

/// The shape test alone: occupancy-free geometry per kind, false on an
/// empty or out-of-range source.
#[test]
fn shape_test_basics() {
    let b = create_board(None).unwrap();
    // Rook 56: same file or rank.
    assert!(b.valid_move_in_bounds(56, 0));
    assert!(b.valid_move_in_bounds(56, 63));
    assert!(!b.valid_move_in_bounds(56, 49));
    // Knight 57: the (2,1) pattern.
    assert!(b.valid_move_in_bounds(57, 40));
    assert!(b.valid_move_in_bounds(57, 42));
    assert!(!b.valid_move_in_bounds(57, 41));
    // Bishop 58: equal deltas.
    assert!(b.valid_move_in_bounds(58, 40));
    assert!(!b.valid_move_in_bounds(58, 42));
    // Empty and out-of-range sources.
    assert!(!b.valid_move_in_bounds(30, 31));
    assert!(!b.valid_move_in_bounds(64, 0));
}

/// A black pawn walks down the board (toward higher indices).
#[test]
fn black_pawn_moves_downward() {
    let b = create_board(Some("8/3p4/8/8/8/8/8/8 b - - 0 1")).unwrap();
    assert_eq!(b.get_valid_moves(11), vec![19, 27]);
}

/// A queen in the middle of an empty board reaches all 27 squares of its
/// four lines, ray by ray.
#[test]
fn queen_open_board_rays() {
    let b = create_board(Some("8/8/8/3Q4/8/8/8/8 w - - 0 1")).unwrap();
    let moves = b.get_valid_moves(27);
    assert_eq!(
        moves,
        vec![
            35, 43, 51, 59, // down
            19, 11, 3, // up
            28, 29, 30, 31, // right
            26, 25, 24, // left
            36, 45, 54, 63, // down-right
            34, 41, 48, // down-left
            18, 9, 0, // up-left
            20, 13, 6, // up-right
        ]
    );
}

/// A knight in the corner never wraps around the board edge.
#[test]
fn knight_corner_no_wraparound() {
    let b = create_board(Some("8/8/8/8/8/8/8/7N w - - 0 1")).unwrap();
    assert_eq!(b.get_valid_moves(63), vec![46, 53]);
}

/// `selected` is caller-side bookkeeping: settable, readable, and without
/// effect on the rules.
#[test]
fn selected_is_plain_bookkeeping() {
    let mut b = create_board(None).unwrap();
    assert_eq!(b.selected, None);
    b.selected = Some(48);
    let before = b.get_valid_moves(48);
    assert_eq!(before, vec![40, 32]);
    assert_eq!(b.selected, Some(48));
}
