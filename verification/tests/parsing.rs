use chess::create_board;
use chess::Color;
use chess::GameState;
use chess::ParseError;
use chess::PieceKind;

/// The default construction yields the textbook starting position:
/// 16 pieces per side on the back and pawn ranks, White to move.
#[test]
fn default_board_is_standard_start() {
    let b = create_board(None).unwrap();
    let back = [
        PieceKind::Rook,
        PieceKind::Knight,
        PieceKind::Bishop,
        PieceKind::Queen,
        PieceKind::King,
        PieceKind::Bishop,
        PieceKind::Knight,
        PieceKind::Rook,
    ];
    let mut white = 0;
    let mut black = 0;
    for sq in 0..64 {
        match b.get_piece(sq) {
            Some(p) => {
                if p.color == Color::White {
                    white += 1;
                } else {
                    black += 1;
                }
                assert!(!p.has_moved);
                match sq {
                    0..=7 => {
                        assert_eq!(p.kind, back[sq]);
                        assert_eq!(p.color, Color::Black);
                    }
                    8..=15 => {
                        assert_eq!(p.kind, PieceKind::Pawn);
                        assert_eq!(p.color, Color::Black);
                    }
                    48..=55 => {
                        assert_eq!(p.kind, PieceKind::Pawn);
                        assert_eq!(p.color, Color::White);
                    }
                    56..=63 => {
                        assert_eq!(p.kind, back[sq - 56]);
                        assert_eq!(p.color, Color::White);
                    }
                    _ => panic!("piece on a square that should be empty: {}", sq),
                }
            }
            None => assert!((16..48).contains(&sq)),
        }
    }
    assert_eq!(white, 16);
    assert_eq!(black, 16);
    assert_eq!(b.turn, Color::White);
    assert_eq!(b.game_state, GameState::InProgress);
    assert_eq!(b.selected, None);
}

/// An explicit descriptor equal to the default gives the same board.
#[test]
fn explicit_default_descriptor() {
    let b = create_board(Some("rnbqkbnr/pppppppp/8/8/8/8/PPPPPPPP/RNBQKBNR w KQkq - 0 1"))
        .unwrap();
    let d = create_board(None).unwrap();
    for sq in 0..64 {
        assert_eq!(b.get_piece(sq), d.get_piece(sq));
    }
    assert_eq!(b.turn, d.turn);
}

/// Field 2 starting with `b` gives Black the move.
#[test]
fn black_to_move_descriptor() {
    let b = create_board(Some("rnbqkbnr/pppppppp/8/8/8/8/PPPPPPPP/RNBQKBNR b KQkq - 0 1"))
        .unwrap();
    assert_eq!(b.turn, Color::Black);
}

/// Any other leading character in field 2 silently defaults to White.
#[test]
fn unknown_turn_character_defaults_to_white() {
    let b = create_board(Some("8/8/8/8/8/8/8/R7 x - - 0 1")).unwrap();
    assert_eq!(b.turn, Color::White);
}

/// A descriptor with 5 fields fails with the wrong-field-count error.
#[test]
fn five_fields_rejected() {
    let r = create_board(Some("rnbqkbnr/pppppppp/8/8/8/8/PPPPPPPP/RNBQKBNR w KQkq - 0"));
    assert!(matches!(r, Err(ParseError::WrongFieldCount)));
}

/// A descriptor with 7 fields fails with the wrong-field-count error.
#[test]
fn seven_fields_rejected() {
    let r = create_board(Some("rnbqkbnr/pppppppp/8/8/8/8/PPPPPPPP/RNBQKBNR w KQkq - 0 1 extra"));
    assert!(matches!(r, Err(ParseError::WrongFieldCount)));
}

/// A placement whose last rank describes only 7 squares fails with the
/// rank-length error; no board is produced.
#[test]
fn short_last_rank_rejected() {
    let r = create_board(Some("pppppppp/8/8/8/8/8/8/PPPPPPP w - - 0 1"));
    assert!(matches!(r, Err(ParseError::RankLengthMismatch)));
}

/// A placement whose first rank describes 7 squares fails the same way.
#[test]
fn short_first_rank_rejected() {
    let r = create_board(Some("ppppppp/8/8/8/8/8/8/PPPPPPPP w - - 0 1"));
    assert!(matches!(r, Err(ParseError::RankLengthMismatch)));
}

/// A rank with too many squares fails with the rank-length error.
#[test]
fn long_rank_rejected() {
    let r = create_board(Some("rnbqkbnr/ppppppppp/8/8/8/8/PPPPPPPP/RNBQKBNR w KQkq - 0 1"));
    assert!(matches!(r, Err(ParseError::RankLengthMismatch)));
}

/// A single-piece placement puts exactly that piece on the board.
#[test]
fn single_rook_placement() {
    let b = create_board(Some("8/8/8/8/8/8/8/R7 w - - 0 1")).unwrap();
    for sq in 0..64 {
        if sq == 56 {
            let p = b.get_piece(sq).unwrap();
            assert_eq!(p.kind, PieceKind::Rook);
            assert_eq!(p.color, Color::White);
        } else {
            assert_eq!(b.get_piece(sq), None);
        }
    }
}
