//! The position parser: a FEN-like descriptor of exactly 6
//! whitespace-separated fields, of which only the piece placement
//! (field 1) and the side to move (field 2) are semantically used; the
//! remaining four are accepted for shape only.

use vstd::prelude::*;

use crate::board::Board;
use crate::board::GameState;
use crate::model::BoardModel;
use crate::piece::Color;
use crate::piece::Piece;
use crate::piece::PieceKind;

verus! {

/// Why construction of a board from a descriptor failed.
#[derive(Clone, Copy, PartialEq, Eq, Structural, Debug)]
pub enum ParseError {
    /// The descriptor does not consist of exactly 6 whitespace-separated
    /// fields.
    WrongFieldCount,
    /// Some rank of the piece-placement field does not describe exactly 8
    /// squares.
    RankLengthMismatch,
}

/// The whitespace that separates descriptor fields.
pub open spec fn is_space(c: char) -> bool {
    c == ' ' || c == '\t' || c == '\n' || c == '\r' || c == '\u{b}' || c == '\u{c}'
}

/// One step of splitting: a space closes the current word (if any), any
/// other character extends it.
pub open spec fn split_step(fields: Seq<Seq<char>>, word: Seq<char>, c: char) -> (
    Seq<Seq<char>>,
    Seq<char>,
) {
    if is_space(c) {
        if word.len() > 0 {
            (fields.push(word), Seq::empty())
        } else {
            (fields, word)
        }
    } else {
        (fields, word.push(c))
    }
}

/// The split state after consuming the first `i` characters.
pub open spec fn split_rec(s: Seq<char>, i: int) -> (Seq<Seq<char>>, Seq<char>)
    decreases i,
{
    if i <= 0 {
        (Seq::empty(), Seq::empty())
    } else {
        let prev = split_rec(s, i - 1);
        split_step(prev.0, prev.1, s[i - 1])
    }
}

/// The whitespace-separated fields of a descriptor, in order. Every field
/// is non-empty; leading, trailing and repeated whitespace is ignored.
pub open spec fn split_fields(s: Seq<char>) -> Seq<Seq<char>> {
    let r = split_rec(s, s.len() as int);
    if r.1.len() > 0 {
        r.0.push(r.1)
    } else {
        r.0
    }
}

/// The fixed letter table: uppercase is White, lowercase is Black; any
/// unrecognized character denotes no piece (its square stays empty).
pub open spec fn letter_piece(c: char) -> Option<Piece> {
    if c == 'p' {
        Some(Piece { kind: PieceKind::Pawn, color: Color::Black, has_moved: false })
    } else if c == 'P' {
        Some(Piece { kind: PieceKind::Pawn, color: Color::White, has_moved: false })
    } else if c == 'r' {
        Some(Piece { kind: PieceKind::Rook, color: Color::Black, has_moved: false })
    } else if c == 'R' {
        Some(Piece { kind: PieceKind::Rook, color: Color::White, has_moved: false })
    } else if c == 'n' {
        Some(Piece { kind: PieceKind::Knight, color: Color::Black, has_moved: false })
    } else if c == 'N' {
        Some(Piece { kind: PieceKind::Knight, color: Color::White, has_moved: false })
    } else if c == 'b' {
        Some(Piece { kind: PieceKind::Bishop, color: Color::Black, has_moved: false })
    } else if c == 'B' {
        Some(Piece { kind: PieceKind::Bishop, color: Color::White, has_moved: false })
    } else if c == 'q' {
        Some(Piece { kind: PieceKind::Queen, color: Color::Black, has_moved: false })
    } else if c == 'Q' {
        Some(Piece { kind: PieceKind::Queen, color: Color::White, has_moved: false })
    } else if c == 'k' {
        Some(Piece { kind: PieceKind::King, color: Color::Black, has_moved: false })
    } else if c == 'K' {
        Some(Piece { kind: PieceKind::King, color: Color::White, has_moved: false })
    } else {
        None
    }
}

/// Whether a character is a run-length digit `1`..`8`.
pub open spec fn is_digit18(c: char) -> bool {
    c == '1' || c == '2' || c == '3' || c == '4' || c == '5' || c == '6' || c == '7' || c == '8'
}

/// The value of a run-length digit.
pub open spec fn digit18(c: char) -> int {
    if c == '1' {
        1
    } else if c == '2' {
        2
    } else if c == '3' {
        3
    } else if c == '4' {
        4
    } else if c == '5' {
        5
    } else if c == '6' {
        6
    } else if c == '7' {
        7
    } else {
        8
    }
}

/// The state of the placement scan: the squares filled so far, the square
/// count of the current rank, the number of completed ranks, and whether
/// every completed rank had exactly 8 squares. Once `ok` goes false the
/// state freezes.
pub struct PlaceState {
    pub squares: Seq<Option<Piece>>,
    pub width: int,
    pub height: int,
    pub ok: bool,
}

/// One step of the placement scan: `/` closes a rank (which must hold
/// exactly 8 squares), a digit skips that many empty squares, any other
/// character occupies one square via the letter table. Squares that fall
/// outside the board are ignored.
pub open spec fn place_step(st: PlaceState, c: char) -> PlaceState {
    if !st.ok {
        st
    } else if c == '/' {
        if st.width != 8 {
            PlaceState { squares: st.squares, width: st.width, height: st.height, ok: false }
        } else {
            PlaceState { squares: st.squares, width: 0, height: st.height + 1, ok: true }
        }
    } else if is_digit18(c) {
        PlaceState {
            squares: st.squares,
            width: st.width + digit18(c),
            height: st.height,
            ok: true,
        }
    } else {
        let pos = st.width + st.height * 8;
        let sq = if 0 <= pos < 64 {
            st.squares.update(pos, letter_piece(c))
        } else {
            st.squares
        };
        PlaceState { squares: sq, width: st.width + 1, height: st.height, ok: true }
    }
}

/// The placement state after consuming the first `i` characters of the
/// placement field.
pub open spec fn place_rec(f: Seq<char>, i: int) -> PlaceState
    decreases i,
{
    if i <= 0 {
        PlaceState {
            squares: Seq::new(64, |j: int| Option::<Piece>::None),
            width: 0,
            height: 0,
            ok: true,
        }
    } else {
        place_step(place_rec(f, i - 1), f[i - 1])
    }
}

/// The parsed placement field: the 64 squares, or the rank-length error
/// when any rank (the last one included) does not describe exactly 8
/// squares.
pub open spec fn placement_result(f: Seq<char>) -> Result<Seq<Option<Piece>>, ParseError> {
    let st = place_rec(f, f.len() as int);
    if st.ok && st.width == 8 {
        Ok(st.squares)
    } else {
        Err(ParseError::RankLengthMismatch)
    }
}

/// The side to move: a field starting with `b` means Black; anything else
/// (including the regular `w`) means White.
pub open spec fn turn_of(f: Seq<char>) -> Color {
    if f.len() > 0 && f[0] == 'b' {
        Color::Black
    } else {
        Color::White
    }
}

/// The full parse of a descriptor: exactly 6 whitespace-separated fields,
/// the placement from field 1, the side to move from field 2; fields 3-6
/// are accepted unexamined. A fresh board starts in progress with nothing
/// selected and no recorded check attacks.
pub open spec fn parse_fen(s: Seq<char>) -> Result<BoardModel, ParseError> {
    let fields = split_fields(s);
    if fields.len() != 6 {
        Err(ParseError::WrongFieldCount)
    } else {
        match placement_result(fields[0]) {
            Err(e) => Err(e),
            Ok(squares) => Ok(
                BoardModel {
                    squares,
                    turn: turn_of(fields[1]),
                    selected: None,
                    game_state: GameState::InProgress,
                    check_moves: None,
                },
            ),
        }
    }
}

/// The standard chess starting position, used when no descriptor is given.
pub open spec fn default_fen() -> Seq<char> {
    "rnbqkbnr/pppppppp/8/8/8/8/PPPPPPPP/RNBQKBNR w KQkq - 0 1"@
}

/// The views of a list of words.
pub open spec fn views_of(fs: Seq<Vec<char>>) -> Seq<Seq<char>> {
    fs.map_values(|v: Vec<char>| v@)
}

/// Executable whitespace test.
fn space_char(c: char) -> (b: bool)
    ensures
        b == is_space(c),
{
    c == ' ' || c == '\t' || c == '\n' || c == '\r' || c == '\u{b}' || c == '\u{c}'
}

/// Executable letter table lookup.
fn letter_piece_exec(c: char) -> (p: Option<Piece>)
    ensures
        p == letter_piece(c),
{
    match c {
        'p' => Some(Piece::new(PieceKind::Pawn, Color::Black)),
        'P' => Some(Piece::new(PieceKind::Pawn, Color::White)),
        'r' => Some(Piece::new(PieceKind::Rook, Color::Black)),
        'R' => Some(Piece::new(PieceKind::Rook, Color::White)),
        'n' => Some(Piece::new(PieceKind::Knight, Color::Black)),
        'N' => Some(Piece::new(PieceKind::Knight, Color::White)),
        'b' => Some(Piece::new(PieceKind::Bishop, Color::Black)),
        'B' => Some(Piece::new(PieceKind::Bishop, Color::White)),
        'q' => Some(Piece::new(PieceKind::Queen, Color::Black)),
        'Q' => Some(Piece::new(PieceKind::Queen, Color::White)),
        'k' => Some(Piece::new(PieceKind::King, Color::Black)),
        'K' => Some(Piece::new(PieceKind::King, Color::White)),
        _ => None,
    }
}

/// Build a board from a position descriptor, or from the standard starting
/// position when none is given. Fails with [`ParseError::WrongFieldCount`]
/// when the descriptor does not hold exactly 6 whitespace-separated
/// fields, and with [`ParseError::RankLengthMismatch`] when some rank of
/// the placement does not describe exactly 8 squares; no board is produced
/// on failure.
pub fn create_board(fen_string: Option<&str>) -> (r: Result<Board, ParseError>)
    ensures
        ({
            let s = match fen_string {
                Some(f) => f@,
                None => default_fen(),
            };
            match r {
                Ok(b) => b.wf() && parse_fen(s) == Ok::<BoardModel, ParseError>(b@),
                Err(e) => parse_fen(s) == Err::<BoardModel, ParseError>(e),
            }
        }),
{
    let fen: &str = match fen_string {
        Some(f) => f,
        None => "rnbqkbnr/pppppppp/8/8/8/8/PPPPPPPP/RNBQKBNR w KQkq - 0 1",
    };
    let ghost s: Seq<char> = fen@;
    let n = fen.unicode_len();

    // Split the descriptor into whitespace-separated fields.
    let mut fields: Vec<Vec<char>> = Vec::new();
    let mut word: Vec<char> = Vec::new();
    let mut i: usize = 0;
    while i < n
        invariant
            n == s.len(),
            s == fen@,
            i <= n,
            views_of(fields@) == split_rec(s, i as int).0,
            word@ == split_rec(s, i as int).1,
        decreases n - i,
    {
        let c = fen.get_char(i);
        if space_char(c) {
            if word.len() > 0 {
                fields.push(word);
                word = Vec::new();
                proof {
                    assert(views_of(fields@) =~= split_rec(s, i as int + 1).0);
                }
            }
        } else {
            word.push(c);
        }
        i += 1;
    }
    if word.len() > 0 {
        fields.push(word);
        proof {
            assert(views_of(fields@) =~= split_fields(s));
        }
    }
    proof {
        assert(views_of(fields@) == split_fields(s));
        assert(views_of(fields@).len() == fields@.len());
    }

    if fields.len() != 6 {
        return Err(ParseError::WrongFieldCount);
    }

    // Parse the piece placement, rank by rank. The rank-width and
    // completed-rank counters saturate (at 100 and 8) so that arbitrarily
    // long inputs cannot overflow them; the saturation points are beyond
    // every value the checks below distinguish.
    let f0 = &fields[0];
    let ghost gf0: Seq<char> = f0@;
    proof {
        assert(gf0 == split_fields(s)[0]);
    }
    let mut squares: Vec<Option<Piece>> = Vec::new();
    let mut z: usize = 0;
    while z < 64
        invariant
            z <= 64,
            squares@.len() == z,
            forall|j: int| 0 <= j < z ==> squares@[j] is None,
        decreases 64 - z,
    {
        squares.push(None);
        z += 1;
    }
    proof {
        assert(squares@ =~= place_rec(gf0, 0).squares);
    }
    let mut width: u32 = 0;
    let mut height: u32 = 0;
    let mut ok = true;
    let mut k: usize = 0;
    while k < f0.len()
        invariant
            gf0 == f0@,
            k <= gf0.len(),
            squares@.len() == 64,
            ({
                let st = place_rec(gf0, k as int);
                &&& ok == st.ok
                &&& st.width >= 0
                &&& st.height >= 0
                &&& (ok ==> width as int == (if st.width <= 100 {
                    st.width
                } else {
                    100
                }))
                &&& (ok ==> height as int == (if st.height <= 8 {
                    st.height
                } else {
                    8
                }))
                &&& (ok ==> squares@ == st.squares)
            }),
        decreases gf0.len() - k,
    {
        let ghost st = place_rec(gf0, k as int);
        let c = f0[k];
        if ok {
            if c == '/' {
                if width != 8 {
                    ok = false;
                } else {
                    width = 0;
                    if height < 8 {
                        height += 1;
                    }
                }
            } else {
                let digit: Option<u32> = match c {
                    '1' => Some(1),
                    '2' => Some(2),
                    '3' => Some(3),
                    '4' => Some(4),
                    '5' => Some(5),
                    '6' => Some(6),
                    '7' => Some(7),
                    '8' => Some(8),
                    _ => None,
                };
                if let Some(dv) = digit {
                    proof {
                        let stx = place_step(st, gf0[k as int]);
                        assert(is_digit18(gf0[k as int]));
                        assert(stx.width == st.width + dv as int);
                        assert(stx.squares == st.squares);
                    }
                    width = if width + dv > 100 {
                        100
                    } else {
                        width + dv
                    };
                } else {
                    if width < 64 && height < 8 {
                        let pos = (width as usize) + (height as usize) * 8;
                        if pos < 64 {
                            squares[pos] = letter_piece_exec(c);
                        }
                    }
                    proof {
                        let stx = place_step(st, gf0[k as int]);
                        let posx = st.width + st.height * 8;
                        assert(!is_digit18(gf0[k as int]));
                        assert(gf0[k as int] != '/');
                        assert(stx.width == st.width + 1);
                        if 0 <= posx < 64 {
                            assert(st.width < 64);
                            assert(st.height < 8);
                            assert(width as int == st.width);
                            assert(height as int == st.height);
                            assert(stx.squares == st.squares.update(posx, letter_piece(gf0[k as int])));
                            assert(squares@ == stx.squares);
                        } else {
                            assert(posx >= 64);
                            assert(stx.squares == st.squares);
                            assert(squares@ == stx.squares);
                        }
                    }
                    width = if width + 1 > 100 {
                        100
                    } else {
                        width + 1
                    };
                }
            }
        }
        proof {
            assert(place_rec(gf0, k as int + 1) == place_step(st, gf0[k as int]));
        }
        k += 1;
    }
    if !ok || width != 8 {
        return Err(ParseError::RankLengthMismatch);
    }

    // Parse the side to move: a leading `b` means Black, anything else
    // defaults to White.
    let f1 = &fields[1];
    proof {
        assert(f1@ == split_fields(s)[1]);
    }
    let turn = if f1.len() > 0 {
        if f1[0] == 'b' {
            Color::Black
        } else {
            Color::White
        }
    } else {
        Color::White
    };

    let b = Board::new(squares, turn);
    Ok(b)
}

} // verus!
