//! A two-player chess rules engine: board state, a FEN-like position parser,
//! per-piece move generation with sliding-ray blocking, move validation,
//! turn management and coarse check / game-over tracking.
//!
//! The engine deliberately implements a reduced rule set: no castling, no en
//! passant, no promotion, and "checkmate" is approximated by capturing the
//! king outright or by a one-ply escape check.

pub mod board;
pub mod laws;
pub mod model;
pub mod parser;
pub mod piece;

pub use board::Board;
pub use board::GameState;
pub use board::MoveClass;
pub use parser::create_board;
pub use parser::ParseError;
pub use piece::Color;
pub use piece::Piece;
pub use piece::PieceKind;
