//! A reader for chess game transcripts: coordinates, pieces, moves written in
//! Standard Algebraic Notation, and tagged game records.
//!
//! Every function is verified against a mathematical model of the text it
//! reads: a transcript is a sequence of characters, and each stage of the
//! reader is a spec function on such sequences.
//!
//! - [`file`], [`rank`], [`square`]: coordinates and their indices.
//! - [`piece`], [`game`]: pieces, sides, moves, and a game as a whole.
//! - [`text`]: characters, white space, tokens.
//! - [`san`]: one move in notation; [`writing`]: the notation of a move, and
//!   the law that reading gives back what was written.
//! - [`movetext`]: move numbers, the halves of a move, result markers.
//! - [`tags`]: the tags of a record.
//! - [`pgn`]: a whole record.
//! - [`board`]: what stands on the 64 squares; [`viewer`]: what a viewer
//!   decides before it draws.
//!
//! The reader records what the notation states. It does not ask whether a
//! move is allowed by the rules of chess.

pub mod board;
pub mod file;
pub mod game;
pub mod movetext;
pub mod pgn;
pub mod piece;
pub mod rank;
pub mod san;
pub mod square;
pub mod tags;
pub mod text;
pub mod viewer;
pub mod writing;
