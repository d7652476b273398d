//! The parts of a game: sides, moves and the outcome.

use vstd::prelude::*;
use crate::file::File;
use crate::piece::Piece;
use crate::rank::Rank;
use crate::tags::Tags;

verus! {

/// How a game ended.
#[derive(PartialEq, Eq, Structural, Debug, Copy, Clone)]
pub enum GameResult {
    WhiteWins,
    BlackWins,
    Draw,
    /// The game is still in progress or was abandoned, or its result is not
    /// known for another reason.
    Unknown,
}

/// The side that moves.
#[derive(PartialEq, Eq, Structural, Debug, Copy, Clone)]
pub enum Player {
    White,
    Black,
}

/// The side on which a king castles.
#[derive(PartialEq, Eq, Structural, Debug, Copy, Clone)]
pub enum CastleType {
    Kingside,
    Queenside,
}

/// What a move does.
#[derive(PartialEq, Eq, Structural, Debug, Copy, Clone)]
pub enum MoveType {
    Castle(CastleType),
    Capture,
    EnPassantCapture,
    Promotion(Piece),
    Move,
}

/// What a move does to the opponent's king, where the notation says so.
#[derive(PartialEq, Eq, Structural, Debug, Copy, Clone)]
pub enum MoveResult {
    Check,
    Checkmate,
}

/// One move of one side, as its notation states it. Nothing here is checked
/// against the rules of chess.
#[derive(PartialEq, Eq, Debug, Copy, Clone)]
pub struct Move {
    pub piece: Piece,
    pub turn: Player,
    /// The part of the square of departure that the notation gives: a file, a
    /// rank or both.
    pub origin: Option<(Option<File>, Option<Rank>)>,
    pub destination: Option<(File, Rank)>,
    pub move_type: MoveType,
    pub result: Option<MoveResult>,
}

impl Move {
    /// What holds of every move that was read from notation: castling names
    /// the king and no square, every other move names its destination, and an
    /// origin that is given holds a file or a rank.
    pub open spec fn well_formed(self) -> bool {
        &&& self.move_type is Castle <==> self.destination is None
        &&& self.move_type is Castle ==> self.piece == Piece::King && self.origin is None
        &&& self.origin matches Some(o) ==> o.0 is Some || o.1 is Some
    }
}

impl Player {
    /// The side that moves after this one.
    pub open spec fn spec_other(self) -> Player {
        match self {
            Player::White => Player::Black,
            Player::Black => Player::White,
        }
    }

    /// The side that moves after this one.
    pub fn other(&self) -> (p: Player)
        ensures
            p == self.spec_other(),
    {
        match self {
            Player::White => Player::Black,
            Player::Black => Player::White,
        }
    }
}

/// A game as mathematical values: its moves in order, its tags as a map
/// from names to values, and its outcome.
pub ghost struct GameText {
    pub moves: Seq<Move>,
    pub tags: Map<Seq<char>, Seq<char>>,
    pub result: GameResult,
}

/// A game that was read from a transcript.
#[derive(Debug, PartialEq, Eq)]
pub struct Game {
    pub moves: Vec<Move>,
    pub tags: Tags,
    pub result: GameResult,
}

impl View for Game {
    type V = GameText;

    open spec fn view(&self) -> GameText {
        GameText { moves: self.moves@, tags: self.tags@, result: self.result }
    }
}

} // verus!
