//! Pieces, and the letters that name them in move notation.

use vstd::prelude::*;
use vstd::string::*;

verus! {

/// A kind of piece.
#[derive(PartialEq, Eq, Structural, Debug, Copy, Clone, Hash)]
pub enum Piece {
    King,
    Queen,
    Rook,
    Bishop,
    Knight,
    Pawn,
}

/// The piece that an upper-case letter names in move notation.
pub open spec fn piece_of_letter(c: char) -> Option<Piece> {
    if c == 'K' {
        Some(Piece::King)
    } else if c == 'Q' {
        Some(Piece::Queen)
    } else if c == 'R' {
        Some(Piece::Rook)
    } else if c == 'B' {
        Some(Piece::Bishop)
    } else if c == 'N' {
        Some(Piece::Knight)
    } else if c == 'P' {
        Some(Piece::Pawn)
    } else {
        None
    }
}

/// The piece that a text names in move notation. Notation leaves the pawn's
/// letter out, so the empty text names the pawn; a text of one letter names
/// that letter's piece; no other text names a piece.
pub open spec fn piece_of_text(s: Seq<char>) -> Option<Piece> {
    if s.len() == 0 {
        Some(Piece::Pawn)
    } else if s.len() == 1 {
        piece_of_letter(s[0])
    } else {
        None
    }
}

/// The message of a text that names no piece.
pub open spec fn unknown_piece_message() -> Seq<char> {
    seq!['U', 'n', 'k', 'n', 'o', 'w', 'n', ' ', 'p', 'i', 'e', 'c', 'e']
}

impl Piece {
    /// Reads a piece from its upper-case letter.
    pub fn from_letter(c: char) -> (r: Option<Piece>)
        ensures
            r == piece_of_letter(c),
    {
        if c == 'K' {
            Some(Piece::King)
        } else if c == 'Q' {
            Some(Piece::Queen)
        } else if c == 'R' {
            Some(Piece::Rook)
        } else if c == 'B' {
            Some(Piece::Bishop)
        } else if c == 'N' {
            Some(Piece::Knight)
        } else if c == 'P' {
            Some(Piece::Pawn)
        } else {
            None
        }
    }
}

/// A piece as read from move notation.
#[derive(Debug)]
pub struct PNGPiece(Piece);

impl PNGPiece {
    /// The piece that was read.
    pub closed spec fn piece(self) -> Piece {
        self.0
    }

    /// The piece that was read.
    pub fn get(&self) -> (p: Piece)
        ensures
            p == self.piece(),
    {
        self.0
    }

    /// Reads the piece part of a move: empty for a pawn, else one letter of
    /// `K Q R B N P`. Any other text is refused with the message
    /// `Unknown piece`.
    pub fn from_str(s: &str) -> (r: Result<PNGPiece, String>)
        ensures
            match r {
                Ok(p) => piece_of_text(s@) == Some(p.piece()),
                Err(e) => piece_of_text(s@) is None && e@ == unknown_piece_message(),
            },
    {
        let n: usize = s.unicode_len();
        let found: Option<Piece> = if n == 0 {
            Some(Piece::Pawn)
        } else if n == 1 {
            Piece::from_letter(s.get_char(0))
        } else {
            None
        };
        match found {
            Some(p) => Ok(PNGPiece(p)),
            None => {
                proof {
                    reveal_strlit("Unknown piece");
                }
                let e = String::from_str("Unknown piece");
                assert(e@ =~= unknown_piece_message());
                Err(e)
            },
        }
    }
}

} // verus!
