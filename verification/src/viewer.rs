//! What a viewer of the board decides before it draws: which square goes
//! where, which shade it has, which image shows a piece, and how the bytes
//! of an image become pixels.

use vstd::prelude::*;
use vstd::string::*;
use crate::board::{Color, Perspective};
use crate::piece::{Piece, unknown_piece_message};

verus! {

/// A piece of a colour, as a viewer names its images.
#[derive(PartialEq, Eq, Structural, Debug, Copy, Clone, Hash)]
pub enum ChessPiece {
    WhiteQueen,
    WhiteKing,
    WhiteBishop,
    WhiteKnight,
    WhiteRook,
    WhitePawn,
    BlackQueen,
    BlackKing,
    BlackBishop,
    BlackKnight,
    BlackRook,
    BlackPawn,
}

/// The image of a piece of a colour.
pub open spec fn chess_piece_of(piece: Piece, color: Color) -> ChessPiece {
    match (piece, color) {
        (Piece::King, Color::White) => ChessPiece::WhiteKing,
        (Piece::Queen, Color::White) => ChessPiece::WhiteQueen,
        (Piece::Rook, Color::White) => ChessPiece::WhiteRook,
        (Piece::Bishop, Color::White) => ChessPiece::WhiteBishop,
        (Piece::Knight, Color::White) => ChessPiece::WhiteKnight,
        (Piece::Pawn, Color::White) => ChessPiece::WhitePawn,
        (Piece::King, Color::Black) => ChessPiece::BlackKing,
        (Piece::Queen, Color::Black) => ChessPiece::BlackQueen,
        (Piece::Rook, Color::Black) => ChessPiece::BlackRook,
        (Piece::Bishop, Color::Black) => ChessPiece::BlackBishop,
        (Piece::Knight, Color::Black) => ChessPiece::BlackKnight,
        (Piece::Pawn, Color::Black) => ChessPiece::BlackPawn,
    }
}

/// The name of a piece.
pub open spec fn piece_name(p: Piece) -> Seq<char> {
    match p {
        Piece::King => "King"@,
        Piece::Queen => "Queen"@,
        Piece::Rook => "Rook"@,
        Piece::Bishop => "Bishop"@,
        Piece::Knight => "Knight"@,
        Piece::Pawn => "Pawn"@,
    }
}

/// The name of a colour.
pub open spec fn color_name(c: Color) -> Seq<char> {
    match c {
        Color::White => "White"@,
        Color::Black => "Black"@,
    }
}

/// The label of a piece of a colour: the piece's name, a comma and a blank,
/// and the colour's name, as in `King, White`.
pub open spec fn label_of(piece: Piece, color: Color) -> Seq<char> {
    piece_name(piece) + ", "@ + color_name(color)
}

/// The image that a label names, if it names one.
pub open spec fn chess_piece_of_label(s: Seq<char>) -> Option<ChessPiece> {
    if s == label_of(Piece::King, Color::White) {
        Some(ChessPiece::WhiteKing)
    } else if s == label_of(Piece::Rook, Color::White) {
        Some(ChessPiece::WhiteRook)
    } else if s == label_of(Piece::Bishop, Color::White) {
        Some(ChessPiece::WhiteBishop)
    } else if s == label_of(Piece::Queen, Color::White) {
        Some(ChessPiece::WhiteQueen)
    } else if s == label_of(Piece::Knight, Color::White) {
        Some(ChessPiece::WhiteKnight)
    } else if s == label_of(Piece::Pawn, Color::White) {
        Some(ChessPiece::WhitePawn)
    } else if s == label_of(Piece::King, Color::Black) {
        Some(ChessPiece::BlackKing)
    } else if s == label_of(Piece::Rook, Color::Black) {
        Some(ChessPiece::BlackRook)
    } else if s == label_of(Piece::Bishop, Color::Black) {
        Some(ChessPiece::BlackBishop)
    } else if s == label_of(Piece::Queen, Color::Black) {
        Some(ChessPiece::BlackQueen)
    } else if s == label_of(Piece::Knight, Color::Black) {
        Some(ChessPiece::BlackKnight)
    } else if s == label_of(Piece::Pawn, Color::Black) {
        Some(ChessPiece::BlackPawn)
    } else {
        None
    }
}

/// The name of a piece, as a text.
fn piece_label(p: Piece) -> (s: &'static str)
    ensures
        s@ == piece_name(p),
{
    match p {
        Piece::King => "King",
        Piece::Queen => "Queen",
        Piece::Rook => "Rook",
        Piece::Bishop => "Bishop",
        Piece::Knight => "Knight",
        Piece::Pawn => "Pawn",
    }
}

/// The name of a colour, as a text.
fn color_label(c: Color) -> (s: &'static str)
    ensures
        s@ == color_name(c),
{
    match c {
        Color::White => "White",
        Color::Black => "Black",
    }
}

impl ChessPiece {
    /// The image of a piece of a colour.
    pub fn of(piece: Piece, color: Color) -> (c: ChessPiece)
        ensures
            c == chess_piece_of(piece, color),
    {
        match (piece, color) {
            (Piece::King, Color::White) => ChessPiece::WhiteKing,
            (Piece::Queen, Color::White) => ChessPiece::WhiteQueen,
            (Piece::Rook, Color::White) => ChessPiece::WhiteRook,
            (Piece::Bishop, Color::White) => ChessPiece::WhiteBishop,
            (Piece::Knight, Color::White) => ChessPiece::WhiteKnight,
            (Piece::Pawn, Color::White) => ChessPiece::WhitePawn,
            (Piece::King, Color::Black) => ChessPiece::BlackKing,
            (Piece::Queen, Color::Black) => ChessPiece::BlackQueen,
            (Piece::Rook, Color::Black) => ChessPiece::BlackRook,
            (Piece::Bishop, Color::Black) => ChessPiece::BlackBishop,
            (Piece::Knight, Color::Black) => ChessPiece::BlackKnight,
            (Piece::Pawn, Color::Black) => ChessPiece::BlackPawn,
        }
    }

    /// The label of a piece of a colour, as in `King, White`.
    pub fn label(piece: Piece, color: Color) -> (s: String)
        ensures
            s@ == label_of(piece, color),
    {
        let mut s = String::from_str(piece_label(piece));
        s.append(", ");
        s.append(color_label(color));
        s
    }

    /// Reads the image from a label such as `King, White`. A text that is no
    /// label is refused with the message `Unknown piece`.
    pub fn from_str(s: &str) -> (r: Result<ChessPiece, String>)
        ensures
            match r {
                Ok(c) => chess_piece_of_label(s@) == Some(c),
                Err(e) => chess_piece_of_label(s@) is None && e@ == unknown_piece_message(),
            },
    {
        let text = String::from_str(s);
        if text == ChessPiece::label(Piece::King, Color::White) {
            Ok(ChessPiece::WhiteKing)
        } else if text == ChessPiece::label(Piece::Rook, Color::White) {
            Ok(ChessPiece::WhiteRook)
        } else if text == ChessPiece::label(Piece::Bishop, Color::White) {
            Ok(ChessPiece::WhiteBishop)
        } else if text == ChessPiece::label(Piece::Queen, Color::White) {
            Ok(ChessPiece::WhiteQueen)
        } else if text == ChessPiece::label(Piece::Knight, Color::White) {
            Ok(ChessPiece::WhiteKnight)
        } else if text == ChessPiece::label(Piece::Pawn, Color::White) {
            Ok(ChessPiece::WhitePawn)
        } else if text == ChessPiece::label(Piece::King, Color::Black) {
            Ok(ChessPiece::BlackKing)
        } else if text == ChessPiece::label(Piece::Rook, Color::Black) {
            Ok(ChessPiece::BlackRook)
        } else if text == ChessPiece::label(Piece::Bishop, Color::Black) {
            Ok(ChessPiece::BlackBishop)
        } else if text == ChessPiece::label(Piece::Queen, Color::Black) {
            Ok(ChessPiece::BlackQueen)
        } else if text == ChessPiece::label(Piece::Knight, Color::Black) {
            Ok(ChessPiece::BlackKnight)
        } else if text == ChessPiece::label(Piece::Pawn, Color::Black) {
            Ok(ChessPiece::BlackPawn)
        } else {
            proof {
                reveal_strlit("Unknown piece");
            }
            let e = String::from_str("Unknown piece");
            assert(e@ =~= unknown_piece_message());
            Err(e)
        }
    }
}

impl Perspective {
    /// The name of the side, in lower case.
    pub open spec fn name(self) -> Seq<char> {
        match self {
            Perspective::White => "white"@,
            Perspective::Black => "black"@,
        }
    }

    /// The index of the square that is drawn at place `index`: seen from
    /// White's side the squares are drawn from the last to the first, seen
    /// from Black's side from the first to the last.
    pub open spec fn shown_at(self, index: int) -> int {
        match self {
            Perspective::White => 63 - index,
            Perspective::Black => index,
        }
    }

    /// The name of the side, in lower case.
    pub fn to_str(&self) -> (s: &'static str)
        ensures
            s@ == self.name(),
    {
        match self {
            Perspective::White => "white",
            Perspective::Black => "black",
        }
    }

    /// The index of the square that is drawn at place `index`.
    pub fn display_index(&self, index: usize) -> (i: usize)
        requires
            index < 64,
        ensures
            i == self.shown_at(index as int),
            i < 64,
    {
        match self {
            Perspective::White => 63 - index,
            Perspective::Black => index,
        }
    }
}

/// Drawing a place and then looking up what is drawn there is the identity:
/// `shown_at` is its own inverse on the 64 places.
pub proof fn shown_at_is_an_involution(p: Perspective, index: int)
    requires
        0 <= index < 64,
    ensures
        0 <= p.shown_at(index) < 64,
        p.shown_at(p.shown_at(index)) == index,
{
}

/// The pixel that four bytes of an image make: the bytes are red, green, blue
/// and alpha, and the pixel holds alpha, red, green and blue from its highest
/// byte to its lowest.
pub open spec fn pixel_of(r: u8, g: u8, b: u8, a: u8) -> u32 {
    (a as u32) << 24 | (r as u32) << 16 | (g as u32) << 8 | (b as u32)
}

/// The pixels that the bytes of an image make, four bytes each.
pub open spec fn pixels_of(bytes: Seq<u8>) -> Seq<u32> {
    Seq::new(
        (bytes.len() / 4) as nat,
        |i: int| pixel_of(bytes[4 * i], bytes[4 * i + 1], bytes[4 * i + 2], bytes[4 * i + 3]),
    )
}

/// Packs the bytes of an image, four for each pixel in the order red, green,
/// blue, alpha, into pixels.
pub fn pack_pixels(bytes: &[u8]) -> (pixels: Vec<u32>)
    requires
        bytes@.len() % 4 == 0,
    ensures
        pixels@ == pixels_of(bytes@),
{
    let n: usize = bytes.len() / 4;
    let mut pixels: Vec<u32> = Vec::new();
    let mut i: usize = 0;
    while i < n
        invariant
            i <= n,
            n == bytes@.len() / 4,
            bytes@.len() % 4 == 0,
            bytes@.len() <= usize::MAX,
            pixels@.len() == i,
            forall|k: int| 0 <= k < i ==> pixels@[k] == pixels_of(bytes@)[k],
        decreases n - i,
    {
        assert(4 * (i + 1) <= bytes@.len());
        let r: u8 = bytes[4 * i];
        let g: u8 = bytes[4 * i + 1];
        let b: u8 = bytes[4 * i + 2];
        let a: u8 = bytes[4 * i + 3];
        let pixel: u32 = (a as u32) << 24 | (r as u32) << 16 | (g as u32) << 8 | (b as u32);
        pixels.push(pixel);
        i = i + 1;
    }
    assert(pixels@ =~= pixels_of(bytes@));
    pixels
}

} // verus!
