//! Squares: one byte that packs a rank and a file.

use vstd::prelude::*;
use crate::file::{File, file_at};
use crate::rank::{Rank, rank_at};

verus! {

/// A square of the board, held as its index: the rank in the three bits
/// above the file's three bits, so that the index is `rank * 8 + file`.
///
/// The byte is public, so a square can be written by its index. Only the
/// indices 0 to 63 name squares of the board; `rank` and `file` read the six
/// low bits of any byte.
#[derive(PartialEq, Eq, Structural, Debug, Copy, Clone, Hash)]
pub struct Square(pub u8);

/// The index of each square, by its name: `Square(E4)` is the square e4.
pub const A1: u8 = 0;
pub const B1: u8 = 1;
pub const C1: u8 = 2;
pub const D1: u8 = 3;
pub const E1: u8 = 4;
pub const F1: u8 = 5;
pub const G1: u8 = 6;
pub const H1: u8 = 7;
pub const A2: u8 = 8;
pub const B2: u8 = 9;
pub const C2: u8 = 10;
pub const D2: u8 = 11;
pub const E2: u8 = 12;
pub const F2: u8 = 13;
pub const G2: u8 = 14;
pub const H2: u8 = 15;
pub const A3: u8 = 16;
pub const B3: u8 = 17;
pub const C3: u8 = 18;
pub const D3: u8 = 19;
pub const E3: u8 = 20;
pub const F3: u8 = 21;
pub const G3: u8 = 22;
pub const H3: u8 = 23;
pub const A4: u8 = 24;
pub const B4: u8 = 25;
pub const C4: u8 = 26;
pub const D4: u8 = 27;
pub const E4: u8 = 28;
pub const F4: u8 = 29;
pub const G4: u8 = 30;
pub const H4: u8 = 31;
pub const A5: u8 = 32;
pub const B5: u8 = 33;
pub const C5: u8 = 34;
pub const D5: u8 = 35;
pub const E5: u8 = 36;
pub const F5: u8 = 37;
pub const G5: u8 = 38;
pub const H5: u8 = 39;
pub const A6: u8 = 40;
pub const B6: u8 = 41;
pub const C6: u8 = 42;
pub const D6: u8 = 43;
pub const E6: u8 = 44;
pub const F6: u8 = 45;
pub const G6: u8 = 46;
pub const H6: u8 = 47;
pub const A7: u8 = 48;
pub const B7: u8 = 49;
pub const C7: u8 = 50;
pub const D7: u8 = 51;
pub const E7: u8 = 52;
pub const F7: u8 = 53;
pub const G7: u8 = 54;
pub const H7: u8 = 55;
pub const A8: u8 = 56;
pub const B8: u8 = 57;
pub const C8: u8 = 58;
pub const D8: u8 = 59;
pub const E8: u8 = 60;
pub const F8: u8 = 61;
pub const G8: u8 = 62;
pub const H8: u8 = 63;

impl Square {
    /// The index of the square, as a mathematical integer.
    pub open spec fn index(self) -> int {
        self.0 as int
    }

    /// Whether the square lies on the board.
    pub open spec fn on_board(self) -> bool {
        self.0 < 64
    }

    /// The rank that the square's index holds.
    pub open spec fn spec_rank(self) -> Rank {
        rank_at(self.0 as int / 8)
    }

    /// The file that the square's index holds.
    pub open spec fn spec_file(self) -> File {
        file_at(self.0 as int)
    }

    /// The square on the given rank and file.
    pub open spec fn at(rank: Rank, file: File) -> Square {
        Square((rank.index() * 8 + file.index()) as u8)
    }

    /// The square on the given rank and file.
    pub fn new(rank: Rank, file: File) -> (s: Square)
        ensures
            s == Square::at(rank, file),
            s.index() == rank.index() * 8 + file.index(),
            s.on_board(),
            s.spec_rank() == rank,
            s.spec_file() == file,
    {
        let r: usize = rank.to_index();
        let f: usize = file.to_index();
        let i: usize = r * 8 + f;
        Square(i as u8)
    }

    /// The rank of the square.
    pub fn rank(&self) -> (r: Rank)
        ensures
            r == self.spec_rank(),
            r.index() == (self.0 / 8) % 8,
    {
        let i: usize = (self.0 / 8) as usize;
        Rank::from_index(i)
    }

    /// The file of the square.
    pub fn file(&self) -> (f: File)
        ensures
            f == self.spec_file(),
            f.index() == self.0 % 8,
    {
        File::from_index(self.0 as usize)
    }

    /// The index of the square.
    pub fn to_index(&self) -> (i: usize)
        ensures
            i == self.0,
            i == self.index(),
    {
        self.0 as usize
    }

    /// The index of the square, as the byte that holds it.
    pub fn to_int(&self) -> (i: u8)
        ensures
            i == self.0,
    {
        self.0
    }

    /// The file's index and the rank's index, in that order, as signed values
    /// for geometry.
    pub fn coordinate(&self) -> (c: (i8, i8))
        ensures
            c.0 == self.spec_file().index(),
            c.1 == self.spec_rank().index(),
            c.0 == self.0 % 8,
            c.1 == (self.0 / 8) % 8,
    {
        (self.file().to_int(), self.rank().to_int())
    }

    /// Whether the indices of the square's file and rank add up to an even
    /// number. A viewer gives the squares for which this holds one shade and
    /// the others the other.
    pub open spec fn even(self) -> bool {
        (self.spec_file().index() + self.spec_rank().index()) % 2 == 0
    }

    /// Whether the indices of the square's file and rank add up to an even
    /// number.
    pub fn is_even(&self) -> (r: bool)
        ensures
            r == self.even(),
    {
        let c = self.coordinate();
        (c.0 + c.1) % 2 == 0
    }
}

/// A square made from a rank and a file gives both back.
pub proof fn square_round_trip(rank: Rank, file: File)
    ensures
        Square::at(rank, file).spec_rank() == rank,
        Square::at(rank, file).spec_file() == file,
        Square::at(rank, file).on_board(),
{
}

/// A square on the board is the square of its own rank and file.
pub proof fn square_of_parts(s: Square)
    requires
        s.on_board(),
    ensures
        Square::at(s.spec_rank(), s.spec_file()) == s,
{
}

/// A square written by its index has that index.
pub proof fn square_index(i: u8)
    ensures
        Square(i).index() == i,
{
}

} // verus!
