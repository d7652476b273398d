//! Files: the eight columns of the board, `a` to `h`.

use vstd::prelude::*;
use vstd::string::*;

verus! {

/// A column of the board.
#[derive(PartialEq, Eq, Structural, Debug, Copy, Clone, Hash)]
pub enum File {
    A,
    B,
    C,
    D,
    E,
    F,
    G,
    H,
}

/// The file with index `i`, for `0 <= i < 8`; indices outside that range are
/// reduced modulo 8 first.
pub open spec fn file_at(i: int) -> File {
    let k = i % 8;
    if k == 0 {
        File::A
    } else if k == 1 {
        File::B
    } else if k == 2 {
        File::C
    } else if k == 3 {
        File::D
    } else if k == 4 {
        File::E
    } else if k == 5 {
        File::F
    } else if k == 6 {
        File::G
    } else {
        File::H
    }
}

/// The file that a single character names, in either case.
pub open spec fn file_of_char(c: char) -> Option<File> {
    if c == 'a' || c == 'A' {
        Some(File::A)
    } else if c == 'b' || c == 'B' {
        Some(File::B)
    } else if c == 'c' || c == 'C' {
        Some(File::C)
    } else if c == 'd' || c == 'D' {
        Some(File::D)
    } else if c == 'e' || c == 'E' {
        Some(File::E)
    } else if c == 'f' || c == 'F' {
        Some(File::F)
    } else if c == 'g' || c == 'G' {
        Some(File::G)
    } else if c == 'h' || c == 'H' {
        Some(File::H)
    } else {
        None
    }
}

/// The file that a text names: the text must be exactly one character long.
pub open spec fn file_of_text(s: Seq<char>) -> Option<File> {
    if s.len() == 1 {
        file_of_char(s[0])
    } else {
        None
    }
}

/// The lower-case letter of a file.
pub open spec fn file_letter(f: File) -> char {
    match f {
        File::A => 'a',
        File::B => 'b',
        File::C => 'c',
        File::D => 'd',
        File::E => 'e',
        File::F => 'f',
        File::G => 'g',
        File::H => 'h',
    }
}

impl File {
    /// The index of the file, from 0 for `a` to 7 for `h`.
    pub open spec fn index(self) -> int {
        match self {
            File::A => 0,
            File::B => 1,
            File::C => 2,
            File::D => 3,
            File::E => 4,
            File::F => 5,
            File::G => 6,
            File::H => 7,
        }
    }

    /// Reads a file from one character.
    pub fn from_char(c: char) -> (r: Option<File>)
        ensures
            r == file_of_char(c),
    {
        if c == 'a' || c == 'A' {
            Some(File::A)
        } else if c == 'b' || c == 'B' {
            Some(File::B)
        } else if c == 'c' || c == 'C' {
            Some(File::C)
        } else if c == 'd' || c == 'D' {
            Some(File::D)
        } else if c == 'e' || c == 'E' {
            Some(File::E)
        } else if c == 'f' || c == 'F' {
            Some(File::F)
        } else if c == 'g' || c == 'G' {
            Some(File::G)
        } else if c == 'h' || c == 'H' {
            Some(File::H)
        } else {
            None
        }
    }

    /// Reads a file from a text of exactly one letter, `a` to `h` in either
    /// case. Any other text is not a file, and gives `None`.
    pub fn from_str(s: &str) -> (r: Option<File>)
        ensures
            r == file_of_text(s@),
    {
        if s.unicode_len() == 1 {
            File::from_char(s.get_char(0))
        } else {
            None
        }
    }

    /// The file with the given index. Only the three low bits of the index
    /// count: the index is reduced modulo 8.
    pub fn from_index(i: usize) -> (r: File)
        ensures
            r == file_at(i as int),
            r.index() == i % 8,
    {
        let k: usize = i % 8;
        if k == 0 {
            File::A
        } else if k == 1 {
            File::B
        } else if k == 2 {
            File::C
        } else if k == 3 {
            File::D
        } else if k == 4 {
            File::E
        } else if k == 5 {
            File::F
        } else if k == 6 {
            File::G
        } else {
            File::H
        }
    }

    /// The index of the file, from 0 for `a` to 7 for `h`.
    pub fn to_index(&self) -> (r: usize)
        ensures
            r == self.index(),
            r < 8,
    {
        match self {
            File::A => 0,
            File::B => 1,
            File::C => 2,
            File::D => 3,
            File::E => 4,
            File::F => 5,
            File::G => 6,
            File::H => 7,
        }
    }

    /// The index of the file as a signed value, for geometry.
    pub fn to_int(&self) -> (r: i8)
        ensures
            r == self.index(),
            0 <= r < 8,
    {
        match self {
            File::A => 0,
            File::B => 1,
            File::C => 2,
            File::D => 3,
            File::E => 4,
            File::F => 5,
            File::G => 6,
            File::H => 7,
        }
    }

    /// The lower-case letter of the file, as a text of one character.
    pub fn to_str(&self) -> (r: &'static str)
        ensures
            r@ == seq![file_letter(*self)],
            file_of_text(r@) == Some(*self),
    {
        proof {
            reveal_strlit("a");
            reveal_strlit("b");
            reveal_strlit("c");
            reveal_strlit("d");
            reveal_strlit("e");
            reveal_strlit("f");
            reveal_strlit("g");
            reveal_strlit("h");
        }
        let r = match self {
            File::A => "a",
            File::B => "b",
            File::C => "c",
            File::D => "d",
            File::E => "e",
            File::F => "f",
            File::G => "g",
            File::H => "h",
        };
        assert(r@ =~= seq![file_letter(*self)]);
        r
    }
}

/// Index and file determine each other: reading back the index of a file
/// gives the file, and the file of any index has that index modulo 8.
pub proof fn file_index_round_trip(f: File, i: int)
    ensures
        file_at(f.index()) == f,
        file_at(i).index() == i % 8,
        0 <= f.index() < 8,
{
}

/// The letter of a file reads back as that file.
pub proof fn file_letter_round_trip(f: File)
    ensures
        file_of_char(file_letter(f)) == Some(f),
{
}

} // verus!
