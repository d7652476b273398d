//! Ranks: the eight rows of the board, `1` to `8`.

use vstd::prelude::*;
use vstd::string::*;

verus! {

/// A row of the board.
#[derive(PartialEq, Eq, Structural, Debug, Copy, Clone, Hash)]
pub enum Rank {
    One,
    Two,
    Three,
    Four,
    Five,
    Six,
    Seven,
    Eight,
}

/// The rank with index `i`, for `0 <= i < 8`; indices outside that range are
/// reduced modulo 8 first.
pub open spec fn rank_at(i: int) -> Rank {
    let k = i % 8;
    if k == 0 {
        Rank::One
    } else if k == 1 {
        Rank::Two
    } else if k == 2 {
        Rank::Three
    } else if k == 3 {
        Rank::Four
    } else if k == 4 {
        Rank::Five
    } else if k == 5 {
        Rank::Six
    } else if k == 6 {
        Rank::Seven
    } else {
        Rank::Eight
    }
}

/// The rank that a single character names.
pub open spec fn rank_of_char(c: char) -> Option<Rank> {
    if c == '1' {
        Some(Rank::One)
    } else if c == '2' {
        Some(Rank::Two)
    } else if c == '3' {
        Some(Rank::Three)
    } else if c == '4' {
        Some(Rank::Four)
    } else if c == '5' {
        Some(Rank::Five)
    } else if c == '6' {
        Some(Rank::Six)
    } else if c == '7' {
        Some(Rank::Seven)
    } else if c == '8' {
        Some(Rank::Eight)
    } else {
        None
    }
}

/// The rank that a text names: the text must be exactly one character long.
pub open spec fn rank_of_text(s: Seq<char>) -> Option<Rank> {
    if s.len() == 1 {
        rank_of_char(s[0])
    } else {
        None
    }
}

/// The digit of a rank.
pub open spec fn rank_digit(r: Rank) -> char {
    match r {
        Rank::One => '1',
        Rank::Two => '2',
        Rank::Three => '3',
        Rank::Four => '4',
        Rank::Five => '5',
        Rank::Six => '6',
        Rank::Seven => '7',
        Rank::Eight => '8',
    }
}

impl Rank {
    /// The index of the rank, from 0 for `1` to 7 for `8`.
    pub open spec fn index(self) -> int {
        match self {
            Rank::One => 0,
            Rank::Two => 1,
            Rank::Three => 2,
            Rank::Four => 3,
            Rank::Five => 4,
            Rank::Six => 5,
            Rank::Seven => 6,
            Rank::Eight => 7,
        }
    }

    /// Reads a rank from one character.
    pub fn from_char(c: char) -> (r: Option<Rank>)
        ensures
            r == rank_of_char(c),
    {
        if c == '1' {
            Some(Rank::One)
        } else if c == '2' {
            Some(Rank::Two)
        } else if c == '3' {
            Some(Rank::Three)
        } else if c == '4' {
            Some(Rank::Four)
        } else if c == '5' {
            Some(Rank::Five)
        } else if c == '6' {
            Some(Rank::Six)
        } else if c == '7' {
            Some(Rank::Seven)
        } else if c == '8' {
            Some(Rank::Eight)
        } else {
            None
        }
    }

    /// Reads a rank from a text of exactly one digit, `1` to `8`. Any other
    /// text is not a rank, and gives `None`.
    pub fn from_str(s: &str) -> (r: Option<Rank>)
        ensures
            r == rank_of_text(s@),
    {
        if s.unicode_len() == 1 {
            Rank::from_char(s.get_char(0))
        } else {
            None
        }
    }

    /// The rank with the given index. Only the three low bits of the index
    /// count: the index is reduced modulo 8.
    pub fn from_index(i: usize) -> (r: Rank)
        ensures
            r == rank_at(i as int),
            r.index() == i % 8,
    {
        let k: usize = i % 8;
        if k == 0 {
            Rank::One
        } else if k == 1 {
            Rank::Two
        } else if k == 2 {
            Rank::Three
        } else if k == 3 {
            Rank::Four
        } else if k == 4 {
            Rank::Five
        } else if k == 5 {
            Rank::Six
        } else if k == 6 {
            Rank::Seven
        } else {
            Rank::Eight
        }
    }

    /// The index of the rank, from 0 for `1` to 7 for `8`.
    pub fn to_index(&self) -> (r: usize)
        ensures
            r == self.index(),
            r < 8,
    {
        match self {
            Rank::One => 0,
            Rank::Two => 1,
            Rank::Three => 2,
            Rank::Four => 3,
            Rank::Five => 4,
            Rank::Six => 5,
            Rank::Seven => 6,
            Rank::Eight => 7,
        }
    }

    /// The index of the rank as a signed value, for geometry.
    pub fn to_int(&self) -> (r: i8)
        ensures
            r == self.index(),
            0 <= r < 8,
    {
        match self {
            Rank::One => 0,
            Rank::Two => 1,
            Rank::Three => 2,
            Rank::Four => 3,
            Rank::Five => 4,
            Rank::Six => 5,
            Rank::Seven => 6,
            Rank::Eight => 7,
        }
    }

    /// The digit of the rank, as a text of one character.
    pub fn to_str(&self) -> (r: &'static str)
        ensures
            r@ == seq![rank_digit(*self)],
            rank_of_text(r@) == Some(*self),
    {
        proof {
            reveal_strlit("1");
            reveal_strlit("2");
            reveal_strlit("3");
            reveal_strlit("4");
            reveal_strlit("5");
            reveal_strlit("6");
            reveal_strlit("7");
            reveal_strlit("8");
        }
        let r = match self {
            Rank::One => "1",
            Rank::Two => "2",
            Rank::Three => "3",
            Rank::Four => "4",
            Rank::Five => "5",
            Rank::Six => "6",
            Rank::Seven => "7",
            Rank::Eight => "8",
        };
        assert(r@ =~= seq![rank_digit(*self)]);
        r
    }
}

/// Index and rank determine each other: reading back the index of a rank
/// gives the rank, and the rank of any index has that index modulo 8.
pub proof fn rank_index_round_trip(r: Rank, i: int)
    ensures
        rank_at(r.index()) == r,
        rank_at(i).index() == i % 8,
        0 <= r.index() < 8,
{
}

/// The digit of a rank reads back as that rank.
pub proof fn rank_digit_round_trip(r: Rank)
    ensures
        rank_of_char(rank_digit(r)) == Some(r),
{
}

} // verus!
