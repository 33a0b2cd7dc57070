//! The 64 squares of the board.
use vstd::prelude::*;
use crate::board::bitboard::{has_bit, lemma_single_bit};

verus! {

/// One of the 64 squares, indexed a1 = 0, b1 = 1, ..., h1 = 7, a2 = 8, ..., h8 = 63.
#[derive(Debug, Clone, Copy, PartialEq, Eq, PartialOrd, Ord, Hash, Structural)]
#[allow(non_camel_case_types)]
pub enum Square {
    A1, B1, C1, D1, E1, F1, G1, H1,
    A2, B2, C2, D2, E2, F2, G2, H2,
    A3, B3, C3, D3, E3, F3, G3, H3,
    A4, B4, C4, D4, E4, F4, G4, H4,
    A5, B5, C5, D5, E5, F5, G5, H5,
    A6, B6, C6, D6, E6, F6, G6, H6,
    A7, B7, C7, D7, E7, F7, G7, H7,
    A8, B8, C8, D8, E8, F8, G8, H8,
}

/// The square with index `i` (0 <= i < 64).
pub open spec fn square_of(i: int) -> Square
    recommends
        0 <= i < 64,
{
    choose|s: Square| s.idx() == i
}

impl Square {
    pub const NUM: usize = 64;

    /// The index of the square (a1 = 0 .. h8 = 63).
    pub open spec fn idx(self) -> nat {
        match self {
            Square::A1 => 0,
            Square::B1 => 1,
            Square::C1 => 2,
            Square::D1 => 3,
            Square::E1 => 4,
            Square::F1 => 5,
            Square::G1 => 6,
            Square::H1 => 7,
            Square::A2 => 8,
            Square::B2 => 9,
            Square::C2 => 10,
            Square::D2 => 11,
            Square::E2 => 12,
            Square::F2 => 13,
            Square::G2 => 14,
            Square::H2 => 15,
            Square::A3 => 16,
            Square::B3 => 17,
            Square::C3 => 18,
            Square::D3 => 19,
            Square::E3 => 20,
            Square::F3 => 21,
            Square::G3 => 22,
            Square::H3 => 23,
            Square::A4 => 24,
            Square::B4 => 25,
            Square::C4 => 26,
            Square::D4 => 27,
            Square::E4 => 28,
            Square::F4 => 29,
            Square::G4 => 30,
            Square::H4 => 31,
            Square::A5 => 32,
            Square::B5 => 33,
            Square::C5 => 34,
            Square::D5 => 35,
            Square::E5 => 36,
            Square::F5 => 37,
            Square::G5 => 38,
            Square::H5 => 39,
            Square::A6 => 40,
            Square::B6 => 41,
            Square::C6 => 42,
            Square::D6 => 43,
            Square::E6 => 44,
            Square::F6 => 45,
            Square::G6 => 46,
            Square::H6 => 47,
            Square::A7 => 48,
            Square::B7 => 49,
            Square::C7 => 50,
            Square::D7 => 51,
            Square::E7 => 52,
            Square::F7 => 53,
            Square::G7 => 54,
            Square::H7 => 55,
            Square::A8 => 56,
            Square::B8 => 57,
            Square::C8 => 58,
            Square::D8 => 59,
            Square::E8 => 60,
            Square::F8 => 61,
            Square::G8 => 62,
            Square::H8 => 63,
        }
    }

    /// Create a Square from a raw index (0–63).
    pub fn from_index(index: u8) -> (s: Square)
        requires
            index < 64,
        ensures
            s.idx() == index,
    {
        match index {
        0 => Square::A1,
        1 => Square::B1,
        2 => Square::C1,
        3 => Square::D1,
        4 => Square::E1,
        5 => Square::F1,
        6 => Square::G1,
        7 => Square::H1,
        8 => Square::A2,
        9 => Square::B2,
        10 => Square::C2,
        11 => Square::D2,
        12 => Square::E2,
        13 => Square::F2,
        14 => Square::G2,
        15 => Square::H2,
        16 => Square::A3,
        17 => Square::B3,
        18 => Square::C3,
        19 => Square::D3,
        20 => Square::E3,
        21 => Square::F3,
        22 => Square::G3,
        23 => Square::H3,
        24 => Square::A4,
        25 => Square::B4,
        26 => Square::C4,
        27 => Square::D4,
        28 => Square::E4,
        29 => Square::F4,
        30 => Square::G4,
        31 => Square::H4,
        32 => Square::A5,
        33 => Square::B5,
        34 => Square::C5,
        35 => Square::D5,
        36 => Square::E5,
        37 => Square::F5,
        38 => Square::G5,
        39 => Square::H5,
        40 => Square::A6,
        41 => Square::B6,
        42 => Square::C6,
        43 => Square::D6,
        44 => Square::E6,
        45 => Square::F6,
        46 => Square::G6,
        47 => Square::H6,
        48 => Square::A7,
        49 => Square::B7,
        50 => Square::C7,
        51 => Square::D7,
        52 => Square::E7,
        53 => Square::F7,
        54 => Square::G7,
        55 => Square::H7,
        56 => Square::A8,
        57 => Square::B8,
        58 => Square::C8,
        59 => Square::D8,
        60 => Square::E8,
        61 => Square::F8,
        62 => Square::G8,
            _ => Square::H8,
        }
    }

    /// Create a Square from file (0–7) and rank (0–7).
    pub fn from_file_rank(file: u8, rank: u8) -> (s: Square)
        requires
            rank * 8 + file < 64,
        ensures
            s.idx() == rank * 8 + file,
    {
        Square::from_index(rank * 8 + file)
    }

    /// Returns the square index (0–63).
    pub fn index(self) -> (i: usize)
        ensures
            i == self.idx(),
            i < 64,
    {
        self.index_u8() as usize
    }

    /// The square index as a byte.
    pub fn index_u8(self) -> (i: u8)
        ensures
            i == self.idx(),
            i < 64,
    {
        match self {
            Square::A1 => 0,
            Square::B1 => 1,
            Square::C1 => 2,
            Square::D1 => 3,
            Square::E1 => 4,
            Square::F1 => 5,
            Square::G1 => 6,
            Square::H1 => 7,
            Square::A2 => 8,
            Square::B2 => 9,
            Square::C2 => 10,
            Square::D2 => 11,
            Square::E2 => 12,
            Square::F2 => 13,
            Square::G2 => 14,
            Square::H2 => 15,
            Square::A3 => 16,
            Square::B3 => 17,
            Square::C3 => 18,
            Square::D3 => 19,
            Square::E3 => 20,
            Square::F3 => 21,
            Square::G3 => 22,
            Square::H3 => 23,
            Square::A4 => 24,
            Square::B4 => 25,
            Square::C4 => 26,
            Square::D4 => 27,
            Square::E4 => 28,
            Square::F4 => 29,
            Square::G4 => 30,
            Square::H4 => 31,
            Square::A5 => 32,
            Square::B5 => 33,
            Square::C5 => 34,
            Square::D5 => 35,
            Square::E5 => 36,
            Square::F5 => 37,
            Square::G5 => 38,
            Square::H5 => 39,
            Square::A6 => 40,
            Square::B6 => 41,
            Square::C6 => 42,
            Square::D6 => 43,
            Square::E6 => 44,
            Square::F6 => 45,
            Square::G6 => 46,
            Square::H6 => 47,
            Square::A7 => 48,
            Square::B7 => 49,
            Square::C7 => 50,
            Square::D7 => 51,
            Square::E7 => 52,
            Square::F7 => 53,
            Square::G7 => 54,
            Square::H7 => 55,
            Square::A8 => 56,
            Square::B8 => 57,
            Square::C8 => 58,
            Square::D8 => 59,
            Square::E8 => 60,
            Square::F8 => 61,
            Square::G8 => 62,
            Square::H8 => 63,
        }
    }

    /// Returns the file (0=a, 7=h).
    pub fn file(self) -> (f: u8)
        ensures
            f == self.idx() % 8,
    {
        let i = self.index_u8();
        proof {
            lemma_index_bits(i);
        }
        i & 7
    }

    /// Returns the rank (0=rank1, 7=rank8).
    pub fn rank(self) -> (r: u8)
        ensures
            r == self.idx() / 8,
    {
        let i = self.index_u8();
        proof {
            lemma_index_bits(i);
        }
        i >> 3
    }

    /// Returns the file as a char ('a'–'h').
    pub fn file_char(self) -> (c: char)
        ensures
            c as int == 'a' as int + self.idx() % 8,
    {
        let f = self.file();
        ((97u8 + f) as char)
    }

    /// Returns the rank as a char ('1'–'8').
    pub fn rank_char(self) -> (c: char)
        ensures
            c as int == '1' as int + self.idx() / 8,
    {
        let r = self.rank();
        ((49u8 + r) as char)
    }

    /// Returns the bitboard mask for this square (1u64 << index).
    pub fn bb(self) -> (b: u64)
        ensures
            b == 1u64 << (self.idx() as u64),
            forall|s: int| #![trigger has_bit(b, s)] has_bit(b, s) <==> s == self.idx(),
    {
        let i = self.index_u8();
        proof {
            lemma_single_bit(i as u64);
        }
        1u64 << i
    }

    /// Flips the square vertically (mirrors rank).
    pub fn flip(self) -> (s: Square)
        ensures
            s.idx() % 8 == self.idx() % 8,
            s.idx() / 8 == 7 - self.idx() / 8,
    {
        let i = self.index_u8();
        proof {
            assert(i < 64 ==> (i ^ 56) < 64 && (i ^ 56) % 8 == i % 8 && (i ^ 56) / 8 == 7 - i / 8) by (bit_vector);
        }
        Square::from_index(i ^ 56)
    }

    /// Manhattan distance between two squares: the file difference plus the rank
    /// difference.
    pub fn distance(self, other: Square) -> (d: u8)
        ensures
            d == vstd::math::abs(self.idx() % 8 - other.idx() % 8)
                + vstd::math::abs(self.idx() / 8 - other.idx() / 8),
    {
        let (f1, f2) = (self.file(), other.file());
        let (r1, r2) = (self.rank(), other.rank());
        let file_diff = if f1 >= f2 { f1 - f2 } else { f2 - f1 };
        let rank_diff = if r1 >= r2 { r1 - r2 } else { r2 - r1 };
        file_diff + rank_diff
    }

    /// Returns the square shifted by delta, or None if off the board.
    pub fn shift(self, delta: i8) -> (r: Option<Square>)
        ensures
            0 <= self.idx() + delta < 64 ==> (r matches Some(s) && s.idx() == self.idx() + delta),
            !(0 <= self.idx() + delta < 64) ==> r is None,
    {
        let idx: i16 = self.index_u8() as i16 + delta as i16;
        if 0 <= idx && idx < 64 {
            Some(Square::from_index(idx as u8))
        } else {
            None
        }
    }

    /// All 64 squares in index order.
    pub fn all() -> (v: Vec<Square>)
        ensures
            v@.len() == 64,
            forall|i: int| 0 <= i < 64 ==> #[trigger] v@[i].idx() == i,
    {
        let mut v: Vec<Square> = Vec::new();
        let mut i: u8 = 0;
        while i < 64
            invariant
                i <= 64,
                v@.len() == i,
                forall|j: int| 0 <= j < i ==> #[trigger] v@[j].idx() == j,
            decreases 64 - i,
        {
            v.push(Square::from_index(i));
            i = i + 1;
        }
        v
    }
}

/// The square named by the first two characters of `cs` ("e4" is file 4, rank 3), each
/// character taken by its low byte, or `None`.
pub open spec fn parse_square_spec(cs: Seq<char>) -> Option<int> {
    if cs.len() < 2 {
        None
    } else {
        let f = (cs[0] as u32) as u8;
        let r = (cs[1] as u32) as u8;
        if 97 <= f <= 104 && 49 <= r <= 56 {
            Some((r - 49) * 8 + (f - 97))
        } else {
            None
        }
    }
}

/// The algebraic name of square index `i`: its file letter and its rank digit.
pub open spec fn square_name(i: int) -> Seq<char> {
    seq![(97 + i % 8) as char, (49 + i / 8) as char]
}

/// Parsing a square's name gives back the square.
pub proof fn lemma_square_name_roundtrip(i: int)
    requires
        0 <= i < 64,
    ensures
        parse_square_spec(square_name(i)) == Some(i),
{
    let cs = square_name(i);
    assert(cs.len() == 2);
    assert(((cs[0] as u32) as u8) == 97 + i % 8);
    assert(((cs[1] as u32) as u8) == 49 + i / 8);
}

impl Square {
    /// Parse a square from algebraic notation (e.g. "e4").
    pub fn from_str(s: &str) -> (r: Option<Square>)
        ensures
            parse_square_spec(s@) is None ==> r is None,
            parse_square_spec(s@) matches Some(i) ==> (r matches Some(sq) && sq.idx() == i),
    {
        broadcast use vstd::string::axiom_spec_iter, vstd::string::next_postcondition;
        let mut chars = s.chars();
        let c1 = chars.next();
        let c2 = chars.next();
        match (c1, c2) {
            (Some(a), Some(b)) => {
                let file = (a as u32) as u8;
                let rank = (b as u32) as u8;
                if 97 <= file && file <= 104 && 49 <= rank && rank <= 56 {
                    Some(Square::from_file_rank(file - 97, rank - 49))
                } else {
                    None
                }
            },
            _ => None,
        }
    }
}

/// Distinct squares have distinct indices.
pub proof fn lemma_idx_injective(a: Square, b: Square)
    ensures
        a.idx() == b.idx() ==> a == b,
        a.idx() < 64,
{
}

/// The square chosen for an index is the square with that index.
pub proof fn lemma_square_of(s: Square)
    ensures
        square_of(s.idx() as int) == s,
{
    let t = square_of(s.idx() as int);
    assert(t.idx() == s.idx());
    lemma_idx_injective(t, s);
}

/// The file and rank of an index by its bits.
proof fn lemma_index_bits(i: u8)
    ensures
        i & 7 == i % 8,
        i >> 3 == i / 8,
{
    assert(i & 7 == i % 8 && i >> 3 == i / 8) by (bit_vector);
}

} // verus!
