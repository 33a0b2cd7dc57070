//! Side to move / piece ownership.
use vstd::prelude::*;

verus! {

/// Represents the side to move or piece ownership.
#[derive(Debug, Clone, Copy, PartialEq, Eq, Hash, Structural)]
pub enum Color {
    White,
    Black,
}

impl Color {
    pub const NUM: usize = 2;

    /// Index of the color: White = 0, Black = 1.
    pub open spec fn idx(self) -> nat {
        match self {
            Color::White => 0,
            Color::Black => 1,
        }
    }

    /// The opposite color.
    pub open spec fn other(self) -> Color {
        match self {
            Color::White => Color::Black,
            Color::Black => Color::White,
        }
    }

    /// Returns the opposite color.
    pub fn flip(self) -> (c: Color)
        ensures
            c == self.other(),
    {
        match self {
            Color::White => Color::Black,
            Color::Black => Color::White,
        }
    }

    /// Returns the color as a usize index (White=0, Black=1).
    pub fn index(self) -> (i: usize)
        ensures
            i == self.idx(),
    {
        match self {
            Color::White => 0,
            Color::Black => 1,
        }
    }

    /// Returns +1 for White, -1 for Black. Used in eval sign.
    pub fn sign(self) -> (s: i32)
        ensures
            s == (if self == Color::White { 1i32 } else { -1i32 }),
    {
        match self {
            Color::White => 1,
            Color::Black => -1,
        }
    }

    /// Pawn push direction: White pushes up (+8), Black pushes down (-8).
    pub fn pawn_push(self) -> (d: i32)
        ensures
            d == (if self == Color::White { 8i32 } else { -8i32 }),
    {
        match self {
            Color::White => 8,
            Color::Black => -8,
        }
    }

    /// Rank that pawns start on (rank index 0-7).
    pub fn pawn_start_rank(self) -> (r: u32)
        ensures
            r == (if self == Color::White { 1u32 } else { 6u32 }),
    {
        match self {
            Color::White => 1,
            Color::Black => 6,
        }
    }

    /// Rank that pawns promote on (rank index 0-7).
    pub fn promotion_rank(self) -> (r: u32)
        ensures
            r == (if self == Color::White { 7u32 } else { 0u32 }),
    {
        match self {
            Color::White => 7,
            Color::Black => 0,
        }
    }

    /// The FEN letter of the color: 'w' or 'b'.
    pub fn to_char(self) -> (c: char)
        ensures
            c == (if self == Color::White { 'w' } else { 'b' }),
    {
        match self {
            Color::White => 'w',
            Color::Black => 'b',
        }
    }

    /// Parses a FEN side-to-move letter.
    pub fn try_from_char(c: char) -> (r: Option<Color>)
        ensures
            r == (if c == 'w' { Some(Color::White) } else if c == 'b' { Some(Color::Black) } else { None::<Color> }),
    {
        if c == 'w' {
            Some(Color::White)
        } else if c == 'b' {
            Some(Color::Black)
        } else {
            None
        }
    }
}

/// Flipping twice gives back the same color.
pub proof fn lemma_flip_involution(c: Color)
    ensures
        c.other().other() == c,
        c.other() != c,
{
}

} // verus!
