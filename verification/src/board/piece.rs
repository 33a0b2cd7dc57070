//! Piece types and colored pieces.
use vstd::prelude::*;
use crate::board::color::Color;

verus! {

/// The type of a chess piece, without color.
#[derive(Debug, Clone, Copy, PartialEq, Eq, Hash, Structural)]
pub enum PieceType {
    Pawn,
    Knight,
    Bishop,
    Rook,
    Queen,
    King,
}

/// The piece type with index `i` (0 = pawn .. 5 = king).
pub open spec fn piece_type_of(i: int) -> PieceType {
    if i == 0 {
        PieceType::Pawn
    } else if i == 1 {
        PieceType::Knight
    } else if i == 2 {
        PieceType::Bishop
    } else if i == 3 {
        PieceType::Rook
    } else if i == 4 {
        PieceType::Queen
    } else {
        PieceType::King
    }
}

/// The piece type named by a lower-case FEN letter.
pub open spec fn piece_type_of_char(c: char) -> Option<PieceType> {
    if c == 'p' {
        Some(PieceType::Pawn)
    } else if c == 'n' {
        Some(PieceType::Knight)
    } else if c == 'b' {
        Some(PieceType::Bishop)
    } else if c == 'r' {
        Some(PieceType::Rook)
    } else if c == 'q' {
        Some(PieceType::Queen)
    } else if c == 'k' {
        Some(PieceType::King)
    } else {
        None
    }
}

/// ASCII lower-casing of a character.
pub open spec fn ascii_lower(c: char) -> char {
    if 'A' <= c <= 'Z' {
        ((c as u32) + 32) as char
    } else {
        c
    }
}

impl PieceType {
    pub const NUM: usize = 6;

    /// Index of the piece type: pawn = 0 .. king = 5.
    pub open spec fn idx(self) -> nat {
        match self {
            PieceType::Pawn => 0,
            PieceType::Knight => 1,
            PieceType::Bishop => 2,
            PieceType::Rook => 3,
            PieceType::Queen => 4,
            PieceType::King => 5,
        }
    }

    /// Standard centipawn material value.
    pub open spec fn value_spec(self) -> i32 {
        match self {
            PieceType::Pawn => 100,
            PieceType::Knight => 320,
            PieceType::Bishop => 330,
            PieceType::Rook => 500,
            PieceType::Queen => 900,
            PieceType::King => 20000,
        }
    }

    /// Lower-case FEN letter of the piece type.
    pub open spec fn char_spec(self) -> char {
        match self {
            PieceType::Pawn => 'p',
            PieceType::Knight => 'n',
            PieceType::Bishop => 'b',
            PieceType::Rook => 'r',
            PieceType::Queen => 'q',
            PieceType::King => 'k',
        }
    }

    pub fn index(self) -> (i: usize)
        ensures
            i == self.idx(),
            i < 6,
    {
        match self {
            PieceType::Pawn => 0,
            PieceType::Knight => 1,
            PieceType::Bishop => 2,
            PieceType::Rook => 3,
            PieceType::Queen => 4,
            PieceType::King => 5,
        }
    }

    /// Standard centipawn material value.
    pub fn value(self) -> (v: i32)
        ensures
            v == self.value_spec(),
    {
        match self {
            PieceType::Pawn => 100,
            PieceType::Knight => 320,
            PieceType::Bishop => 330,
            PieceType::Rook => 500,
            PieceType::Queen => 900,
            PieceType::King => 20000,
        }
    }

    /// Is this piece a slider (bishop, rook, queen)?
    pub fn is_slider(self) -> (b: bool)
        ensures
            b <==> (self == PieceType::Bishop || self == PieceType::Rook || self == PieceType::Queen),
    {
        matches!(self, PieceType::Bishop | PieceType::Rook | PieceType::Queen)
    }

    /// Is this piece a diagonal slider (bishop, queen)?
    pub fn is_diagonal_slider(self) -> (b: bool)
        ensures
            b <==> (self == PieceType::Bishop || self == PieceType::Queen),
    {
        matches!(self, PieceType::Bishop | PieceType::Queen)
    }

    /// Is this piece an orthogonal slider (rook, queen)?
    pub fn is_orthogonal_slider(self) -> (b: bool)
        ensures
            b <==> (self == PieceType::Rook || self == PieceType::Queen),
    {
        matches!(self, PieceType::Rook | PieceType::Queen)
    }

    /// The piece type with index `i`, if `i < 6`.
    pub fn from_index(i: usize) -> (r: Option<PieceType>)
        ensures
            i < 6 ==> r == Some(piece_type_of(i as int)) && piece_type_of(i as int).idx() == i,
            i >= 6 ==> r is None,
    {
        match i {
            0 => Some(PieceType::Pawn),
            1 => Some(PieceType::Knight),
            2 => Some(PieceType::Bishop),
            3 => Some(PieceType::Rook),
            4 => Some(PieceType::Queen),
            5 => Some(PieceType::King),
            _ => None,
        }
    }

    /// Parse from a FEN character (either case).
    pub fn from_char(c: char) -> (r: Option<PieceType>)
        ensures
            r == piece_type_of_char(ascii_lower(c)),
    {
        let lc = if 'A' <= c && c <= 'Z' { ((c as u32) + 32) as u8 as char } else { c };
        proof {
            if 'A' <= c <= 'Z' {
                assert(lc == ascii_lower(c));
            }
        }
        if lc == 'p' {
            Some(PieceType::Pawn)
        } else if lc == 'n' {
            Some(PieceType::Knight)
        } else if lc == 'b' {
            Some(PieceType::Bishop)
        } else if lc == 'r' {
            Some(PieceType::Rook)
        } else if lc == 'q' {
            Some(PieceType::Queen)
        } else if lc == 'k' {
            Some(PieceType::King)
        } else {
            None
        }
    }

    /// Lower-case FEN letter.
    pub fn to_char(self) -> (c: char)
        ensures
            c == self.char_spec(),
    {
        match self {
            PieceType::Pawn => 'p',
            PieceType::Knight => 'n',
            PieceType::Bishop => 'b',
            PieceType::Rook => 'r',
            PieceType::Queen => 'q',
            PieceType::King => 'k',
        }
    }

    /// All piece types in order.
    pub fn all() -> (a: [PieceType; 6])
        ensures
            forall|i: int| 0 <= i < 6 ==> #[trigger] a@[i] == piece_type_of(i),
    {
        [
            PieceType::Pawn,
            PieceType::Knight,
            PieceType::Bishop,
            PieceType::Rook,
            PieceType::Queen,
            PieceType::King,
        ]
    }
}

/// A piece with both type and color.
#[derive(Debug, Clone, Copy, PartialEq, Eq, Hash, Structural)]
pub struct Piece {
    pub piece_type: PieceType,
    pub color: Color,
}

impl Piece {
    /// Index 0–11 of the piece: color * 6 + piece type.
    pub open spec fn idx(self) -> nat {
        self.color.idx() * 6 + self.piece_type.idx()
    }

    /// FEN letter of the piece: upper case for White, lower case for Black.
    pub open spec fn char_spec(self) -> char {
        if self.color == Color::White {
            ((self.piece_type.char_spec() as u32) - 32) as char
        } else {
            self.piece_type.char_spec()
        }
    }

    pub fn new(piece_type: PieceType, color: Color) -> (p: Piece)
        ensures
            p.piece_type == piece_type,
            p.color == color,
    {
        Piece { piece_type, color }
    }

    /// Returns the index 0–11 (used for bitboard arrays and Zobrist).
    /// Layout: [WhitePawn, WhiteKnight, ..., WhiteKing, BlackPawn, ..., BlackKing]
    pub fn index(self) -> (i: usize)
        ensures
            i == self.idx(),
            i < 12,
    {
        self.color.index() * PieceType::NUM + self.piece_type.index()
    }

    /// Parse a FEN piece letter: upper case is White, lower case is Black.
    pub fn from_char(c: char) -> (r: Option<Piece>)
        ensures
            r == (match piece_type_of_char(ascii_lower(c)) {
                Some(pt) => Some(Piece { piece_type: pt, color: if 'A' <= c <= 'Z' { Color::White } else { Color::Black } }),
                None => None,
            }),
    {
        match PieceType::from_char(c) {
            Some(piece_type) => {
                let color = if 'A' <= c && c <= 'Z' { Color::White } else { Color::Black };
                Some(Piece::new(piece_type, color))
            },
            None => None,
        }
    }

    /// FEN letter of the piece.
    pub fn to_char(self) -> (c: char)
        ensures
            c == self.char_spec(),
    {
        let c = self.piece_type.to_char();
        if self.color == Color::White {
            ((c as u32) - 32) as u8 as char
        } else {
            c
        }
    }

    /// Material value of the piece type.
    pub fn value(self) -> (v: i32)
        ensures
            v == self.piece_type.value_spec(),
    {
        self.piece_type.value()
    }
}

/// Reading back the FEN letter of a piece gives the piece.
pub proof fn lemma_piece_char_roundtrip(p: Piece)
    ensures
        piece_type_of_char(ascii_lower(p.char_spec())) == Some(p.piece_type),
        ('A' <= p.char_spec() <= 'Z') <==> p.color == Color::White,
{
}

} // verus!
