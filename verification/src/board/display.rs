//! The board as a diagram of chess symbols.

use vstd::prelude::*;

use super::Board;
use super::Color;
use super::Piece;
use super::PieceType;
use super::Position;

verus! {

/// The chess symbol of a piece.
pub open spec fn piece_glyph(typ: PieceType, color: Color) -> char {
    match (typ, color) {
        (PieceType::King, Color::White) => '\u{2654}',
        (PieceType::Queen, Color::White) => '\u{2655}',
        (PieceType::Rook, Color::White) => '\u{2656}',
        (PieceType::Bishop, Color::White) => '\u{2657}',
        (PieceType::Knight, Color::White) => '\u{2658}',
        (PieceType::Pawn, Color::White) => '\u{2659}',
        (PieceType::King, Color::Black) => '\u{265A}',
        (PieceType::Queen, Color::Black) => '\u{265B}',
        (PieceType::Rook, Color::Black) => '\u{265C}',
        (PieceType::Bishop, Color::Black) => '\u{265D}',
        (PieceType::Knight, Color::Black) => '\u{265E}',
        (PieceType::Pawn, Color::Black) => '\u{265F}',
    }
}

/// What a square shows in a diagram: the symbol of its piece, or a space.
pub open spec fn square_glyph(piece: Piece) -> char {
    match piece {
        Piece::Occupied { typ, color } => piece_glyph(typ, color),
        Piece::Empty => ' ',
    }
}

/// One rank of the diagram, the `a` file first, up to the given file.
pub open spec fn rank_glyphs(pos: Position, rank: int, files: int) -> Seq<char> {
    Seq::new(files as nat, |file: int| square_glyph(pos.at(rank, file)))
}

/// One line of the diagram: the eight squares of a rank and a line break.
pub open spec fn diagram_line(pos: Position, rank: int) -> Seq<char> {
    rank_glyphs(pos, rank, 8).push('\n')
}

/// The lines of the diagram from the eighth rank down to `low`.
pub open spec fn diagram_down_to(pos: Position, low: int) -> Seq<char>
    decreases 8 - low,
{
    if low >= 8 {
        Seq::empty()
    } else {
        diagram_down_to(pos, low + 1) + diagram_line(pos, low)
    }
}

/// The whole diagram: eight lines, the eighth rank at the top.
pub open spec fn diagram_text(pos: Position) -> Seq<char> {
    diagram_down_to(pos, 0)
}

impl Piece {
    /// What the square shows in a diagram: the chess symbol of the piece, or
    /// a space where there is none.
    pub fn glyph(self) -> (c: char)
        ensures
            c == square_glyph(self),
    {
        match self {
            Piece::Occupied { typ, color } => match (typ, color) {
                (PieceType::King, Color::White) => '\u{2654}',
                (PieceType::Queen, Color::White) => '\u{2655}',
                (PieceType::Rook, Color::White) => '\u{2656}',
                (PieceType::Bishop, Color::White) => '\u{2657}',
                (PieceType::Knight, Color::White) => '\u{2658}',
                (PieceType::Pawn, Color::White) => '\u{2659}',
                (PieceType::King, Color::Black) => '\u{265A}',
                (PieceType::Queen, Color::Black) => '\u{265B}',
                (PieceType::Rook, Color::Black) => '\u{265C}',
                (PieceType::Bishop, Color::Black) => '\u{265D}',
                (PieceType::Knight, Color::Black) => '\u{265E}',
                (PieceType::Pawn, Color::Black) => '\u{265F}',
            },
            Piece::Empty => ' ',
        }
    }
}

impl Board {
    /// The board as a diagram: one line for each rank, the eighth rank
    /// first, each square shown by the symbol of its piece or by a space.
    pub fn to_string(&self) -> (text: String)
        ensures
            text@ == diagram_text(self@),
    {
        let mut out = String::new();
        let mut rank: usize = 8;
        while rank > 0
            invariant
                rank <= 8,
                out@ == diagram_down_to(self@, rank as int),
            decreases rank,
        {
            rank -= 1;
            let ghost above = out@;
            for file in 0..8usize
                invariant
                    rank < 8,
                    out@ == above + rank_glyphs(self@, rank as int, file as int),
            {
                out.push(self.read((rank, file)).glyph());
                assert(out@ =~= above + rank_glyphs(self@, rank as int, file + 1));
            }
            out.push('\n');
            assert(out@ =~= above + diagram_line(self@, rank as int));
        }
        out
    }
}

} // verus!
