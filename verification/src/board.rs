//! The board: sixty-four squares plus the clock, the en-passant target and the
//! castling rights.

use vstd::prelude::*;

pub mod display;
pub mod fen;
pub mod file;
pub mod index;
pub mod piece;
pub mod play;

pub use index::Coord;
pub use piece::Piece;

verus! {

/// A square as a rank and a file, each from 0 to 7. Rank 0 is White's back
/// rank and file 0 is the `a` file.
pub type Square = (usize, usize);

/// The six kinds of chess piece.
#[derive(Clone, Copy, Debug, PartialEq, Eq, Structural, PartialOrd, Ord, Hash)]
pub enum PieceType {
    King,
    Queen,
    Rook,
    Bishop,
    Knight,
    Pawn,
}

impl PieceType {
    /// The kind of piece that an upper-case letter of algebraic notation
    /// names. Pawns have no letter there.
    pub open spec fn of_letter(c: char) -> Option<PieceType> {
        if c == 'K' {
            Some(PieceType::King)
        } else if c == 'Q' {
            Some(PieceType::Queen)
        } else if c == 'R' {
            Some(PieceType::Rook)
        } else if c == 'B' {
            Some(PieceType::Bishop)
        } else if c == 'N' {
            Some(PieceType::Knight)
        } else {
            None
        }
    }

    /// The upper-case letter of the kind; a pawn is `P`.
    pub open spec fn spec_letter(self) -> char {
        match self {
            PieceType::King => 'K',
            PieceType::Queen => 'Q',
            PieceType::Rook => 'R',
            PieceType::Bishop => 'B',
            PieceType::Knight => 'N',
            PieceType::Pawn => 'P',
        }
    }

    /// Reads the letter of a piece in algebraic notation: `K`, `Q`, `R`, `B`
    /// or `N`. Any other character names no piece.
    pub fn from_letter(c: char) -> (r: Option<PieceType>)
        ensures
            r == PieceType::of_letter(c),
    {
        match c {
            'K' => Some(PieceType::King),
            'Q' => Some(PieceType::Queen),
            'R' => Some(PieceType::Rook),
            'B' => Some(PieceType::Bishop),
            'N' => Some(PieceType::Knight),
            _ => None,
        }
    }

    /// The upper-case letter of the kind; a pawn is `P`.
    pub fn letter(self) -> (c: char)
        ensures
            c == self.spec_letter(),
    {
        match self {
            PieceType::King => 'K',
            PieceType::Queen => 'Q',
            PieceType::Rook => 'R',
            PieceType::Bishop => 'B',
            PieceType::Knight => 'N',
            PieceType::Pawn => 'P',
        }
    }

    /// Returns `true` if the piece type is [`King`](PieceType::King).
    #[must_use]
    pub fn is_king(&self) -> (b: bool)
        ensures
            b == (*self == PieceType::King),
    {
        matches!(self, PieceType::King)
    }

    /// Returns `true` if the piece type is [`Pawn`](PieceType::Pawn).
    #[must_use]
    pub fn is_pawn(&self) -> (b: bool)
        ensures
            b == (*self == PieceType::Pawn),
    {
        matches!(self, PieceType::Pawn)
    }
}

/// The two sides.
#[derive(Clone, Copy, Debug, PartialEq, Eq, Structural, Hash)]
pub enum Color {
    Black,
    White,
}

impl Color {
    /// The other side.
    pub open spec fn spec_other(self) -> Color {
        match self {
            Color::Black => Color::White,
            Color::White => Color::Black,
        }
    }

    /// The other side.
    #[verifier::when_used_as_spec(spec_other)]
    pub fn other(self) -> (c: Color)
        ensures
            c == self.spec_other(),
    {
        match self {
            Color::Black => Color::White,
            Color::White => Color::Black,
        }
    }

    /// Returns `true` if the color is [`Black`](Color::Black).
    #[must_use]
    pub fn is_black(&self) -> (b: bool)
        ensures
            b == (*self == Color::Black),
    {
        matches!(self, Color::Black)
    }

    /// Returns `true` if the color is [`White`](Color::White).
    #[must_use]
    pub fn is_white(&self) -> (b: bool)
        ensures
            b == (*self == Color::White),
    {
        matches!(self, Color::White)
    }
}

/// The content of a board as a mathematical value: what contracts speak of.
pub struct Position {
    /// The sixty-four squares, rank 0 first, and within a rank the `a` file
    /// first.
    pub squares: Seq<Piece>,
    /// Plies since the last pawn move or capture.
    pub half_move_clock: nat,
    /// The square that a pawn passed over on the ply just played, if it
    /// advanced two squares.
    pub en_passant_target: Option<(int, int)>,
    /// Whether White may still castle on the king's side.
    pub white_can_castle_kingside: bool,
    /// Whether White may still castle on the queen's side.
    pub white_can_castle_queenside: bool,
    /// Whether Black may still castle on the king's side.
    pub black_can_castle_kingside: bool,
    /// Whether Black may still castle on the queen's side.
    pub black_can_castle_queenside: bool,
}

/// Whether a rank and a file name a square of the board.
pub open spec fn on_board(rank: int, file: int) -> bool {
    0 <= rank < 8 && 0 <= file < 8
}

/// The kind of piece that starts on the back rank at a file.
pub open spec fn back_rank_kind(file: int) -> PieceType {
    if file == 0 || file == 7 {
        PieceType::Rook
    } else if file == 1 || file == 6 {
        PieceType::Knight
    } else if file == 2 || file == 5 {
        PieceType::Bishop
    } else if file == 3 {
        PieceType::Queen
    } else {
        PieceType::King
    }
}

/// What stands on a square at the start of a game.
pub open spec fn initial_piece(rank: int, file: int) -> Piece {
    if rank == 0 {
        Piece::Occupied { typ: back_rank_kind(file), color: Color::White }
    } else if rank == 1 {
        Piece::Occupied { typ: PieceType::Pawn, color: Color::White }
    } else if rank == 6 {
        Piece::Occupied { typ: PieceType::Pawn, color: Color::Black }
    } else if rank == 7 {
        Piece::Occupied { typ: back_rank_kind(file), color: Color::Black }
    } else {
        Piece::Empty
    }
}

impl Position {
    /// Sixty-four squares, and an en-passant target, if any, that lies on the
    /// board.
    pub open spec fn wf(self) -> bool {
        &&& self.squares.len() == 64
        &&& self.en_passant_target matches Some(sq) ==> on_board(sq.0, sq.1)
    }

    /// The content of the square at a rank and file.
    pub open spec fn at(self, rank: int, file: int) -> Piece {
        self.squares[rank * 8 + file]
    }

    /// The position with one square overwritten.
    pub open spec fn put(self, rank: int, file: int, piece: Piece) -> Position {
        Position { squares: self.squares.update(rank * 8 + file, piece), ..self }
    }

    /// The position after whatever stands on `from` has been carried to `to`:
    /// `from` is left empty, and what stood on `to` is gone. Where the two
    /// are one square, nothing changes.
    pub open spec fn relocate(self, from: (int, int), to: (int, int)) -> Position {
        self.put(from.0, from.1, Piece::Empty).put(to.0, to.1, self.at(from.0, from.1))
    }

    /// Whether a side may still castle on a wing.
    pub open spec fn can_castle(self, color: Color, kingside: bool) -> bool {
        match (color, kingside) {
            (Color::White, true) => self.white_can_castle_kingside,
            (Color::White, false) => self.white_can_castle_queenside,
            (Color::Black, true) => self.black_can_castle_kingside,
            (Color::Black, false) => self.black_can_castle_queenside,
        }
    }

    /// The position with the en-passant target removed.
    pub open spec fn without_en_passant(self) -> Position {
        Position { en_passant_target: None, ..self }
    }

    /// The position with one castling right taken away.
    pub open spec fn revoke(self, color: Color, kingside: bool) -> Position {
        match (color, kingside) {
            (Color::White, true) => Position { white_can_castle_kingside: false, ..self },
            (Color::White, false) => Position { white_can_castle_queenside: false, ..self },
            (Color::Black, true) => Position { black_can_castle_kingside: false, ..self },
            (Color::Black, false) => Position { black_can_castle_queenside: false, ..self },
        }
    }

    /// The standard starting arrangement: every castling right, clock at
    /// zero, no en-passant target.
    pub open spec fn initial() -> Position {
        Position {
            squares: Seq::new(64, |i: int| initial_piece(i / 8, i % 8)),
            half_move_clock: 0,
            en_passant_target: None,
            white_can_castle_kingside: true,
            white_can_castle_queenside: true,
            black_can_castle_kingside: true,
            black_can_castle_queenside: true,
        }
    }
}

/// Reading a square straight after writing it gives what was written, and
/// every other square reads as before.
pub proof fn lemma_read_after_write(pos: Position, rank: int, file: int, piece: Piece)
    requires
        pos.wf(),
        on_board(rank, file),
    ensures
        pos.put(rank, file, piece).at(rank, file) == piece,
        pos.put(rank, file, piece).wf(),
        forall|r: int, f: int|
            on_board(r, f) && (r, f) != (rank, file) ==> #[trigger] pos.put(rank, file, piece).at(
                r,
                f,
            ) == pos.at(r, f),
{
}

/// A chess board with the state that goes with it. The board does not know
/// whose turn it is: the caller names the side with every move. A board is a
/// plain value: a copy of it is a snapshot of the game.
#[derive(Clone, Copy, Debug, PartialEq, Eq)]
pub struct Board {
    squares: [Piece; 64],
    half_move_clock: usize,
    en_passant_target: Option<Coord>,
    white_can_castle_kingside: bool,
    white_can_castle_queenside: bool,
    black_can_castle_kingside: bool,
    black_can_castle_queenside: bool,
}

impl View for Board {
    type V = Position;

    closed spec fn view(&self) -> Position {
        Position {
            squares: self.squares@,
            half_move_clock: self.half_move_clock as nat,
            en_passant_target: match self.en_passant_target {
                Some(coord) => Some(
                    (coord.spec_square().0 as int, coord.spec_square().1 as int),
                ),
                None => None,
            },
            white_can_castle_kingside: self.white_can_castle_kingside,
            white_can_castle_queenside: self.white_can_castle_queenside,
            black_can_castle_kingside: self.black_can_castle_kingside,
            black_can_castle_queenside: self.black_can_castle_queenside,
        }
    }
}

/// The kind of piece that starts on the back rank at a file.
fn back_rank(file: usize) -> (typ: PieceType)
    requires
        file < 8,
    ensures
        typ == back_rank_kind(file as int),
{
    match file {
        0 | 7 => PieceType::Rook,
        1 | 6 => PieceType::Knight,
        2 | 5 => PieceType::Bishop,
        3 => PieceType::Queen,
        _ => PieceType::King,
    }
}

impl Board {
    /// The position of a board is always well formed, and its clock fits a
    /// machine word.
    pub proof fn lemma_view_wf(&self)
        ensures
            self@.wf(),
            self@.half_move_clock <= usize::MAX,
    {
    }

    /// A board in the standard starting arrangement.
    pub fn new() -> (b: Board)
        ensures
            b@ == Position::initial(),
    {
        let mut squares = [Piece::Empty; 64];
        for file in 0..8usize
            invariant
                forall|i: int|
                    0 <= i < 64 ==> #[trigger] squares@[i] == if i % 8 < file {
                        initial_piece(i / 8, i % 8)
                    } else {
                        Piece::Empty
                    },
        {
            let typ = back_rank(file);
            squares[file] = Piece::Occupied { typ, color: Color::White };
            squares[8 + file] = Piece::Occupied { typ: PieceType::Pawn, color: Color::White };
            squares[48 + file] = Piece::Occupied { typ: PieceType::Pawn, color: Color::Black };
            squares[56 + file] = Piece::Occupied { typ, color: Color::Black };
        }
        let b = Board {
            squares,
            half_move_clock: 0,
            en_passant_target: None,
            white_can_castle_kingside: true,
            white_can_castle_queenside: true,
            black_can_castle_kingside: true,
            black_can_castle_queenside: true,
        };
        assert(b@.squares =~= Position::initial().squares);
        b
    }

    /// Plies since the last pawn move or capture.
    pub fn half_move_clock(&self) -> (n: usize)
        ensures
            n == self@.half_move_clock,
    {
        self.half_move_clock
    }

    /// The square that a pawn passed over on the ply just played, if it
    /// advanced two squares.
    pub fn en_passant_target(&self) -> (target: Option<Square>)
        ensures
            match target {
                Some(sq) => self@.en_passant_target == Some((sq.0 as int, sq.1 as int)),
                None => self@.en_passant_target is None,
            },
    {
        match self.en_passant_target {
            Some(coord) => Some(coord.square()),
            None => None,
        }
    }

    /// Removes the en-passant target.
    pub(crate) fn clear_en_passant(&mut self)
        ensures
            final(self)@ == old(self)@.without_en_passant(),
    {
        self.en_passant_target = None;
    }

    /// Makes a square the en-passant target.
    pub(crate) fn set_en_passant(&mut self, rank: usize, file: usize)
        requires
            rank < 8,
            file < 8,
        ensures
            final(self)@ == (Position {
                en_passant_target: Some((rank as int, file as int)),
                ..old(self)@
            }),
    {
        self.en_passant_target = Coord::at(rank, file);
    }

    /// Counts one more ply on the clock, or starts the clock again.
    pub(crate) fn tick(&mut self, restart: bool)
        requires
            restart || old(self)@.half_move_clock < usize::MAX,
        ensures
            final(self)@ == (Position {
                half_move_clock: if restart {
                    0
                } else {
                    old(self)@.half_move_clock + 1
                },
                ..old(self)@
            }),
    {
        if restart {
            self.half_move_clock = 0;
        } else {
            self.half_move_clock += 1;
        }
    }

    /// Whether a side may still castle on a wing.
    pub fn can_castle(&self, color: Color, kingside: bool) -> (b: bool)
        ensures
            b == self@.can_castle(color, kingside),
    {
        match (color, kingside) {
            (Color::White, true) => self.white_can_castle_kingside,
            (Color::White, false) => self.white_can_castle_queenside,
            (Color::Black, true) => self.black_can_castle_kingside,
            (Color::Black, false) => self.black_can_castle_queenside,
        }
    }

    /// The content of a square.
    pub fn read(&self, sq: Square) -> (p: Piece)
        requires
            sq.0 < 8,
            sq.1 < 8,
        ensures
            p == self@.at(sq.0 as int, sq.1 as int),
    {
        self.squares[sq.0 * 8 + sq.1]
    }

    /// Overwrites the content of a square. Nothing else changes.
    pub fn write(&mut self, sq: Square, piece: Piece)
        requires
            sq.0 < 8,
            sq.1 < 8,
        ensures
            final(self)@ == old(self)@.put(sq.0 as int, sq.1 as int, piece),
    {
        self.squares[sq.0 * 8 + sq.1] = piece;
    }

    /// Takes one castling right away.
    pub(crate) fn revoke(&mut self, color: Color, kingside: bool)
        ensures
            final(self)@ == old(self)@.revoke(color, kingside),
    {
        match (color, kingside) {
            (Color::White, true) => self.white_can_castle_kingside = false,
            (Color::White, false) => self.white_can_castle_queenside = false,
            (Color::Black, true) => self.black_can_castle_kingside = false,
            (Color::Black, false) => self.black_can_castle_queenside = false,
        }
    }

    /// Takes away the castling right that goes with a rook of `color` leaving
    /// `from`, if `from` is a corner of that side.
    pub(crate) fn leave_corner(&mut self, color: Color, from: Square)
        ensures
            final(self)@ == piece::leave_corner(
                old(self)@,
                color,
                (from.0 as int, from.1 as int),
            ),
    {
        let rank: usize = match color {
            Color::White => 0,
            Color::Black => 7,
        };
        if from.0 == rank && from.1 == 7 {
            self.revoke(color, true);
        } else if from.0 == rank && from.1 == 0 {
            self.revoke(color, false);
        }
    }

    /// Moves the piece in the square `from` to `to`, leaving `from` empty.
    /// Whatever stood on `to` is gone: that is how a capture happens.
    pub fn swap(&mut self, from: Square, to: Square)
        requires
            from.0 < 8,
            from.1 < 8,
            to.0 < 8,
            to.1 < 8,
        ensures
            final(self)@ == old(self)@.relocate(
                (from.0 as int, from.1 as int),
                (to.0 as int, to.1 as int),
            ),
    {
        let piece = self.read(from);
        self.write(from, Piece::Empty);
        self.write(to, piece);
    }
}

impl Default for Board {
    fn default() -> (b: Self)
        ensures
            b@ == Position::initial(),
    {
        Board::new()
    }
}

} // verus!
