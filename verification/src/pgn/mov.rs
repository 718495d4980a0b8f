//! A single move as algebraic notation describes it, and the reading of one
//! token of that notation.

use core::str::FromStr;
use vstd::prelude::*;

use crate::board::file::File;
use crate::board::PieceType;
use crate::text::chars_of;
use crate::text::digit;
use crate::text::digit_char;

verus! {

/// What a token of algebraic notation says about a move. The origin square is
/// known only as far as the notation gives it: the board decides the rest.
#[derive(Clone, Copy, Debug, PartialEq, Eq)]
pub enum Move {
    Normal {
        /// The type of the piece involved.
        typ: PieceType,
        /// The rank of the origin square, counted from zero, where known.
        from_rank: Option<usize>,
        /// The file of the origin square, counted from zero, where known.
        from_file: Option<usize>,
        /// The rank of the destination square, counted from zero.
        dest_rank: usize,
        /// The file of the destination square.
        dest_file: File,
    },
    KingCastle,
    QueenCastle,
}

/// The error of a token that is not a move in algebraic notation.
#[derive(Clone, Debug, PartialEq, Eq)]
pub struct ParseError {
    /// The token as it was given.
    pub token: String,
}

/// The marks for check and mate that may follow a move.
pub open spec fn is_decoration(c: char) -> bool {
    c == '+' || c == '#'
}

/// A token without the marks for check and mate at its end.
pub open spec fn strip_decorations(s: Seq<char>) -> Seq<char>
    decreases s.len(),
{
    if s.len() > 0 && is_decoration(s.last()) {
        strip_decorations(s.drop_last())
    } else {
        s
    }
}

/// The rank that a digit names, counted from zero: `'1'` is rank 0 and `'8'`
/// is rank 7. No other character names a rank.
pub open spec fn rank_of_digit(c: char) -> Option<usize> {
    if c == '1' {
        Some(0)
    } else if c == '2' {
        Some(1)
    } else if c == '3' {
        Some(2)
    } else if c == '4' {
        Some(3)
    } else if c == '5' {
        Some(4)
    } else if c == '6' {
        Some(5)
    } else if c == '7' {
        Some(6)
    } else if c == '8' {
        Some(7)
    } else {
        None
    }
}

/// The square that a file letter and a rank digit name together.
pub open spec fn square_of(file: char, rank: char) -> Option<(File, usize)> {
    match (File::of_letter(file), rank_of_digit(rank)) {
        (Some(f), Some(r)) => Some((f, r)),
        _ => None,
    }
}

/// The move of a piece other than a pawn, read from a stripped token whose
/// first character is the letter of the piece.
///
/// Three characters are the piece and the destination. Four have one more in
/// the second place: a file letter or a rank digit that tells the origin, or
/// the capture mark `x`. Five give the whole origin square before the
/// destination.
pub open spec fn piece_move_of(typ: PieceType, t: Seq<char>) -> Option<Move> {
    if t.len() == 3 {
        match square_of(t[1], t[2]) {
            Some(dest) => Some(
                Move::Normal {
                    typ,
                    from_rank: None,
                    from_file: None,
                    dest_rank: dest.1,
                    dest_file: dest.0,
                },
            ),
            None => None,
        }
    } else if t.len() == 4 {
        match square_of(t[2], t[3]) {
            Some(dest) => {
                if let Some(f) = File::of_letter(t[1]) {
                    Some(
                        Move::Normal {
                            typ,
                            from_rank: None,
                            from_file: Some(f.ordinal() as usize),
                            dest_rank: dest.1,
                            dest_file: dest.0,
                        },
                    )
                } else if let Some(r) = rank_of_digit(t[1]) {
                    Some(
                        Move::Normal {
                            typ,
                            from_rank: Some(r),
                            from_file: None,
                            dest_rank: dest.1,
                            dest_file: dest.0,
                        },
                    )
                } else if t[1] == 'x' {
                    Some(
                        Move::Normal {
                            typ,
                            from_rank: None,
                            from_file: None,
                            dest_rank: dest.1,
                            dest_file: dest.0,
                        },
                    )
                } else {
                    None
                }
            },
            None => None,
        }
    } else if t.len() == 5 {
        match (square_of(t[1], t[2]), square_of(t[3], t[4])) {
            (Some(origin), Some(dest)) => Some(
                Move::Normal {
                    typ,
                    from_rank: Some(origin.1),
                    from_file: Some(origin.0.ordinal() as usize),
                    dest_rank: dest.1,
                    dest_file: dest.0,
                },
            ),
            _ => None,
        }
    } else {
        None
    }
}

/// The move of a pawn, read from a stripped token.
///
/// Two characters are the destination of an advance; the pawn then comes
/// from the file of the destination. Four are a capture: the file of origin,
/// the capture mark `x`, and the destination.
pub open spec fn pawn_move_of(t: Seq<char>) -> Option<Move> {
    if t.len() == 2 {
        match square_of(t[0], t[1]) {
            Some(dest) => Some(
                Move::Normal {
                    typ: PieceType::Pawn,
                    from_rank: None,
                    from_file: Some(dest.0.ordinal() as usize),
                    dest_rank: dest.1,
                    dest_file: dest.0,
                },
            ),
            None => None,
        }
    } else if t.len() == 4 {
        match (File::of_letter(t[0]), square_of(t[2], t[3])) {
            (Some(f), Some(dest)) => if t[1] == 'x' {
                Some(
                    Move::Normal {
                        typ: PieceType::Pawn,
                        from_rank: None,
                        from_file: Some(f.ordinal() as usize),
                        dest_rank: dest.1,
                        dest_file: dest.0,
                    },
                )
            } else {
                None
            },
            _ => None,
        }
    } else {
        None
    }
}

/// The notation for castling on the king's side.
pub open spec fn king_castle_text() -> Seq<char> {
    seq!['O', '-', 'O']
}

/// The notation for castling on the queen's side.
pub open spec fn queen_castle_text() -> Seq<char> {
    seq!['O', '-', 'O', '-', 'O']
}

/// The move that a token of algebraic notation stands for, or `None` where
/// the token is not a move. Marks for check and mate at the end are passed
/// over. The two castling notations come first; then a leading piece letter
/// makes a piece move, and anything else is read as a pawn move.
pub open spec fn parse_token(s: Seq<char>) -> Option<Move> {
    let t = strip_decorations(s);
    if t == king_castle_text() {
        Some(Move::KingCastle)
    } else if t == queen_castle_text() {
        Some(Move::QueenCastle)
    } else if t.len() > 0 && PieceType::of_letter(t[0]) is Some {
        piece_move_of(PieceType::of_letter(t[0])->0, t)
    } else {
        pawn_move_of(t)
    }
}

/// What a move shows of its origin: for a piece its letter and the file of
/// origin where known, for a pawn nothing, and then for both the rank of
/// origin where known.
pub open spec fn origin_text(
    typ: PieceType,
    from_rank: Option<usize>,
    from_file: Option<usize>,
) -> Seq<char> {
    let piece: Seq<char> = if typ == PieceType::Pawn {
        Seq::empty()
    } else {
        match from_file {
            Some(f) => seq![typ.spec_letter(), File::ordinal_letter(f as int)],
            None => seq![typ.spec_letter()],
        }
    };
    match from_rank {
        Some(r) => piece.push(digit_char(r + 1)),
        None => piece,
    }
}

/// A move written out: what it shows of its origin, then its destination.
/// Castling is written `O-O` on the king's side and `O-O-O` on the queen's.
pub open spec fn notation(m: Move) -> Seq<char> {
    match m {
        Move::Normal { typ, from_rank, from_file, dest_rank, dest_file } => origin_text(
            typ,
            from_rank,
            from_file,
        ) + seq![dest_file.spec_letter(), digit_char(dest_rank + 1)],
        Move::KingCastle => king_castle_text(),
        Move::QueenCastle => queen_castle_text(),
    }
}

/// Whether a move is written in a way that can be read back: castling, a
/// move of a piece, or the advance of a pawn along its file.
pub open spec fn reads_back(m: Move) -> bool {
    m matches Move::Normal { typ: PieceType::Pawn, from_rank, from_file, dest_file, .. } ==> {
        &&& from_rank is None
        &&& from_file == Some(dest_file.ordinal() as usize)
    }
}

/// Writing a move out and reading it again gives the move back, for castling,
/// for every move of a piece, and for the advance of a pawn along its file.
pub proof fn lemma_notation_reads_back(m: Move)
    requires
        m.wf(),
        reads_back(m),
    ensures
        parse_token(notation(m)) == Some(m),
{
    let t = notation(m);
    match m {
        Move::Normal { typ, from_rank, from_file, dest_rank, dest_file } => {
            dest_file.lemma_letter_roundtrip();
            assert(rank_of_digit(digit_char(dest_rank + 1)) == Some(dest_rank));
            assert(square_of(dest_file.spec_letter(), digit_char(dest_rank + 1)) == Some(
                (dest_file, dest_rank),
            ));
            if let Some(r) = from_rank {
                assert(rank_of_digit(digit_char(r + 1)) == Some(r));
                assert(File::of_letter(digit_char(r + 1)) is None);
            }
            if let Some(f) = from_file {
                let file = File::of_ordinal(f as int)->0;
                file.lemma_letter_roundtrip();
                assert(File::of_letter(File::ordinal_letter(f as int)) == Some(file));
                assert(file.ordinal() == f);
            }
            assert(t.len() > 0);
            assert(!is_decoration(t.last()));
            assert(strip_decorations(t) == t);
            assert(t[0] != 'O');
            assert(t != king_castle_text());
            assert(t != queen_castle_text());
            if typ == PieceType::Pawn {
                assert(t =~= seq![dest_file.spec_letter(), digit_char(dest_rank + 1)]);
                assert(PieceType::of_letter(t[0]) is None);
            } else {
                assert(PieceType::of_letter(typ.spec_letter()) == Some(typ));
                assert(t[0] == typ.spec_letter());
            }
        },
        Move::KingCastle => {
            assert(strip_decorations(t) == t);
        },
        Move::QueenCastle => {
            assert(strip_decorations(t) == t);
            assert(t.len() != king_castle_text().len());
        },
    }
}

/// Reads a rank digit, `'1'` to `'8'`, as a rank counted from zero.
pub fn rank_from_digit(c: char) -> (r: Option<usize>)
    ensures
        r == rank_of_digit(c),
{
    match c {
        '1' => Some(0),
        '2' => Some(1),
        '3' => Some(2),
        '4' => Some(3),
        '5' => Some(4),
        '6' => Some(5),
        '7' => Some(6),
        '8' => Some(7),
        _ => None,
    }
}

/// Reads a file letter and a rank digit as a square.
pub fn pawn_dest(file: char, rank: char) -> (r: Option<(File, usize)>)
    ensures
        r == square_of(file, rank),
{
    match (File::from_letter(file), rank_from_digit(rank)) {
        (Some(f), Some(r)) => Some((f, r)),
        _ => None,
    }
}

/// Reads the move of a piece other than a pawn from the characters of a
/// stripped token. The first character, the letter of the piece, has been
/// read already and is passed as `typ`.
pub fn knight_move(chars: &Vec<char>, typ: PieceType) -> (r: Option<Move>)
    ensures
        r == piece_move_of(typ, chars@),
{
    if chars.len() == 3 {
        match pawn_dest(chars[1], chars[2]) {
            Some((dest_file, dest_rank)) => Some(
                Move::Normal { typ, from_rank: None, from_file: None, dest_rank, dest_file },
            ),
            None => None,
        }
    } else if chars.len() == 4 {
        let (dest_file, dest_rank) = match pawn_dest(chars[2], chars[3]) {
            Some(dest) => dest,
            None => {
                return None;
            },
        };
        // disambiguating file, eg Nbd7
        if let Some(file) = File::from_letter(chars[1]) {
            Some(
                Move::Normal {
                    typ,
                    from_rank: None,
                    from_file: Some(file.index()),
                    dest_rank,
                    dest_file,
                },
            )
        } else if let Some(rank) = rank_from_digit(chars[1]) {
            // disambiguating rank, eg N2f4
            Some(
                Move::Normal {
                    typ,
                    from_rank: Some(rank),
                    from_file: None,
                    dest_rank,
                    dest_file,
                },
            )
        } else if chars[1] == 'x' {
            // capture, eg Nxf4
            Some(Move::Normal { typ, from_rank: None, from_file: None, dest_rank, dest_file })
        } else {
            None
        }
    } else if chars.len() == 5 {
        // both a file and a rank, eg Ng6f4
        match (pawn_dest(chars[1], chars[2]), pawn_dest(chars[3], chars[4])) {
            (Some((f, r)), Some((dest_file, dest_rank))) => Some(
                Move::Normal {
                    typ,
                    from_rank: Some(r),
                    from_file: Some(f.index()),
                    dest_rank,
                    dest_file,
                },
            ),
            _ => None,
        }
    } else {
        None
    }
}

/// Reads the move of a bishop, which is written as that of any other piece.
pub fn bishop_move(chars: &Vec<char>, typ: PieceType) -> (r: Option<Move>)
    ensures
        r == piece_move_of(typ, chars@),
{
    knight_move(chars, typ)
}

/// Reads the move of a pawn from the characters of a stripped token.
pub fn pawn_move(chars: &Vec<char>) -> (r: Option<Move>)
    ensures
        r == pawn_move_of(chars@),
{
    if chars.len() == 2 {
        match pawn_dest(chars[0], chars[1]) {
            Some((dest_file, dest_rank)) => Some(
                Move::Normal {
                    typ: PieceType::Pawn,
                    from_rank: None,
                    from_file: Some(dest_file.index()),
                    dest_rank,
                    dest_file,
                },
            ),
            None => None,
        }
    } else if chars.len() == 4 {
        // split 'exf4' into 'e' and 'f4'
        match (File::from_letter(chars[0]), pawn_dest(chars[2], chars[3])) {
            (Some(f), Some((dest_file, dest_rank))) => {
                if chars[1] == 'x' {
                    Some(
                        Move::Normal {
                            typ: PieceType::Pawn,
                            from_rank: None,
                            from_file: Some(f.index()),
                            dest_rank,
                            dest_file,
                        },
                    )
                } else {
                    None
                }
            },
            _ => None,
        }
    } else {
        None
    }
}

/// The characters of a token without the marks for check and mate at its
/// end.
fn strip(chars: &Vec<char>) -> (out: Vec<char>)
    ensures
        out@ == strip_decorations(chars@),
{
    let mut n = chars.len();
    assert(chars@.take(n as int) =~= chars@);
    while n > 0 && (chars[n - 1] == '+' || chars[n - 1] == '#')
        invariant
            n <= chars.len(),
            strip_decorations(chars@.take(n as int)) == strip_decorations(chars@),
        decreases n,
    {
        assert(chars@.take(n as int).drop_last() =~= chars@.take(n - 1));
        n -= 1;
    }
    let mut out: Vec<char> = Vec::new();
    for i in 0..n
        invariant
            n <= chars.len(),
            out@ == chars@.take(i as int),
    {
        out.push(chars[i]);
        assert(chars@.take(i + 1) =~= chars@.take(i as int).push(chars@[i as int]));
    }
    out
}

/// Whether the characters are the notation for castling on the king's side.
fn is_king_castle(chars: &Vec<char>) -> (b: bool)
    ensures
        b == (chars@ == king_castle_text()),
{
    let b = chars.len() == 3 && chars[0] == 'O' && chars[1] == '-' && chars[2] == 'O';
    assert(b ==> chars@ =~= king_castle_text());
    b
}

/// Whether the characters are the notation for castling on the queen's side.
fn is_queen_castle(chars: &Vec<char>) -> (b: bool)
    ensures
        b == (chars@ == queen_castle_text()),
{
    let b = chars.len() == 5 && chars[0] == 'O' && chars[1] == '-' && chars[2] == 'O' && chars[3]
        == '-' && chars[4] == 'O';
    assert(b ==> chars@ =~= queen_castle_text());
    b
}

impl Move {
    /// The destination of a normal move lies on the board. Castling moves
    /// name no square.
    pub open spec fn dest_on_board(self) -> bool {
        self matches Move::Normal { dest_rank, .. } ==> dest_rank < 8
    }

    /// Every rank and file that the move names lies on the board.
    pub open spec fn wf(self) -> bool {
        &&& self.dest_on_board()
        &&& self matches Move::Normal { from_rank: Some(r), .. } ==> r < 8
        &&& self matches Move::Normal { from_file: Some(f), .. } ==> f < 8
    }

    /// Reads one token of algebraic notation, given as its characters.
    pub fn parse_chars(token: &Vec<char>) -> (found: Option<Move>)
        ensures
            found == parse_token(token@),
            found matches Some(m) ==> m.wf(),
    {
        let chars = strip(token);
        if is_king_castle(&chars) {
            Some(Move::KingCastle)
        } else if is_queen_castle(&chars) {
            Some(Move::QueenCastle)
        } else if chars.len() == 0 {
            None
        } else {
            match PieceType::from_letter(chars[0]) {
                Some(PieceType::Bishop) => bishop_move(&chars, PieceType::Bishop),
                Some(typ) => knight_move(&chars, typ),
                None => pawn_move(&chars),
            }
        }
    }

    /// Reads one token of algebraic notation. A token that is no move is
    /// handed back in the error.
    pub fn parse(s: &str) -> (res: Result<Move, ParseError>)
        ensures
            match res {
                Ok(m) => parse_token(s@) == Some(m) && m.wf(),
                Err(e) => parse_token(s@) is None && e.token@ == s@,
            },
    {
        let chars = chars_of(s);
        match Move::parse_chars(&chars) {
            Some(m) => Ok(m),
            None => Err(ParseError { token: s.to_owned() }),
        }
    }
}

impl Move {
    /// The move written out in algebraic notation. The file of origin of a
    /// pawn is left out, and no capture mark is written.
    pub fn to_string(&self) -> (text: String)
        requires
            self.wf(),
        ensures
            text@ == notation(*self),
    {
        match *self {
            Move::Normal { typ, from_rank, from_file, dest_rank, dest_file } => {
                let mut s = String::new();
                // skip pawn
                if !typ.is_pawn() {
                    s.push(typ.letter());
                    if let Some(n) = from_file {
                        s.push(File::index_letter(n));
                    }
                }
                if let Some(n) = from_rank {
                    s.push(digit(n + 1));
                }
                assert(s@ =~= origin_text(typ, from_rank, from_file));
                s.push(dest_file.letter());
                s.push(digit(dest_rank + 1));
                assert(s@ =~= notation(*self));
                s
            },
            Move::KingCastle => {
                proof {
                    reveal_strlit("O-O");
                }
                assert("O-O"@ =~= king_castle_text());
                "O-O".to_owned()
            },
            Move::QueenCastle => {
                proof {
                    reveal_strlit("O-O-O");
                }
                assert("O-O-O"@ =~= queen_castle_text());
                "O-O-O".to_owned()
            },
        }
    }
}

impl FromStr for Move {
    type Err = ParseError;

    fn from_str(s: &str) -> (res: Result<Self, Self::Err>)
        ensures
            match res {
                Ok(m) => parse_token(s@) == Some(m) && m.wf(),
                Err(e) => parse_token(s@) is None && e.token@ == s@,
            },
    {
        Move::parse(s)
    }
}

} // verus!
