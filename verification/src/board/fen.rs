//! Writing a position down as one line of text: the piece placement, the side
//! to move, the castling rights, the en-passant target and the two move
//! counters.

use vstd::prelude::*;

use super::file::File;
use super::piece::piece_letter;
use super::Board;
use super::Color;
use super::Piece;
use super::PieceType;
use super::Position;
use crate::text::chars_of;
use crate::text::decimal;
use crate::text::digit;
use crate::text::digit_char;
use crate::text::push_decimal;

verus! {

/// The count of empty squares that is still to be written, if any.
pub open spec fn run_text(run: nat) -> Seq<char> {
    if run == 0 {
        Seq::empty()
    } else {
        decimal(run)
    }
}

/// A stretch of squares in placement notation, after `run` empty squares
/// that have been counted and not yet written. A piece is its letter; a
/// stretch of empty squares is the count of them.
pub open spec fn encode_cells(cells: Seq<Piece>, run: nat) -> Seq<char>
    decreases cells.len(),
{
    if cells.len() == 0 {
        run_text(run)
    } else {
        match cells[0] {
            Piece::Empty => encode_cells(cells.drop_first(), run + 1),
            Piece::Occupied { typ, color } => run_text(run) + seq![piece_letter(typ, color)]
                + encode_cells(cells.drop_first(), 0),
        }
    }
}

/// The eight squares of a rank, the `a` file first.
pub open spec fn rank_cells(pos: Position, rank: int) -> Seq<Piece> {
    pos.squares.subrange(rank * 8, rank * 8 + 8)
}

/// One rank in placement notation.
pub open spec fn rank_text(pos: Position, rank: int) -> Seq<char> {
    encode_cells(rank_cells(pos, rank), 0)
}

/// The ranks from the eighth down to `low`, separated by `/`.
pub open spec fn ranks_down_to(pos: Position, low: int) -> Seq<char>
    decreases 7 - low,
{
    if low >= 7 {
        rank_text(pos, 7)
    } else {
        ranks_down_to(pos, low + 1) + seq!['/'] + rank_text(pos, low)
    }
}

/// The piece placement: all eight ranks, the eighth first.
pub open spec fn placement_text(pos: Position) -> Seq<char> {
    ranks_down_to(pos, 0)
}

/// The letter of the side to move at a ply: White moves at even plies.
pub open spec fn side_letter(ply: nat) -> char {
    if ply % 2 == 0 {
        'w'
    } else {
        'b'
    }
}

/// The castling letters of one side, in lower case whichever the side: `k`
/// if it may still castle on the king's side, then `q` if it may still
/// castle on the queen's side.
pub open spec fn side_castling_text(pos: Position, color: Color) -> Seq<char> {
    let kingside: Seq<char> = if pos.can_castle(color, true) {
        seq!['k']
    } else {
        Seq::empty()
    };
    let queenside: Seq<char> = if pos.can_castle(color, false) {
        seq!['q']
    } else {
        Seq::empty()
    };
    kingside + queenside
}

/// A castling letter in upper case. Any other character stays as it is.
pub open spec fn upper_letter(c: char) -> char {
    if c == 'k' {
        'K'
    } else if c == 'q' {
        'Q'
    } else {
        c
    }
}

/// Castling letters in upper case.
pub open spec fn upper_text(s: Seq<char>) -> Seq<char> {
    s.map_values(|c: char| upper_letter(c))
}

/// The castling field: White's letters in upper case, then Black's in lower
/// case, or `-` where no right is left.
pub open spec fn castling_text(pos: Position) -> Seq<char> {
    let letters = upper_text(side_castling_text(pos, Color::White)) + side_castling_text(
        pos,
        Color::Black,
    );
    if letters.len() == 0 {
        seq!['-']
    } else {
        letters
    }
}

/// The en-passant field: the name of the target square, or `-`.
pub open spec fn en_passant_text(pos: Position) -> Seq<char> {
    match pos.en_passant_target {
        Some(sq) => seq![File::ordinal_letter(sq.1), digit_char(sq.0 + 1)],
        None => seq!['-'],
    }
}

/// The whole line for a position at a ply: six fields with single spaces
/// between them. The last field is the number of the full move, which starts
/// at one and goes up after every two plies.
pub open spec fn fen_text(pos: Position, ply: nat) -> Seq<char> {
    placement_text(pos) + seq![' ', side_letter(ply), ' '] + castling_text(pos) + seq![' ']
        + en_passant_text(pos) + seq![' '] + decimal(pos.half_move_clock) + seq![' '] + decimal(
        ply / 2 + 1,
    )
}

/// The squares that one character of placement notation stands for: a run of
/// empty squares for a digit, one piece for a letter.
pub open spec fn squares_of_char(c: char) -> Seq<Piece> {
    if exists|typ: PieceType, color: Color| piece_letter(typ, color) == c {
        let (typ, color) = choose|typ: PieceType, color: Color| piece_letter(typ, color) == c;
        seq![Piece::Occupied { typ, color }]
    } else if exists|n: int| 1 <= n <= 9 && digit_char(n) == c {
        let n = choose|n: int| 1 <= n <= 9 && digit_char(n) == c;
        Seq::new(n as nat, |i: int| Piece::Empty)
    } else {
        Seq::empty()
    }
}

/// The squares that a text in placement notation stands for.
pub open spec fn squares_of_text(text: Seq<char>) -> Seq<Piece>
    decreases text.len(),
{
    if text.len() == 0 {
        Seq::empty()
    } else {
        squares_of_text(text.drop_last()) + squares_of_char(text.last())
    }
}

/// A letter stands for its piece and a digit for that many empty squares.
proof fn lemma_squares_of_char(typ: PieceType, color: Color, n: int)
    requires
        1 <= n <= 9,
    ensures
        squares_of_char(piece_letter(typ, color)) == seq![Piece::Occupied { typ, color }],
        squares_of_char(digit_char(n)) == Seq::new(n as nat, |i: int| Piece::Empty),
{
    let c = piece_letter(typ, color);
    let (t, k) = choose|t: PieceType, k: Color| piece_letter(t, k) == c;
    assert(t == typ && k == color);
    let d = digit_char(n);
    assert(forall|t: PieceType, k: Color| piece_letter(t, k) != d);
    let m = choose|m: int| 1 <= m <= 9 && digit_char(m) == d;
    assert(m == n);
}

/// The squares of two texts, one after the other, are the squares of the two
/// put together.
proof fn lemma_squares_of_text_add(a: Seq<char>, b: Seq<char>)
    ensures
        squares_of_text(a + b) == squares_of_text(a) + squares_of_text(b),
    decreases b.len(),
{
    if b.len() == 0 {
        assert(a + b =~= a);
        assert(squares_of_text(a) + squares_of_text(b) =~= squares_of_text(a));
    } else {
        assert((a + b).drop_last() =~= a + b.drop_last());
        lemma_squares_of_text_add(a, b.drop_last());
        assert(squares_of_text(a + b) =~= squares_of_text(a) + squares_of_text(b));
    }
}

/// The squares of a text of one character.
proof fn lemma_squares_of_one(c: char)
    ensures
        squares_of_text(seq![c]) == squares_of_char(c),
{
    assert(seq![c].drop_last() =~= Seq::<char>::empty());
    assert(squares_of_text(Seq::<char>::empty()) =~= Seq::<Piece>::empty());
    assert(seq![c].last() == c);
    assert(squares_of_text(seq![c]) =~= squares_of_char(c));
}

/// Placement notation loses nothing. A stretch of squares, written after a
/// run of empty squares that is still to be written, reads back as the run
/// followed by the stretch, as long as no run grows beyond nine.
pub proof fn lemma_placement_reads_back(cells: Seq<Piece>, run: nat)
    requires
        run + cells.len() <= 9,
    ensures
        squares_of_text(encode_cells(cells, run)) == Seq::new(run, |i: int| Piece::Empty) + cells,
    decreases cells.len(),
{
    let gap = Seq::new(run, |i: int| Piece::Empty);
    assert(squares_of_text(run_text(run)) == gap) by {
        if run == 0 {
            assert(gap =~= Seq::<Piece>::empty());
        } else {
            lemma_squares_of_char(PieceType::King, Color::White, run as int);
            lemma_squares_of_one(digit_char(run as int));
        }
    }
    if cells.len() == 0 {
        assert(gap + cells =~= gap);
    } else {
        let rest = cells.drop_first();
        match cells[0] {
            Piece::Empty => {
                lemma_placement_reads_back(rest, run + 1);
                assert(Seq::new(run + 1, |i: int| Piece::Empty) + rest =~= gap + cells);
            },
            Piece::Occupied { typ, color } => {
                lemma_placement_reads_back(rest, 0);
                lemma_squares_of_char(typ, color, 1);
                lemma_squares_of_one(piece_letter(typ, color));
                let letter = seq![piece_letter(typ, color)];
                lemma_squares_of_text_add(run_text(run), letter);
                lemma_squares_of_text_add(run_text(run) + letter, encode_cells(rest, 0));
                assert(gap + seq![cells[0]] + (Seq::new(0, |i: int| Piece::Empty) + rest) =~= gap
                    + cells);
            },
        }
    }
}

/// The text of a rank stands for exactly the eight squares of the rank.
pub proof fn lemma_rank_reads_back(pos: Position, rank: int)
    requires
        pos.wf(),
        0 <= rank < 8,
    ensures
        squares_of_text(rank_text(pos, rank)) == rank_cells(pos, rank),
{
    lemma_placement_reads_back(rank_cells(pos, rank), 0);
    assert(Seq::new(0, |i: int| Piece::Empty) + rank_cells(pos, rank) =~= rank_cells(pos, rank));
}

/// A castling letter in upper case. Any other character stays as it is.
fn upper(c: char) -> (u: char)
    ensures
        u == upper_letter(c),
{
    match c {
        'k' => 'K',
        'q' => 'Q',
        _ => c,
    }
}

/// Appends castling letters in upper case.
fn push_upper(out: &mut String, letters: &str)
    ensures
        final(out)@ == old(out)@ + upper_text(letters@),
{
    let chars = chars_of(letters);
    for i in 0..chars.len()
        invariant
            chars@ == letters@,
            out@ == old(out)@ + upper_text(chars@.take(i as int)),
    {
        out.push(upper(chars[i]));
        assert(upper_text(chars@.take(i + 1)) =~= upper_text(chars@.take(i as int)).push(
            upper_letter(chars@[i as int]),
        ));
    }
    assert(chars@.take(chars.len() as int) =~= chars@);
}

/// Writes the pending count of empty squares, if there is one.
fn flush_run(out: &mut String, run: usize)
    ensures
        final(out)@ == old(out)@ + run_text(run as nat),
{
    if run != 0 {
        push_decimal(out, run);
    }
}

impl Board {
    /// Appends one rank in placement notation.
    fn push_rank(&self, out: &mut String, rank: usize)
        requires
            rank < 8,
        ensures
            final(out)@ == old(out)@ + rank_text(self@, rank as int),
    {
        let ghost cells = rank_cells(self@, rank as int);
        let mut run: usize = 0;
        assert(cells.skip(0) =~= cells);
        for file in 0..8usize
            invariant
                rank < 8,
                run <= file,
                cells == rank_cells(self@, rank as int),
                out@ + encode_cells(cells.skip(file as int), run as nat) == old(out)@
                    + encode_cells(cells, 0),
        {
            let ghost rest = cells.skip(file as int);
            assert(rest.drop_first() =~= cells.skip(file + 1));
            assert(rest[0] == self@.at(rank as int, file as int));
            match self.read((rank, file)).to_char() {
                Some(c) => {
                    flush_run(out, run);
                    out.push(c);
                    run = 0;
                    assert(out@ + encode_cells(cells.skip(file + 1), 0) =~= old(out)@
                        + encode_cells(cells, 0));
                },
                None => {
                    run += 1;
                },
            }
        }
        flush_run(out, run);
        assert(cells.skip(8).len() == 0);
    }

    /// The castling letters of one side, in lower case for either side: `k`
    /// if the side may still castle kingside, then `q` if it may still castle
    /// queenside. The rights of the other side play no part.
    pub fn fen_castle_field(&self, col: Color) -> (field: &'static str)
        ensures
            field@ == side_castling_text(self@, col),
    {
        proof {
            reveal_strlit("kq");
            reveal_strlit("k");
            reveal_strlit("q");
            reveal_strlit("");
        }
        let (kingside, queenside) = match col {
            Color::White => (self.white_can_castle_kingside, self.white_can_castle_queenside),
            Color::Black => (self.black_can_castle_kingside, self.black_can_castle_queenside),
        };
        let field = match (kingside, queenside) {
            (true, true) => "kq",
            (true, false) => "k",
            (false, true) => "q",
            (false, false) => "",
        };
        assert(field@ =~= side_castling_text(self@, col));
        field
    }

    /// Appends the piece placement: the eight ranks, the eighth first.
    fn push_placement(&self, out: &mut String)
        ensures
            final(out)@ == old(out)@ + placement_text(self@),
    {
        self.push_rank(out, 7);
        let mut rank: usize = 7;
        while rank > 0
            invariant
                rank < 8,
                out@ == old(out)@ + ranks_down_to(self@, rank as int),
            decreases rank,
        {
            rank -= 1;
            out.push('/');
            self.push_rank(out, rank);
            assert(out@ =~= old(out)@ + ranks_down_to(self@, rank as int));
        }
    }

    /// Appends the castling field.
    fn push_castling(&self, out: &mut String)
        ensures
            final(out)@ == old(out)@ + castling_text(self@),
    {
        let white_castle = self.fen_castle_field(Color::White);
        let black_castle = self.fen_castle_field(Color::Black);
        if white_castle.unicode_len() == 0 && black_castle.unicode_len() == 0 {
            out.push('-');
        } else {
            push_upper(out, white_castle);
            out.append(black_castle);
        }
        assert(out@ =~= old(out)@ + castling_text(self@));
    }

    /// Appends the en-passant field.
    fn push_en_passant(&self, out: &mut String)
        ensures
            final(out)@ == old(out)@ + en_passant_text(self@),
    {
        match self.en_passant_target() {
            Some((rank, file)) => {
                out.push(File::index_letter(file));
                out.push(digit(rank + 1));
            },
            None => {
                out.push('-');
            },
        }
        assert(out@ =~= old(out)@ + en_passant_text(self@));
    }

    /// The position as one line of text, for the ply that is about to be
    /// played: `half_move` is the number of plies played so far.
    pub fn fen(&self, half_move: usize) -> (line: String)
        ensures
            line@ == fen_text(self@, half_move as nat),
    {
        let mut ret = String::new();
        self.push_placement(&mut ret);
        ret.push(' ');
        if half_move % 2 == 0 {
            ret.push('w');
        } else {
            ret.push('b');
        }
        ret.push(' ');
        let ghost head = placement_text(self@) + seq![' ', side_letter(half_move as nat), ' '];
        assert(ret@ =~= head);
        self.push_castling(&mut ret);
        ret.push(' ');
        self.push_en_passant(&mut ret);
        ret.push(' ');
        push_decimal(&mut ret, self.half_move_clock);
        ret.push(' ');
        push_decimal(&mut ret, half_move / 2 + 1);
        assert(ret@ =~= fen_text(self@, half_move as nat));
        ret
    }
}

} // verus!
