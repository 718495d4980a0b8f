//! Playing a move: finding the piece that a move descriptor means and
//! carrying it to its destination.

use vstd::prelude::*;

use super::piece::after_attempt;
use super::piece::forward;
use super::piece::pawn_double_step;
use super::piece::rook_home_wing;
use super::piece::lemma_attempt_keeps_rights_down;
use super::piece::legal;
use super::piece::lemma_path_clear_by_squares;
use super::on_board;
use super::Board;
use super::Color;
use super::Piece;
use super::PieceType;
use super::Position;
use crate::pgn::mov::Move;

verus! {

/// The error of a move that no piece on the board can make.
#[derive(Clone, Copy, Debug, PartialEq, Eq)]
pub struct NoLegalCandidate;

/// The place of a square in the order in which the board is searched: rank 0
/// first, and within a rank the `a` file first.
pub open spec fn scan_index(sq: (int, int)) -> int {
    sq.0 * 8 + sq.1
}

/// The destination square of a normal move.
pub open spec fn destination(m: Move) -> (int, int) {
    match m {
        Move::Normal { dest_rank, dest_file, .. } => (dest_rank as int, dest_file.ordinal()),
        _ => (0, 0),
    }
}

/// Whether the square holds a piece of the kind and side that the move names,
/// on the rank and file that it names where it names them.
pub open spec fn fits(pos: Position, m: Move, color: Color, sq: (int, int)) -> bool {
    &&& m matches Move::Normal { typ, from_rank, from_file, .. }
    &&& pos.at(sq.0, sq.1) == (Piece::Occupied { typ, color })
    &&& from_rank matches Some(r) ==> r == sq.0
    &&& from_file matches Some(f) ==> f == sq.1
}

/// Whether the piece on the square fits the move and may legally make it.
pub open spec fn candidate(pos: Position, m: Move, color: Color, sq: (int, int)) -> bool {
    &&& on_board(sq.0, sq.1)
    &&& fits(pos, m, color, sq)
    &&& legal(pos.at(sq.0, sq.1), pos, sq, destination(m))
}

/// Whether the square is the first candidate in search order.
pub open spec fn is_mover(pos: Position, m: Move, color: Color, sq: (int, int)) -> bool {
    &&& candidate(pos, m, color, sq)
    &&& forall|r: int, f: int|
        on_board(r, f) && scan_index((r, f)) < scan_index(sq) ==> !#[trigger] candidate(
            pos,
            m,
            color,
            (r, f),
        )
}

/// The origin square that a normal move resolves to: the first candidate in
/// search order, or `None` where the board holds no candidate.
pub open spec fn mover(pos: Position, m: Move, color: Color) -> Option<(int, int)> {
    if exists|sq: (int, int)| is_mover(pos, m, color, sq) {
        Some(choose|sq: (int, int)| is_mover(pos, m, color, sq))
    } else {
        None
    }
}

/// The position after the piece on `from` has made its move to `dest`. The
/// state changes as the attempt entails; the clock returns to zero for a pawn
/// move or a capture and goes up by one otherwise.
pub open spec fn moved(pos: Position, from: (int, int), dest: (int, int)) -> Position {
    let piece = pos.at(from.0, from.1);
    let quiet = !(pos.at(dest.0, dest.1) is Occupied) && !(piece matches Piece::Occupied {
        typ: PieceType::Pawn,
        ..
    });
    let clock: nat = if quiet {
        pos.half_move_clock + 1
    } else {
        0
    };
    Position { half_move_clock: clock, ..after_attempt(piece, pos, from, dest).relocate(from, dest) }
}

/// The back rank of a side.
pub open spec fn back_rank_of(color: Color) -> int {
    match color {
        Color::White => 0,
        Color::Black => 7,
    }
}

/// The position after a side has castled. King and rook are carried to their
/// castled squares whatever stands where; the side loses both castling
/// rights, the en-passant target goes, and the clock goes up by one.
pub open spec fn castled(pos: Position, color: Color, kingside: bool) -> Position {
    let rank = back_rank_of(color);
    let king_to: int = if kingside { 6 } else { 2 };
    let rook_from: int = if kingside { 7 } else { 0 };
    let rook_to: int = if kingside { 5 } else { 3 };
    let placed = pos.relocate((rank, 4), (rank, king_to)).relocate(
        (rank, rook_from),
        (rank, rook_to),
    );
    Position {
        half_move_clock: pos.half_move_clock + 1,
        ..placed.without_en_passant().revoke(color, true).revoke(color, false)
    }
}

/// The position after a side has played a move. A normal move that no piece
/// can make leaves everything as it was, but for the en-passant target, which
/// any attempt removes.
pub open spec fn played(pos: Position, m: Move, color: Color) -> Position {
    match m {
        Move::KingCastle => castled(pos, color, true),
        Move::QueenCastle => castled(pos, color, false),
        Move::Normal { .. } => match mover(pos, m, color) {
            Some(from) => moved(pos, from, destination(m)),
            None => pos.without_en_passant(),
        },
    }
}

/// Whether a side can play a move on a position: castling always goes
/// through, a normal move needs a candidate.
pub open spec fn playable(pos: Position, m: Move, color: Color) -> bool {
    m is Normal ==> mover(pos, m, color) is Some
}

/// Two squares of the board with the same place in the search order are the
/// same square.
pub proof fn lemma_scan_index_injective(a: (int, int), b: (int, int))
    requires
        on_board(a.0, a.1),
        on_board(b.0, b.1),
        scan_index(a) == scan_index(b),
    ensures
        a == b,
{
}

/// A move has at most one first candidate, and `mover` names it.
pub proof fn lemma_mover_unique(pos: Position, m: Move, color: Color, sq: (int, int))
    requires
        is_mover(pos, m, color, sq),
    ensures
        mover(pos, m, color) == Some(sq),
{
    let other = choose|s: (int, int)| is_mover(pos, m, color, s);
    if scan_index(other) < scan_index(sq) {
        assert(!candidate(pos, m, color, (other.0, other.1)));
    } else if scan_index(sq) < scan_index(other) {
        assert(!candidate(pos, m, color, (sq.0, sq.1)));
    } else {
        lemma_scan_index_injective(sq, other);
    }
}

/// Where no square of the board is a candidate, the move resolves to nothing.
pub proof fn lemma_mover_none(pos: Position, m: Move, color: Color)
    requires
        forall|r: int, f: int| on_board(r, f) ==> !#[trigger] candidate(pos, m, color, (r, f)),
    ensures
        mover(pos, m, color) is None,
{
    if exists|sq: (int, int)| is_mover(pos, m, color, sq) {
        let sq = choose|sq: (int, int)| is_mover(pos, m, color, sq);
        assert(!candidate(pos, m, color, (sq.0, sq.1)));
    }
}

/// Whether a piece may move depends on the squares alone, not on the clock,
/// the en-passant target or the castling rights.
pub proof fn lemma_legal_by_squares(
    piece: Piece,
    a: Position,
    b: Position,
    from: (int, int),
    dest: (int, int),
)
    requires
        a.squares == b.squares,
    ensures
        legal(piece, a, from, dest) == legal(piece, b, from, dest),
{
    lemma_path_clear_by_squares(a, b, from, dest);
}

/// A move that names both the rank and the file of its origin resolves to
/// that square and to no other: to it where the piece there fits and may
/// legally move, whatever else stands on the board, and to nothing where it
/// does not.
pub proof fn lemma_full_disambiguation(pos: Position, m: Move, color: Color)
    requires
        m matches Move::Normal { from_rank: Some(_), from_file: Some(_), .. },
    ensures
        ({
            let named = (m->from_rank->0 as int, m->from_file->0 as int);
            mover(pos, m, color) == if candidate(pos, m, color, named) {
                Some(named)
            } else {
                None::<(int, int)>
            }
        }),
{
    let named = (m->from_rank->0 as int, m->from_file->0 as int);
    if candidate(pos, m, color, named) {
        assert forall|r: int, f: int|
            on_board(r, f) && scan_index((r, f)) < scan_index(named) implies !#[trigger] candidate(
            pos,
            m,
            color,
            (r, f),
        ) by {
            if candidate(pos, m, color, (r, f)) {
                assert((r, f) == named);
            }
        }
        lemma_mover_unique(pos, m, color, named);
    } else {
        assert forall|r: int, f: int| on_board(r, f) implies !#[trigger] candidate(
            pos,
            m,
            color,
            (r, f),
        ) by {
            if candidate(pos, m, color, (r, f)) {
                assert((r, f) == named);
            }
        }
        lemma_mover_none(pos, m, color);
    }
}

/// Which square a move resolves to depends on the squares alone, not on the
/// clock, the en-passant target or the castling rights.
pub proof fn lemma_mover_by_squares(a: Position, b: Position, m: Move, color: Color)
    requires
        a.squares == b.squares,
    ensures
        mover(a, m, color) == mover(b, m, color),
{
    assert forall|sq: (int, int)| candidate(a, m, color, sq) == candidate(b, m, color, sq) by {
        lemma_legal_by_squares(a.at(sq.0, sq.1), a, b, sq, destination(m));
    }
    if let Some(sq) = mover(a, m, color) {
        assert(is_mover(a, m, color, sq));
        assert(is_mover(b, m, color, sq));
        lemma_mover_unique(b, m, color, sq);
    } else if let Some(sq) = mover(b, m, color) {
        assert(is_mover(b, m, color, sq));
        assert(is_mover(a, m, color, sq));
        lemma_mover_unique(a, m, color, sq);
    }
}

/// An en-passant target lives for one ply. After a move there is a target
/// only where that very move was the double step of a pawn, and it is the
/// square that the pawn passed over; a target that was there before is gone.
pub proof fn lemma_en_passant_lives_one_ply(pos: Position, m: Move, color: Color)
    ensures
        played(pos, m, color) == played(pos.without_en_passant(), m, color),
        played(pos, m, color).en_passant_target matches Some(target) ==> {
            &&& mover(pos, m, color) matches Some(from)
            &&& pos.at(from.0, from.1) == (Piece::Occupied { typ: PieceType::Pawn, color })
            &&& pawn_double_step(color, from, destination(m))
            &&& target == (from.0 + forward(color), from.1)
        },
{
    lemma_mover_by_squares(pos, pos.without_en_passant(), m, color);
}

/// A playable move with its destination on the board leaves a well-formed
/// position well formed.
pub proof fn lemma_played_wf(pos: Position, m: Move, color: Color)
    requires
        pos.wf(),
        m.dest_on_board(),
    ensures
        played(pos, m, color).wf(),
{
    if let Some(from) = mover(pos, m, color) {
        assert(is_mover(pos, m, color, from));
        (m->dest_file).lemma_letter_roundtrip();
    }
}

/// The clock after a move, by the rule of the clock alone. Castling counts as
/// one more ply. A normal move that some piece can make starts the clock again
/// where it is a pawn's move or the destination is occupied, and counts as one
/// more ply otherwise. A move that no piece can make leaves the clock alone.
pub open spec fn clock_after(pos: Position, m: Move, color: Color) -> nat {
    match m {
        Move::Normal { typ, .. } => {
            let dest = destination(m);
            if mover(pos, m, color) is None {
                pos.half_move_clock
            } else if pos.at(dest.0, dest.1) is Occupied || typ == PieceType::Pawn {
                0
            } else {
                pos.half_move_clock + 1
            }
        },
        _ => pos.half_move_clock + 1,
    }
}

/// The clock goes by its rule: it starts again on a pawn's move or a capture
/// and goes up by one on any other move that is played.
pub proof fn lemma_clock_rule(pos: Position, m: Move, color: Color)
    ensures
        played(pos, m, color).half_move_clock == clock_after(pos, m, color),
{
    if let Some(from) = mover(pos, m, color) {
        assert(is_mover(pos, m, color, from));
        assert(fits(pos, m, color, from));
    }
}

/// The origin square that a move names by itself, where it gives both the
/// rank and the file.
pub open spec fn named_origin(m: Move) -> Option<(int, int)> {
    match m {
        Move::Normal { from_rank: Some(r), from_file: Some(f), .. } => Some((r as int, f as int)),
        _ => None,
    }
}

/// A move that is played carries one piece from its origin to its
/// destination and touches no other square: the destination holds what the
/// origin held, the origin is empty, and every other square is as before.
pub proof fn lemma_two_squares_change(pos: Position, m: Move, color: Color)
    requires
        pos.wf(),
        m.dest_on_board(),
        mover(pos, m, color) is Some,
    ensures
        ({
            let from = mover(pos, m, color)->0;
            let dest = destination(m);
            let after = played(pos, m, color);
            &&& on_board(from.0, from.1)
            &&& pos.at(from.0, from.1) == (Piece::Occupied { typ: m->typ, color })
            &&& after.squares == pos.relocate(from, dest).squares
            &&& after.at(dest.0, dest.1) == pos.at(from.0, from.1)
            &&& from != dest ==> after.at(from.0, from.1) is Empty
            &&& forall|r: int, f: int|
                on_board(r, f) && (r, f) != from && (r, f) != dest ==> #[trigger] after.at(r, f)
                    == pos.at(r, f)
        }),
{
    let from = mover(pos, m, color)->0;
    assert(is_mover(pos, m, color, from));
    assert(fits(pos, m, color, from));
    (m->dest_file).lemma_letter_roundtrip();
    lemma_attempt_keeps_rights_down(
        pos.at(from.0, from.1),
        pos,
        from,
        destination(m),
        color,
        true,
    );
}

/// What costs a side its castling rights. Castling costs both. A move of the
/// king costs both. A move of a rook from a corner of its side costs the
/// right of that wing.
pub proof fn lemma_rights_lost(pos: Position, m: Move, color: Color)
    ensures
        match m {
            Move::Normal { typ, .. } => match mover(pos, m, color) {
                Some(from) => {
                    &&& typ == PieceType::King ==> {
                        &&& !played(pos, m, color).can_castle(color, true)
                        &&& !played(pos, m, color).can_castle(color, false)
                    }
                    &&& typ == PieceType::Rook ==> match rook_home_wing(color, from) {
                        Some(kingside) => !played(pos, m, color).can_castle(color, kingside),
                        None => true,
                    }
                },
                None => true,
            },
            _ => {
                &&& !played(pos, m, color).can_castle(color, true)
                &&& !played(pos, m, color).can_castle(color, false)
            },
        },
{
    if let Some(from) = mover(pos, m, color) {
        assert(is_mover(pos, m, color, from));
        assert(fits(pos, m, color, from));
    }
}

/// Playing a move never gives a castling right back: a right that a side
/// holds afterwards it held before.
pub proof fn lemma_castling_rights_never_return(
    pos: Position,
    m: Move,
    color: Color,
    side: Color,
    kingside: bool,
)
    ensures
        played(pos, m, color).can_castle(side, kingside) ==> pos.can_castle(side, kingside),
{
    if let Some(from) = mover(pos, m, color) {
        lemma_attempt_keeps_rights_down(
            pos.at(from.0, from.1),
            pos,
            from,
            destination(m),
            side,
            kingside,
        );
    }
}

/// The position after a run of plies, each given as a move and the side that
/// plays it.
pub open spec fn played_all(pos: Position, plies: Seq<(Move, Color)>) -> Position
    decreases plies.len(),
{
    if plies.len() == 0 {
        pos
    } else {
        played(played_all(pos, plies.drop_last()), plies.last().0, plies.last().1)
    }
}

/// Once a castling right is lost it stays lost for the rest of the game: a
/// right that is held after a run of plies was held after every shorter run
/// of the same plies.
pub proof fn lemma_castling_rights_monotonic(
    pos: Position,
    plies: Seq<(Move, Color)>,
    earlier: int,
    side: Color,
    kingside: bool,
)
    requires
        0 <= earlier <= plies.len(),
    ensures
        played_all(pos, plies).can_castle(side, kingside) ==> played_all(
            pos,
            plies.take(earlier),
        ).can_castle(side, kingside),
    decreases plies.len(),
{
    if earlier == plies.len() {
        assert(plies.take(earlier) =~= plies);
    } else {
        let shorter = plies.drop_last();
        lemma_castling_rights_never_return(
            played_all(pos, shorter),
            plies.last().0,
            plies.last().1,
            side,
            kingside,
        );
        lemma_castling_rights_monotonic(pos, shorter, earlier, side, kingside);
        assert(shorter.take(earlier) =~= plies.take(earlier));
    }
}

/// The laws of playing a move, gathered for the use of `make_move`.
proof fn lemma_play_laws(pos: Position, m: Move, color: Color)
    requires
        pos.wf(),
        m.dest_on_board(),
    ensures
        played(pos, m, color).half_move_clock == clock_after(pos, m, color),
        forall|side: Color, kingside: bool| #[trigger]
            played(pos, m, color).can_castle(side, kingside) ==> pos.can_castle(side, kingside),
        named_origin(m) matches Some(named) ==> {
            &&& playable(pos, m, color) <==> candidate(pos, m, color, named)
            &&& playable(pos, m, color) ==> played(pos, m, color).squares == pos.relocate(
                named,
                destination(m),
            ).squares
        },
{
    lemma_clock_rule(pos, m, color);
    assert forall|side: Color, kingside: bool| #[trigger]
        played(pos, m, color).can_castle(side, kingside) implies pos.can_castle(
        side,
        kingside,
    ) by {
        lemma_castling_rights_never_return(pos, m, color, side, kingside);
    }
    if let Some(named) = named_origin(m) {
        lemma_full_disambiguation(pos, m, color);
        if mover(pos, m, color) is Some {
            lemma_two_squares_change(pos, m, color);
        }
    }
}

impl Board {
    /// Plays a move for a side.
    ///
    /// Castling carries king and rook of the side to their castled squares
    /// and always succeeds. A normal move searches the board, rank 0 first and
    /// within a rank the `a` file first, for the first piece of the named
    /// kind and side that fits what the move says of its origin and that may
    /// legally reach the destination, and moves it. A piece that is tried and
    /// cannot make the move leaves no trace on the board: only the attempt of
    /// the piece that moves counts. Where no piece can make the move, the
    /// move fails and only the en-passant target is touched.
    pub fn make_move(&mut self, m: &Move, c: Color) -> (res: Result<(), NoLegalCandidate>)
        requires
            m.dest_on_board(),
            old(self)@.half_move_clock < usize::MAX,
        ensures
            final(self)@ == played(old(self)@, *m, c),
            res is Ok <==> playable(old(self)@, *m, c),
            // the clock goes by its rule
            final(self)@.half_move_clock == clock_after(old(self)@, *m, c),
            // no castling right comes back
            forall|side: Color, kingside: bool| #[trigger]
                final(self)@.can_castle(side, kingside) ==> old(self)@.can_castle(side, kingside),
            // a move that names its origin in full is made from there or not at all
            named_origin(*m) matches Some(named) ==> {
                &&& res is Ok <==> candidate(old(self)@, *m, c, named)
                &&& res is Ok ==> final(self)@.squares == old(self)@.relocate(
                    named,
                    destination(*m),
                ).squares
            },
    {
        proof {
            self.lemma_view_wf();
            lemma_play_laws(self@, *m, c);
        }
        let back: usize = match c {
            Color::White => 0,
            Color::Black => 7,
        };
        match *m {
            Move::KingCastle => {
                self.swap((back, 4), (back, 6));
                self.swap((back, 7), (back, 5));
                self.clear_en_passant();
                self.revoke(c, true);
                self.revoke(c, false);
                self.tick(false);
                Ok(())
            },
            Move::QueenCastle => {
                self.swap((back, 4), (back, 2));
                self.swap((back, 0), (back, 3));
                self.clear_en_passant();
                self.revoke(c, true);
                self.revoke(c, false);
                self.tick(false);
                Ok(())
            },
            Move::Normal { typ, from_rank, from_file, dest_rank, dest_file } => {
                let dest = (dest_rank, dest_file.index());
                let ghost pos = old(self)@;
                let ghost d = destination(*m);
                for rank in 0..8usize
                    invariant
                        *self == *old(self),
                        pos == old(self)@,
                        pos.wf(),
                        pos.half_move_clock < usize::MAX,
                        *m == (Move::Normal { typ, from_rank, from_file, dest_rank, dest_file }),
                        dest == (dest_rank, dest_file.ordinal() as usize),
                        d == destination(*m),
                        dest_rank < 8,
                        forall|r: int, f: int|
                            0 <= r < rank && 0 <= f < 8 ==> !#[trigger] candidate(
                                pos,
                                *m,
                                c,
                                (r, f),
                            ),
                {
                    for file in 0..8usize
                        invariant
                            *self == *old(self),
                            pos == old(self)@,
                            pos.wf(),
                            pos.half_move_clock < usize::MAX,
                            rank < 8,
                            *m == (Move::Normal {
                                typ,
                                from_rank,
                                from_file,
                                dest_rank,
                                dest_file,
                            }),
                            dest == (dest_rank, dest_file.ordinal() as usize),
                            d == destination(*m),
                            dest_rank < 8,
                            forall|r: int, f: int|
                                0 <= r < rank && 0 <= f < 8 ==> !#[trigger] candidate(
                                    pos,
                                    *m,
                                    c,
                                    (r, f),
                                ),
                            forall|f: int|
                                0 <= f < file ==> !#[trigger] candidate(
                                    pos,
                                    *m,
                                    c,
                                    (rank as int, f),
                                ),
                    {
                        let p = self.read((rank, file));
                        let fitting = match p {
                            Piece::Occupied { typ: t, color } => {
                                t == typ && color == c && (match from_rank {
                                    Some(fr) => fr == rank,
                                    None => true,
                                }) && (match from_file {
                                    Some(ff) => ff == file,
                                    None => true,
                                })
                            },
                            Piece::Empty => false,
                        };
                        if fitting {
                            let mut probe = *self;
                            let ghost from = (rank as int, file as int);
                            if p.can_move(&mut probe, rank, file, dest.0, dest.1) {
                                let quiet = !self.read(dest).is_some() && !typ.is_pawn();
                                *self = probe;
                                self.tick(!quiet);
                                self.swap((rank, file), dest);
                                proof {
                                    assert(candidate(pos, *m, c, from));
                                    assert forall|r: int, f: int|
                                        on_board(r, f) && scan_index((r, f)) < scan_index(
                                            from,
                                        ) implies !#[trigger] candidate(pos, *m, c, (r, f)) by {
                                        if r < rank {
                                        } else {
                                            assert(r == rank && f < file);
                                        }
                                    }
                                    lemma_mover_unique(pos, *m, c, from);
                                    assert(self@ == moved(pos, from, d));
                                    lemma_play_laws(pos, *m, c);
                                }
                                return Ok(());
                            }
                        }
                    }
                }
                self.clear_en_passant();
                proof {
                    lemma_mover_none(pos, *m, c);
                }
                Err(NoLegalCandidate)
            },
        }
    }
}

} // verus!
