//! What a square holds, and the movement rule of each kind of piece.

use vstd::prelude::*;

use super::Board;
use super::Color;
use super::PieceType;
use super::Position;

verus! {

/// The content of one square: a piece of some kind and side, or nothing.
#[derive(Clone, Copy, Debug, Eq, Hash, PartialEq, Structural)]
pub enum Piece {
    Occupied { typ: PieceType, color: Color },
    Empty,
}

impl Default for Piece {
    fn default() -> (p: Self)
        ensures
            p == Piece::Empty,
    {
        Piece::Empty
    }
}

/// The letter that stands for a piece in a position string: upper case for
/// White, lower case for Black.
pub open spec fn piece_letter(typ: PieceType, color: Color) -> char {
    match (typ, color) {
        (PieceType::King, Color::White) => 'K',
        (PieceType::Queen, Color::White) => 'Q',
        (PieceType::Rook, Color::White) => 'R',
        (PieceType::Bishop, Color::White) => 'B',
        (PieceType::Knight, Color::White) => 'N',
        (PieceType::Pawn, Color::White) => 'P',
        (PieceType::King, Color::Black) => 'k',
        (PieceType::Queen, Color::Black) => 'q',
        (PieceType::Rook, Color::Black) => 'r',
        (PieceType::Bishop, Color::Black) => 'b',
        (PieceType::Knight, Color::Black) => 'n',
        (PieceType::Pawn, Color::Black) => 'p',
    }
}

/// How far apart two coordinates are.
pub open spec fn distance(a: int, b: int) -> int {
    if a >= b {
        a - b
    } else {
        b - a
    }
}

/// The coordinate reached after `k` steps from `a` in the direction of `b`.
pub open spec fn toward(a: int, b: int, k: int) -> int {
    if b > a {
        a + k
    } else if b < a {
        a - k
    } else {
        a
    }
}

/// The number of steps from one square to another along a rank, a file or a
/// diagonal.
pub open spec fn span(from: (int, int), dest: (int, int)) -> int {
    if distance(from.0, dest.0) >= distance(from.1, dest.1) {
        distance(from.0, dest.0)
    } else {
        distance(from.1, dest.1)
    }
}

/// Every square strictly between `from` and `dest` is empty. The two squares
/// are meant to share a rank, a file or a diagonal.
pub open spec fn path_clear(pos: Position, from: (int, int), dest: (int, int)) -> bool {
    forall|k: int|
        0 < k < span(from, dest) ==> #[trigger] pos.at(
            toward(from.0, dest.0, k),
            toward(from.1, dest.1, k),
        ) is Empty
}

/// A king steps one square in any of the eight directions.
pub open spec fn king_rule(from: (int, int), dest: (int, int)) -> bool {
    &&& distance(from.0, dest.0) <= 1
    &&& distance(from.1, dest.1) <= 1
    &&& from != dest
}

/// A knight moves one square along one axis and two along the other.
pub open spec fn knight_rule(from: (int, int), dest: (int, int)) -> bool {
    ||| distance(from.0, dest.0) == 1 && distance(from.1, dest.1) == 2
    ||| distance(from.0, dest.0) == 2 && distance(from.1, dest.1) == 1
}

/// A rook moves along its rank or its file over empty squares.
pub open spec fn rook_rule(pos: Position, from: (int, int), dest: (int, int)) -> bool {
    &&& from.0 == dest.0 || from.1 == dest.1
    &&& path_clear(pos, from, dest)
}

/// A bishop moves at least one square along a diagonal over empty squares.
pub open spec fn bishop_rule(pos: Position, from: (int, int), dest: (int, int)) -> bool {
    &&& distance(from.0, dest.0) == distance(from.1, dest.1)
    &&& distance(from.0, dest.0) != 0
    &&& path_clear(pos, from, dest)
}

/// A queen moves as a rook or as a bishop.
pub open spec fn queen_rule(pos: Position, from: (int, int), dest: (int, int)) -> bool {
    rook_rule(pos, from, dest) || bishop_rule(pos, from, dest)
}

/// The change of rank when a pawn of a side advances one square.
pub open spec fn forward(color: Color) -> int {
    match color {
        Color::White => 1,
        Color::Black => -1,
    }
}

/// The rank on which the pawns of a side start.
pub open spec fn pawn_home_rank(color: Color) -> int {
    match color {
        Color::White => 1,
        Color::Black => 6,
    }
}

/// A pawn advances one rank, staying on its file or, to capture, changing to
/// a neighbouring one. Whether the destination is occupied is not checked.
pub open spec fn pawn_single_step(color: Color, from: (int, int), dest: (int, int)) -> bool {
    &&& dest.0 == from.0 + forward(color)
    &&& distance(from.1, dest.1) <= 1
}

/// A pawn on its home rank advances two ranks along its file. Whether the
/// squares ahead are occupied is not checked.
pub open spec fn pawn_double_step(color: Color, from: (int, int), dest: (int, int)) -> bool {
    &&& from.0 == pawn_home_rank(color)
    &&& dest.0 == from.0 + 2 * forward(color)
    &&& dest.1 == from.1
}

/// A pawn makes a single or a double step.
pub open spec fn pawn_rule(color: Color, from: (int, int), dest: (int, int)) -> bool {
    pawn_single_step(color, from, dest) || pawn_double_step(color, from, dest)
}

/// Whether a piece standing on `from` may move to `dest` by the movement rule
/// of its kind. Check is not looked at, nor whose piece stands on `dest`.
pub open spec fn legal(piece: Piece, pos: Position, from: (int, int), dest: (int, int)) -> bool {
    match piece {
        Piece::Empty => false,
        Piece::Occupied { typ, color } => match typ {
            PieceType::King => king_rule(from, dest),
            PieceType::Queen => queen_rule(pos, from, dest),
            PieceType::Rook => rook_rule(pos, from, dest),
            PieceType::Bishop => bishop_rule(pos, from, dest),
            PieceType::Knight => knight_rule(from, dest),
            PieceType::Pawn => pawn_rule(color, from, dest),
        },
    }
}

/// The castling wing that a square is the rook's home of, for a side:
/// `Some(true)` for the kingside corner, `Some(false)` for the queenside one.
pub open spec fn rook_home_wing(color: Color, sq: (int, int)) -> Option<bool> {
    let rank: int = match color {
        Color::White => 0,
        Color::Black => 7,
    };
    if sq == (rank, 7int) {
        Some(true)
    } else if sq == (rank, 0int) {
        Some(false)
    } else {
        None
    }
}

/// The position with the right revoked that goes with a rook leaving `from`.
pub open spec fn leave_corner(pos: Position, color: Color, from: (int, int)) -> Position {
    match rook_home_wing(color, from) {
        Some(kingside) => pos.revoke(color, kingside),
        None => pos,
    }
}

/// What asking a piece to move does to the state of the board, whether or not
/// the move is legal. The en-passant target goes. A king loses both castling
/// rights of its side. A rook, or a queen moving as one, that leaves a corner
/// of its side loses the right of that wing. A pawn that makes a double step
/// leaves the square it passed over as the new en-passant target.
pub open spec fn after_attempt(
    piece: Piece,
    pos: Position,
    from: (int, int),
    dest: (int, int),
) -> Position {
    let cleared = pos.without_en_passant();
    match piece {
        Piece::Empty => cleared,
        Piece::Occupied { typ, color } => match typ {
            PieceType::King => cleared.revoke(color, true).revoke(color, false),
            PieceType::Queen | PieceType::Rook => leave_corner(cleared, color, from),
            PieceType::Pawn => if pawn_double_step(color, from, dest) {
                Position {
                    en_passant_target: Some((from.0 + forward(color), from.1)),
                    ..cleared
                }
            } else {
                cleared
            },
            PieceType::Bishop | PieceType::Knight => cleared,
        },
    }
}

/// Whether a path is clear depends on the squares alone, not on the clock,
/// the en-passant target or the castling rights.
pub proof fn lemma_path_clear_by_squares(
    a: Position,
    b: Position,
    from: (int, int),
    dest: (int, int),
)
    requires
        a.squares == b.squares,
    ensures
        path_clear(a, from, dest) == path_clear(b, from, dest),
{
    if path_clear(a, from, dest) {
        assert forall|k: int| 0 < k < span(from, dest) implies #[trigger] b.at(
            toward(from.0, dest.0, k),
            toward(from.1, dest.1, k),
        ) is Empty by {
            assert(a.at(toward(from.0, dest.0, k), toward(from.1, dest.1, k)) is Empty);
        }
    }
    if path_clear(b, from, dest) {
        assert forall|k: int| 0 < k < span(from, dest) implies #[trigger] a.at(
            toward(from.0, dest.0, k),
            toward(from.1, dest.1, k),
        ) is Empty by {
            assert(b.at(toward(from.0, dest.0, k), toward(from.1, dest.1, k)) is Empty);
        }
    }
}

/// Whether `mid` lies strictly between `from` and `dest` on the rank or the
/// file that the two share.
pub open spec fn strictly_between(from: (int, int), dest: (int, int), mid: (int, int)) -> bool {
    ||| {
        &&& from.0 == dest.0
        &&& mid.0 == from.0
        &&& (from.1 < mid.1 < dest.1 || dest.1 < mid.1 < from.1)
    }
    ||| {
        &&& from.1 == dest.1
        &&& mid.1 == from.1
        &&& (from.0 < mid.0 < dest.0 || dest.0 < mid.0 < from.0)
    }
}

/// A rook cannot pass a piece. Whatever else the board holds, a rook may not
/// move to a destination on its rank or file while a square strictly between
/// the two is occupied.
pub proof fn lemma_rook_blocked(
    pos: Position,
    color: Color,
    from: (int, int),
    dest: (int, int),
    mid: (int, int),
)
    requires
        strictly_between(from, dest, mid),
        pos.at(mid.0, mid.1) is Occupied,
    ensures
        !legal(Piece::Occupied { typ: PieceType::Rook, color }, pos, from, dest),
{
    let k = if from.0 == dest.0 {
        distance(from.1, mid.1)
    } else {
        distance(from.0, mid.0)
    };
    assert(0 < k < span(from, dest));
    assert(pos.at(toward(from.0, dest.0, k), toward(from.1, dest.1, k)) == pos.at(mid.0, mid.1));
}

/// A rook may move exactly when origin and destination share a rank or a
/// file and no square strictly between them is occupied.
pub proof fn lemma_rook_rule(pos: Position, color: Color, from: (int, int), dest: (int, int))
    ensures
        legal(Piece::Occupied { typ: PieceType::Rook, color }, pos, from, dest) <==> {
            &&& from.0 == dest.0 || from.1 == dest.1
            &&& forall|r: int, f: int| #[trigger]
                strictly_between(from, dest, (r, f)) ==> pos.at(r, f) is Empty
        },
{
    if from.0 == dest.0 || from.1 == dest.1 {
        if forall|r: int, f: int| #[trigger]
            strictly_between(from, dest, (r, f)) ==> pos.at(r, f) is Empty {
            assert forall|k: int| 0 < k < span(from, dest) implies #[trigger] pos.at(
                toward(from.0, dest.0, k),
                toward(from.1, dest.1, k),
            ) is Empty by {
                assert(strictly_between(
                    from,
                    dest,
                    (toward(from.0, dest.0, k), toward(from.1, dest.1, k)),
                ));
            }
        }
        if path_clear(pos, from, dest) {
            assert forall|r: int, f: int| #[trigger]
                strictly_between(from, dest, (r, f)) implies pos.at(r, f) is Empty by {
                if pos.at(r, f) is Occupied {
                    lemma_rook_blocked(pos, color, from, dest, (r, f));
                }
            }
        }
    }
}

/// Asking a piece to move never gives a castling right back.
pub proof fn lemma_attempt_keeps_rights_down(
    piece: Piece,
    pos: Position,
    from: (int, int),
    dest: (int, int),
    side: Color,
    kingside: bool,
)
    ensures
        after_attempt(piece, pos, from, dest).can_castle(side, kingside) ==> pos.can_castle(
            side,
            kingside,
        ),
        after_attempt(piece, pos, from, dest).squares == pos.squares,
        after_attempt(piece, pos, from, dest).half_move_clock == pos.half_move_clock,
{
}

/// The distance between two coordinates of the board.
fn gap(a: usize, b: usize) -> (d: usize)
    ensures
        d == distance(a as int, b as int),
{
    if a >= b {
        a - b
    } else {
        b - a
    }
}

/// The coordinate `k` steps from `a` in the direction of `b`.
fn step_toward(a: usize, b: usize, k: usize) -> (c: usize)
    requires
        a != b ==> k <= distance(a as int, b as int),
    ensures
        c == toward(a as int, b as int, k as int),
{
    if b > a {
        a + k
    } else if b < a {
        a - k
    } else {
        a
    }
}

/// Walks from `from` to `dest` along a rank, a file or a diagonal and says
/// whether every square strictly between them is empty.
fn path_is_clear(board: &Board, from: (usize, usize), dest: (usize, usize)) -> (clear: bool)
    requires
        from.0 < 8,
        from.1 < 8,
        dest.0 < 8,
        dest.1 < 8,
        from.0 == dest.0 || from.1 == dest.1 || distance(from.0 as int, dest.0 as int)
            == distance(from.1 as int, dest.1 as int),
    ensures
        clear == path_clear(
            board@,
            (from.0 as int, from.1 as int),
            (dest.0 as int, dest.1 as int),
        ),
{
    let ghost f = (from.0 as int, from.1 as int);
    let ghost d = (dest.0 as int, dest.1 as int);
    let rank_gap = gap(from.0, dest.0);
    let file_gap = gap(from.1, dest.1);
    let steps = if rank_gap >= file_gap {
        rank_gap
    } else {
        file_gap
    };
    let mut k: usize = 1;
    while k < steps
        invariant
            1 <= k,
            steps == span(f, d),
            f == (from.0 as int, from.1 as int),
            d == (dest.0 as int, dest.1 as int),
            from.0 < 8,
            from.1 < 8,
            dest.0 < 8,
            dest.1 < 8,
            from.0 == dest.0 || from.1 == dest.1 || distance(f.0, d.0) == distance(f.1, d.1),
            forall|j: int|
                0 < j < k ==> #[trigger] board@.at(toward(f.0, d.0, j), toward(f.1, d.1, j))
                    is Empty,
        decreases steps - k,
    {
        let rank = step_toward(from.0, dest.0, k);
        let file = step_toward(from.1, dest.1, k);
        if board.read((rank, file)).is_some() {
            return false;
        }
        k += 1;
    }
    true
}

impl Piece {
    /// The letter of the piece on the square, if there is one.
    pub open spec fn spec_to_char(self) -> Option<char> {
        match self {
            Piece::Occupied { typ, color } => Some(piece_letter(typ, color)),
            Piece::Empty => None,
        }
    }

    /// Returns `true` if the square holds a piece.
    #[must_use]
    pub fn is_some(&self) -> (b: bool)
        ensures
            b == (*self is Occupied),
    {
        matches!(self, Piece::Occupied { .. })
    }

    /// The letter of the piece in a position string, or `None` for an empty
    /// square.
    #[verifier::when_used_as_spec(spec_to_char)]
    pub fn to_char(self) -> (r: Option<char>)
        ensures
            r == self.spec_to_char(),
    {
        match self {
            Piece::Occupied { typ, color } => {
                let c = match (typ, color) {
                    (PieceType::King, Color::White) => 'K',
                    (PieceType::Queen, Color::White) => 'Q',
                    (PieceType::Rook, Color::White) => 'R',
                    (PieceType::Bishop, Color::White) => 'B',
                    (PieceType::Knight, Color::White) => 'N',
                    (PieceType::Pawn, Color::White) => 'P',
                    (PieceType::King, Color::Black) => 'k',
                    (PieceType::Queen, Color::Black) => 'q',
                    (PieceType::Rook, Color::Black) => 'r',
                    (PieceType::Bishop, Color::Black) => 'b',
                    (PieceType::Knight, Color::Black) => 'n',
                    (PieceType::Pawn, Color::Black) => 'p',
                };
                Some(c)
            },
            Piece::Empty => None,
        }
    }

    /// Decides whether this piece, standing on the origin square, may move to
    /// the destination by the movement rule of its kind, and records on the
    /// board what the attempt entails. The board's en-passant target is
    /// cleared at entry; a king, and a rook or queen leaving a corner, lose
    /// castling rights even when the answer is `false`; a pawn's double step
    /// sets the new en-passant target.
    pub fn can_move(
        &self,
        board: &mut Board,
        from_rank: usize,
        from_file: usize,
        dest_rank: usize,
        dest_file: usize,
    ) -> (ok: bool)
        requires
            from_rank < 8,
            from_file < 8,
            dest_rank < 8,
            dest_file < 8,
        ensures
            ok == legal(
                *self,
                old(board)@,
                (from_rank as int, from_file as int),
                (dest_rank as int, dest_file as int),
            ),
            final(board)@ == after_attempt(
                *self,
                old(board)@,
                (from_rank as int, from_file as int),
                (dest_rank as int, dest_file as int),
            ),
    {
        let from = (from_rank, from_file);
        let dest = (dest_rank, dest_file);
        let ghost f = (from_rank as int, from_file as int);
        let ghost d = (dest_rank as int, dest_file as int);
        board.clear_en_passant();
        let (typ, color) = match *self {
            Piece::Occupied { typ, color } => (typ, color),
            Piece::Empty => {
                return false;
            },
        };
        let rank_gap = gap(from_rank, dest_rank);
        let file_gap = gap(from_file, dest_file);
        match typ {
            PieceType::King => {
                board.revoke(color, true);
                board.revoke(color, false);
                rank_gap <= 1 && file_gap <= 1 && (rank_gap != 0 || file_gap != 0)
            },
            PieceType::Knight => {
                (rank_gap == 1 && file_gap == 2) || (rank_gap == 2 && file_gap == 1)
            },
            PieceType::Rook => {
                board.leave_corner(color, from);
                proof {
                    lemma_path_clear_by_squares(old(board)@, board@, f, d);
                }
                (rank_gap == 0 || file_gap == 0) && path_is_clear(board, from, dest)
            },
            PieceType::Bishop => {
                proof {
                    lemma_path_clear_by_squares(old(board)@, board@, f, d);
                }
                rank_gap == file_gap && rank_gap != 0 && path_is_clear(board, from, dest)
            },
            PieceType::Queen => {
                board.leave_corner(color, from);
                proof {
                    lemma_path_clear_by_squares(old(board)@, board@, f, d);
                }
                if rank_gap == 0 || file_gap == 0 || rank_gap == file_gap {
                    path_is_clear(board, from, dest)
                } else {
                    false
                }
            },
            PieceType::Pawn => {
                let white = color.is_white();
                let double_step = file_gap == 0 && if white {
                    from_rank == 1 && dest_rank == 3
                } else {
                    from_rank == 6 && dest_rank == 4
                };
                if double_step {
                    let passed: usize = if white {
                        2
                    } else {
                        5
                    };
                    board.set_en_passant(passed, from_file);
                    true
                } else {
                    file_gap <= 1 && if white {
                        dest_rank == from_rank + 1
                    } else {
                        dest_rank + 1 == from_rank
                    }
                }
            },
        }
    }
}

} // verus!
