//! Playing a game through from the starting position, keeping the board
//! after every ply.

use vstd::prelude::*;

use crate::board::play::playable;
use crate::board::play::played;
use crate::board::play::played_all;
use crate::board::Board;
use crate::board::Color;
use crate::board::Position;
use crate::pgn::mov::Move;

verus! {

/// The side that plays at a ply: White plays the plies of even number.
pub open spec fn side_at(ply: int) -> Color {
    if ply % 2 == 0 {
        Color::White
    } else {
        Color::Black
    }
}

/// The moves of a game, each with the side that plays it.
pub open spec fn turns(moves: Seq<Move>) -> Seq<(Move, Color)> {
    Seq::new(moves.len(), |i: int| (moves[i], side_at(i)))
}

/// The position after the first `n` plies of a game.
pub open spec fn position_after(moves: Seq<Move>, n: int) -> Position {
    played_all(Position::initial(), turns(moves).take(n))
}

/// Whether the ply of a number can be played where the plies before it have
/// been: its destination lies on the board and some piece can make it.
pub open spec fn ply_goes(moves: Seq<Move>, n: int) -> bool {
    &&& moves[n].dest_on_board()
    &&& playable(position_after(moves, n), moves[n], side_at(n))
}

/// The error of a game that cannot be played through.
#[derive(Clone, Debug)]
pub struct Stuck {
    /// The number of the first ply that cannot be played, counted from zero.
    pub ply: usize,
    /// The boards up to that ply: the starting position, then the position
    /// after each ply that was played.
    pub boards: Vec<Board>,
}

/// The side that plays at a ply: White plays the plies of even number.
pub fn to_move(ply: usize) -> (c: Color)
    ensures
        c == side_at(ply as int),
{
    if ply % 2 == 0 {
        Color::White
    } else {
        Color::Black
    }
}

/// One more ply makes the position after it out of the position before it.
pub proof fn lemma_position_after_next(moves: Seq<Move>, n: int)
    requires
        0 <= n < moves.len(),
    ensures
        position_after(moves, n + 1) == played(position_after(moves, n), moves[n], side_at(n)),
{
    let t = turns(moves);
    assert(t.take(n + 1).drop_last() =~= t.take(n));
    assert(t.take(n + 1).last() == (moves[n], side_at(n)));
}

/// Plays a game through from the starting position, White first, and hands
/// back the boards: the starting position, then the position after each ply.
/// Where a ply cannot be played the game is given up at that ply, and the
/// boards up to it come back with the error.
pub fn replay(moves: &Vec<Move>) -> (r: Result<Vec<Board>, Stuck>)
    ensures
        match r {
            Ok(boards) => {
                &&& boards.len() == moves.len() + 1
                &&& forall|k: int|
                    0 <= k <= moves.len() ==> (#[trigger] boards[k])@ == position_after(moves@, k)
                &&& forall|k: int| 0 <= k < moves.len() ==> ply_goes(moves@, k)
            },
            Err(stuck) => {
                &&& stuck.ply < moves.len()
                &&& !ply_goes(moves@, stuck.ply as int)
                &&& forall|k: int| 0 <= k < stuck.ply ==> ply_goes(moves@, k)
                &&& stuck.boards.len() == stuck.ply + 1
                &&& forall|k: int|
                    0 <= k <= stuck.ply ==> (#[trigger] stuck.boards[k])@ == position_after(
                        moves@,
                        k,
                    )
            },
        },
{
    let mut board = Board::new();
    let mut boards: Vec<Board> = Vec::new();
    boards.push(board);
    assert(turns(moves@).take(0) =~= Seq::<(Move, Color)>::empty());
    for i in 0..moves.len()
        invariant
            board@ == position_after(moves@, i as int),
            board@.half_move_clock <= i,
            boards.len() == i + 1,
            forall|k: int| 0 <= k <= i ==> (#[trigger] boards[k])@ == position_after(moves@, k),
            forall|k: int| 0 <= k < i ==> ply_goes(moves@, k),
    {
        let m = moves[i];
        let on_board = match m {
            Move::Normal { dest_rank, .. } => dest_rank < 8,
            _ => true,
        };
        if !on_board {
            return Err(Stuck { ply: i, boards });
        }
        proof {
            lemma_position_after_next(moves@, i as int);
        }
        match board.make_move(&m, to_move(i)) {
            Ok(()) => {},
            Err(_) => {
                return Err(Stuck { ply: i, boards });
            },
        }
        boards.push(board);
    }
    Ok(boards)
}

} // verus!
