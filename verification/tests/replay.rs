use checkplus::board::Board;
use checkplus::board::Color;
use checkplus::board::Coord;
use checkplus::board::Piece;
use checkplus::board::PieceType;
use checkplus::board::file::File;
use checkplus::pgn::mov::Move;
use checkplus::replay::replay;
use checkplus::replay::to_move;

fn moves(tokens: &[&str]) -> Vec<Move> {
    tokens.iter().map(|t| Move::parse(t).unwrap()).collect()
}

#[test]
fn sides_take_turns() {
    assert_eq!(to_move(0), Color::White);
    assert_eq!(to_move(1), Color::Black);
    assert_eq!(to_move(2), Color::White);
    assert_eq!(to_move(85), Color::Black);
    assert_eq!(Color::White.other(), Color::Black);
    assert_eq!(Color::Black.other(), Color::White);
}

#[test]
fn replay_keeps_the_board_after_every_ply() {
    let game = moves(&["e4", "c5", "Nf3"]);
    let boards = replay(&game).unwrap();
    assert_eq!(boards.len(), 4);
    assert_eq!(boards[0], Board::new());
    let want = [
        "rnbqkbnr/pppppppp/8/8/8/8/PPPPPPPP/RNBQKBNR w KQkq - 0 1",
        "rnbqkbnr/pppppppp/8/8/4P3/8/PPPP1PPP/RNBQKBNR b KQkq e3 0 1",
        "rnbqkbnr/pp1ppppp/8/2p5/4P3/8/PPPP1PPP/RNBQKBNR w KQkq c6 0 2",
        "rnbqkbnr/pp1ppppp/8/2p5/4P3/5N2/PPPP1PPP/RNBQKB1R b KQkq - 1 2",
    ];
    for (ply, board) in boards.iter().enumerate() {
        assert_eq!(board.fen(ply), want[ply]);
    }
    // the same boards come from playing the moves one by one
    let mut board = Board::new();
    for (ply, m) in game.iter().enumerate() {
        board.make_move(m, to_move(ply)).unwrap();
        assert_eq!(board, boards[ply + 1]);
    }
    assert_eq!(replay(&Vec::new()).unwrap(), vec![Board::new()]);
}

#[test]
fn replay_gives_up_at_the_first_ply_that_cannot_be_played() {
    // no black bishop can move on the second ply
    let stuck = replay(&moves(&["e4", "Bh6", "Nf3"])).unwrap_err();
    assert_eq!(stuck.ply, 1);
    assert_eq!(stuck.boards.len(), 2);
    assert_eq!(stuck.boards[0], Board::new());
    assert_eq!(
        stuck.boards[1].fen(1),
        "rnbqkbnr/pppppppp/8/8/4P3/8/PPPP1PPP/RNBQKBNR b KQkq e3 0 1"
    );
    // it is Black's turn, so a white move has no mover either
    let stuck = replay(&moves(&["e4", "d4"])).unwrap_err();
    assert_eq!(stuck.ply, 1);
    // a destination off the board
    let off = Move::Normal {
        typ: PieceType::King,
        from_rank: None,
        from_file: None,
        dest_rank: 8,
        dest_file: File::E,
    };
    let stuck = replay(&vec![off]).unwrap_err();
    assert_eq!(stuck.ply, 0);
    assert_eq!(stuck.boards, vec![Board::new()]);
}

#[test]
fn castling_removes_the_en_passant_target() {
    let pawn = Piece::Occupied { typ: PieceType::Pawn, color: Color::Black };
    let mut board = Board::new();
    for sq in [Coord::F1, Coord::G1] {
        board.write(sq.square(), Piece::Empty);
    }
    assert!(pawn.can_move(&mut board, 6, 3, 4, 3));
    assert_eq!(board.en_passant_target(), Some(Coord::D6.square()));
    board.make_move(&Move::KingCastle, Color::White).unwrap();
    assert_eq!(board.en_passant_target(), None);
    assert_eq!(board.fen(9), "rnbqkbnr/pppppppp/8/8/8/8/PPPPPPPP/RNBQ1RK1 b kq - 1 5");
}
