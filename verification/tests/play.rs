use std::str::FromStr;

use checkplus::board::file::File;
use checkplus::board::play::NoLegalCandidate;
use checkplus::board::Board;
use checkplus::board::Color;
use checkplus::board::Coord;
use checkplus::board::Piece;
use checkplus::board::PieceType;
use checkplus::pgn::mov::Move;

fn man(typ: PieceType, color: Color) -> Piece {
    Piece::Occupied { typ, color }
}

fn cleared() -> Board {
    let mut board = Board::new();
    for rank in 0..8 {
        for file in 0..8 {
            board.write((rank, file), Piece::Empty);
        }
    }
    board
}

/// Plays the tokens in turn, White first, and returns the board.
fn replay(tokens: &[&str]) -> Board {
    let mut board = Board::new();
    let mut color = Color::White;
    for token in tokens {
        let m = Move::from_str(token).unwrap();
        assert_eq!(board.make_move(&m, color), Ok(()), "{token}");
        color = if color.is_white() { Color::Black } else { Color::White };
    }
    board
}

const SPANISH: [&str; 11] =
    ["e4", "e5", "Nf3", "Nc6", "Bb5", "a6", "Ba4", "Nf6", "O-O", "Be7", "Re1"];

#[test]
fn three_plies_give_three_position_lines() {
    let tokens = ["e4", "c5", "Nf3"];
    let want = [
        "rnbqkbnr/pppppppp/8/8/4P3/8/PPPP1PPP/RNBQKBNR b KQkq e3 0 1",
        "rnbqkbnr/pp1ppppp/8/2p5/4P3/8/PPPP1PPP/RNBQKBNR w KQkq c6 0 2",
        "rnbqkbnr/pp1ppppp/8/2p5/4P3/5N2/PPPP1PPP/RNBQKB1R b KQkq - 1 2",
    ];
    for n in 1..=3 {
        assert_eq!(replay(&tokens[..n]).fen(n), want[n - 1]);
    }
}

#[test]
fn en_passant_target_is_gone_after_the_next_ply() {
    let mut board = replay(&["e4"]);
    assert_eq!(board.en_passant_target(), Some(Coord::E3.square()));
    board.make_move(&Move::from_str("Nf6").unwrap(), Color::Black).unwrap();
    assert_eq!(board.en_passant_target(), None);
    assert_eq!(board.fen(2), "rnbqkb1r/pppppppp/5n2/8/4P3/8/PPPP1PPP/RNBQKBNR w KQkq - 1 2");
}

#[test]
fn spanish_opening_after_eleven_plies() {
    let board = replay(&SPANISH);
    assert_eq!(
        board.fen(11),
        "r1bqk2r/1pppbppp/p1n2n2/4p3/B3P3/5N2/PPPP1PPP/RNBQR1K1 b kq - 5 6"
    );
}

#[test]
fn castling_rights_never_come_back() {
    let wings = [
        (Color::White, true),
        (Color::White, false),
        (Color::Black, true),
        (Color::Black, false),
    ];
    let tokens = [
        "e4", "e5", "Nf3", "Nc6", "Bb5", "a6", "Ba4", "Nf6", "O-O", "Be7", "Re1", "Rb8", "c3",
        "Rg8", "d4", "Rh8", "Kf1", "Kf8", "Kg1", "Ke8", "Rf1", "Ra8",
    ];
    let mut board = Board::new();
    let mut held = wings.map(|(color, kingside)| board.can_castle(color, kingside));
    assert_eq!(held, [true; 4]);
    let mut color = Color::White;
    for token in tokens {
        board.make_move(&Move::from_str(token).unwrap(), color).unwrap();
        let now = wings.map(|(color, kingside)| board.can_castle(color, kingside));
        for i in 0..4 {
            assert!(held[i] || !now[i], "a right came back at {token}");
        }
        held = now;
        color = if color.is_white() { Color::Black } else { Color::White };
    }
    // king and both rooks of each side have moved, and some are home again
    assert_eq!(held, [false; 4]);
    assert_eq!(board.read(Coord::A8.square()), man(PieceType::Rook, Color::Black));
    assert_eq!(board.read(Coord::E8.square()), man(PieceType::King, Color::Black));
}

#[test]
fn castling_moves_king_and_rook_and_takes_the_rights() {
    let mut board = replay(&["e4", "e5", "Nf3", "Nc6", "Bb5", "a6", "Ba4", "Nf6"]);
    let clock = board.half_move_clock();
    assert_eq!(board.make_move(&Move::KingCastle, Color::White), Ok(()));
    assert_eq!(board.read(Coord::G1.square()), man(PieceType::King, Color::White));
    assert_eq!(board.read(Coord::F1.square()), man(PieceType::Rook, Color::White));
    assert_eq!(board.read(Coord::E1.square()), Piece::Empty);
    assert_eq!(board.read(Coord::H1.square()), Piece::Empty);
    assert!(!board.can_castle(Color::White, true));
    assert!(!board.can_castle(Color::White, false));
    assert!(board.can_castle(Color::Black, true));
    assert!(board.can_castle(Color::Black, false));
    assert_eq!(board.half_move_clock(), clock + 1);

    let mut board = Board::new();
    for sq in [Coord::B8, Coord::C8, Coord::D8] {
        board.write(sq.square(), Piece::Empty);
    }
    assert_eq!(board.make_move(&Move::QueenCastle, Color::Black), Ok(()));
    assert_eq!(board.read(Coord::C8.square()), man(PieceType::King, Color::Black));
    assert_eq!(board.read(Coord::D8.square()), man(PieceType::Rook, Color::Black));
    assert_eq!(board.read(Coord::A8.square()), Piece::Empty);
    assert_eq!(board.read(Coord::E8.square()), Piece::Empty);
    assert!(!board.can_castle(Color::Black, true));
    assert!(!board.can_castle(Color::Black, false));
    assert!(board.can_castle(Color::White, true));
    assert_eq!(board.half_move_clock(), 1);

    let mut board = Board::new();
    assert_eq!(board.make_move(&Move::from_str("O-O").unwrap(), Color::Black), Ok(()));
    assert_eq!(board.read(Coord::G8.square()), man(PieceType::King, Color::Black));
    assert_eq!(board.read(Coord::F8.square()), man(PieceType::Rook, Color::Black));
    let mut board = Board::new();
    assert_eq!(board.make_move(&Move::from_str("O-O-O").unwrap(), Color::White), Ok(()));
    assert_eq!(board.read(Coord::C1.square()), man(PieceType::King, Color::White));
    assert_eq!(board.read(Coord::D1.square()), man(PieceType::Rook, Color::White));
    assert_eq!(board.read(Coord::A1.square()), Piece::Empty);
}

#[test]
fn castling_field_is_a_dash_when_no_right_is_left() {
    let mut board = Board::new();
    board.make_move(&Move::KingCastle, Color::White).unwrap();
    assert_eq!(board.fen(1), "rnbqkbnr/pppppppp/8/8/8/8/PPPPPPPP/RNBQ1RK1 b kq - 1 1");
    board.make_move(&Move::QueenCastle, Color::Black).unwrap();
    assert_eq!(board.fen(2), "1nkr1bnr/pppppppp/8/8/8/8/PPPPPPPP/RNBQ1RK1 w - - 2 2");
}

#[test]
fn castling_field_lists_the_rights_that_are_left() {
    let rook = man(PieceType::Rook, Color::White);
    let mut board = Board::new();
    // the letters of a side are in lower case for either side
    assert_eq!(board.fen_castle_field(Color::White), "kq");
    assert_eq!(board.fen_castle_field(Color::Black), "kq");
    rook.can_move(&mut board, 0, 7, 0, 7);
    // the position line has White's in upper case
    assert!(board.fen(0).ends_with(" w Qkq - 0 1"));
    assert_eq!(board.fen_castle_field(Color::White), "q");
    assert_eq!(board.fen_castle_field(Color::Black), "kq");
    let rook = man(PieceType::Rook, Color::Black);
    rook.can_move(&mut board, 7, 0, 7, 0);
    assert!(board.fen(0).ends_with(" w Qk - 0 1"));
    assert_eq!(board.fen_castle_field(Color::White), "q");
    assert_eq!(board.fen_castle_field(Color::Black), "k");
    let mut board = Board::new();
    rook.can_move(&mut board, 7, 7, 7, 7);
    assert_eq!(board.fen_castle_field(Color::Black), "q");
    assert_eq!(board.fen_castle_field(Color::White), "kq");
    assert!(board.fen(0).ends_with(" w KQq - 0 1"));
    let rook = man(PieceType::Rook, Color::White);
    rook.can_move(&mut board, 0, 0, 0, 0);
    assert_eq!(board.fen_castle_field(Color::White), "k");
    assert!(board.fen(0).ends_with(" w Kq - 0 1"));
    let king = man(PieceType::King, Color::White);
    king.can_move(&mut board, 0, 4, 0, 4);
    assert_eq!(board.fen_castle_field(Color::White), "");
    assert_eq!(board.fen_castle_field(Color::Black), "q");
    assert!(board.fen(5).ends_with(" b q - 0 3"));
}

#[test]
fn full_disambiguation_picks_the_named_knight() {
    let knight = man(PieceType::Knight, Color::White);
    let m = Move::from_str("Ng6f4").unwrap();
    // knights on g6, h5, e2 and d3 can all reach f4; g6 is last but one in search order
    let mut board = cleared();
    for sq in [Coord::E2, Coord::D3, Coord::H5, Coord::G6, Coord::E6] {
        board.write(sq.square(), knight);
    }
    assert_eq!(board.make_move(&m, Color::White), Ok(()));
    assert_eq!(board.read(Coord::G6.square()), Piece::Empty);
    assert_eq!(board.read(Coord::F4.square()), knight);
    for sq in [Coord::E2, Coord::D3, Coord::H5, Coord::E6] {
        assert_eq!(board.read(sq.square()), knight);
    }
    // without a knight on g6 the move fails, whatever the other knights could do
    let mut board = cleared();
    for sq in [Coord::E2, Coord::D3, Coord::H5, Coord::E6] {
        board.write(sq.square(), knight);
    }
    let before = board.fen(0);
    assert_eq!(board.make_move(&m, Color::White), Err(NoLegalCandidate));
    assert_eq!(board.fen(0), before);
    // a black knight on g6 does not fit a move of White
    board.write(Coord::G6.square(), man(PieceType::Knight, Color::Black));
    assert_eq!(board.make_move(&m, Color::White), Err(NoLegalCandidate));
    assert_eq!(board.make_move(&m, Color::Black), Ok(()));
}

#[test]
fn partial_disambiguation_narrows_the_search() {
    let knight = man(PieceType::Knight, Color::White);
    let mut board = cleared();
    board.write(Coord::B1.square(), knight);
    board.write(Coord::F3.square(), knight);
    board.make_move(&Move::from_str("Nfd2").unwrap(), Color::White).unwrap();
    assert_eq!(board.read(Coord::B1.square()), knight);
    assert_eq!(board.read(Coord::F3.square()), Piece::Empty);
    assert_eq!(board.read(Coord::D2.square()), knight);

    let rook = man(PieceType::Rook, Color::Black);
    let mut board = cleared();
    board.write(Coord::A1.square(), rook);
    board.write(Coord::A5.square(), rook);
    board.make_move(&Move::from_str("R5a3").unwrap(), Color::Black).unwrap();
    assert_eq!(board.read(Coord::A1.square()), rook);
    assert_eq!(board.read(Coord::A5.square()), Piece::Empty);
    assert_eq!(board.read(Coord::A3.square()), rook);
}

#[test]
fn the_first_candidate_in_search_order_moves() {
    let knight = man(PieceType::Knight, Color::White);
    let mut board = cleared();
    // both can reach d2; b1 comes first: rank 0 before rank 2
    board.write(Coord::F3.square(), knight);
    board.write(Coord::B1.square(), knight);
    board.make_move(&Move::from_str("Nd2").unwrap(), Color::White).unwrap();
    assert_eq!(board.read(Coord::B1.square()), Piece::Empty);
    assert_eq!(board.read(Coord::F3.square()), knight);
    // within a rank the a file comes first
    let rook = man(PieceType::Rook, Color::White);
    let mut board = cleared();
    board.write(Coord::H1.square(), rook);
    board.write(Coord::A1.square(), rook);
    board.make_move(&Move::from_str("Rd1").unwrap(), Color::White).unwrap();
    assert_eq!(board.read(Coord::A1.square()), Piece::Empty);
    assert_eq!(board.read(Coord::H1.square()), rook);
    assert_eq!(board.read(Coord::D1.square()), rook);
}

#[test]
fn a_failed_candidate_leaves_no_trace() {
    let rook = man(PieceType::Rook, Color::White);
    let mut board = Board::new();
    // the rook on a1 is tried first and is hemmed in; the one on a3 moves
    board.write(Coord::A3.square(), rook);
    board.make_move(&Move::from_str("Rd3").unwrap(), Color::White).unwrap();
    assert_eq!(board.read(Coord::D3.square()), rook);
    assert_eq!(board.read(Coord::A1.square()), rook);
    assert!(board.can_castle(Color::White, false));
    assert!(board.can_castle(Color::White, true));
}

#[test]
fn a_move_that_no_piece_can_make_fails() {
    let mut board = Board::new();
    board.make_move(&Move::from_str("e4").unwrap(), Color::White).unwrap();
    let before = board.fen(1);
    // no bishop can get out yet
    assert_eq!(
        board.make_move(&Move::from_str("Bh6").unwrap(), Color::Black),
        Err(NoLegalCandidate)
    );
    // the en-passant target is gone, and nothing else has changed
    assert_eq!(board.en_passant_target(), None);
    assert_eq!(before, "rnbqkbnr/pppppppp/8/8/4P3/8/PPPP1PPP/RNBQKBNR b KQkq e3 0 1");
    assert_eq!(board.fen(1), "rnbqkbnr/pppppppp/8/8/4P3/8/PPPP1PPP/RNBQKBNR b KQkq - 0 1");
    // a descriptor that names an origin off the board fits no square
    let m = Move::Normal {
        typ: PieceType::Pawn,
        from_rank: Some(9),
        from_file: None,
        dest_rank: 2,
        dest_file: File::A,
    };
    assert_eq!(board.make_move(&m, Color::White), Err(NoLegalCandidate));
}

#[test]
fn clock_counts_quiet_plies_and_restarts_on_pawn_moves_and_captures() {
    let mut board = Board::new();
    let mut play = |token: &str, color: Color, clock: usize| {
        board.make_move(&Move::from_str(token).unwrap(), color).unwrap();
        assert_eq!(board.half_move_clock(), clock, "after {token}");
    };
    play("Nf3", Color::White, 1);
    play("Nc6", Color::Black, 2);
    play("Ne5", Color::White, 3);
    // a capture by a piece
    play("Nxe5", Color::Black, 0);
    play("Nc3", Color::White, 1);
    // a pawn move
    play("d6", Color::Black, 0);
    play("Nb1", Color::White, 1);
    play("O-O", Color::Black, 2);
}

#[test]
fn pawn_captures_change_file() {
    let mut board = replay(&["e4", "d5", "exd5"]);
    assert_eq!(board.read(Coord::D5.square()), man(PieceType::Pawn, Color::White));
    assert_eq!(board.read(Coord::E4.square()), Piece::Empty);
    assert_eq!(board.fen(3), "rnbqkbnr/ppp1pppp/8/3P4/8/8/PPPP1PPP/RNBQKBNR b KQkq - 0 2");
    board.make_move(&Move::from_str("Qxd5").unwrap(), Color::Black).unwrap();
    assert_eq!(board.fen(4), "rnb1kbnr/ppp1pppp/8/3q4/8/8/PPPP1PPP/RNBQKBNR w KQkq - 0 3");
}

#[test]
fn numbers_of_two_digits_are_written_out() {
    let tokens = [
        "Nf3", "Nf6", "Ng1", "Ng8", "Nf3", "Nf6", "Ng1", "Ng8", "Nf3", "Nf6", "Ng1", "Ng8", "Nf3",
    ];
    let board = replay(&tokens);
    assert_eq!(board.half_move_clock(), 13);
    assert_eq!(board.fen(13), "rnbqkbnr/pppppppp/8/8/8/5N2/PPPPPPPP/RNBQKB1R b KQkq - 13 7");
    assert_eq!(board.fen(50), "rnbqkbnr/pppppppp/8/8/8/5N2/PPPPPPPP/RNBQKB1R w KQkq - 13 26");
    assert_eq!(board.fen(199), "rnbqkbnr/pppppppp/8/8/8/5N2/PPPPPPPP/RNBQKB1R b KQkq - 13 100");
}

#[test]
fn empty_ranks_and_runs_are_counted() {
    let mut board = cleared();
    assert_eq!(board.fen(0), "8/8/8/8/8/8/8/8 w KQkq - 0 1");
    board.write(Coord::A8.square(), man(PieceType::King, Color::Black));
    board.write(Coord::H8.square(), man(PieceType::Rook, Color::Black));
    board.write(Coord::C4.square(), man(PieceType::Pawn, Color::White));
    board.write(Coord::D4.square(), man(PieceType::Pawn, Color::Black));
    board.write(Coord::H1.square(), man(PieceType::King, Color::White));
    assert_eq!(board.fen(0), "k6r/8/8/8/2Pp4/8/8/7K w KQkq - 0 1");
}

#[test]
fn diagram_shows_the_eighth_rank_first() {
    let board = Board::new();
    let want = "♜♞♝♛♚♝♞♜\n♟♟♟♟♟♟♟♟\n        \n        \n        \n        \n♙♙♙♙♙♙♙♙\n♖♘♗♕♔♗♘♖\n";
    assert_eq!(board.to_string(), want);
    assert_eq!(Piece::Empty.glyph(), ' ');
    assert_eq!(man(PieceType::Bishop, Color::Black).glyph(), '♝');
    assert_eq!(man(PieceType::Knight, Color::White).glyph(), '♘');
}
