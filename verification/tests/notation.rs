use std::str::FromStr;

use checkplus::board::file::File;
use checkplus::board::PieceType;
use checkplus::pgn::mov::bishop_move;
use checkplus::pgn::mov::knight_move;
use checkplus::pgn::mov::pawn_dest;
use checkplus::pgn::mov::pawn_move;
use checkplus::pgn::mov::rank_from_digit;
use checkplus::pgn::mov::Move;
use checkplus::pgn::mov::ParseError;

fn normal(
    typ: PieceType,
    from_rank: Option<usize>,
    from_file: Option<usize>,
    dest_rank: usize,
    dest_file: File,
) -> Move {
    Move::Normal { typ, from_rank, from_file, dest_rank, dest_file }
}

fn refused(token: &str) {
    assert_eq!(Move::parse(token), Err(ParseError { token: token.to_owned() }), "{token}");
}

#[test]
fn piece_moves_of_three_characters() {
    assert_eq!(Move::parse("Nf3"), Ok(normal(PieceType::Knight, None, None, 2, File::F)));
    assert_eq!(Move::parse("Bb5"), Ok(normal(PieceType::Bishop, None, None, 4, File::B)));
    assert_eq!(Move::parse("Ra8"), Ok(normal(PieceType::Rook, None, None, 7, File::A)));
    assert_eq!(Move::parse("Qh1"), Ok(normal(PieceType::Queen, None, None, 0, File::H)));
    assert_eq!(Move::parse("Ke2"), Ok(normal(PieceType::King, None, None, 1, File::E)));
}

#[test]
fn piece_moves_of_four_characters() {
    assert_eq!(Move::parse("Nbd7"), Ok(normal(PieceType::Knight, None, Some(1), 6, File::D)));
    assert_eq!(Move::parse("N2f4"), Ok(normal(PieceType::Knight, Some(1), None, 3, File::F)));
    assert_eq!(Move::parse("R8a3"), Ok(normal(PieceType::Rook, Some(7), None, 2, File::A)));
    assert_eq!(Move::parse("Nxf4"), Ok(normal(PieceType::Knight, None, None, 3, File::F)));
    assert_eq!(Move::parse("Bxc6"), Ok(normal(PieceType::Bishop, None, None, 5, File::C)));
    refused("N?f4");
    refused("N0f4");
    refused("N9f4");
    refused("Nbd9");
    refused("Nbi7");
}

#[test]
fn piece_moves_of_five_characters() {
    assert_eq!(Move::parse("Qh4e1"), Ok(normal(PieceType::Queen, Some(3), Some(7), 0, File::E)));
    assert_eq!(Move::parse("Ba1h8"), Ok(normal(PieceType::Bishop, Some(0), Some(0), 7, File::H)));
    refused("Nbxd7");
    refused("Ng6f9");
    refused("N6gf4");
}

#[test]
fn pawn_moves() {
    assert_eq!(Move::parse("a1"), Ok(normal(PieceType::Pawn, None, Some(0), 0, File::A)));
    assert_eq!(Move::parse("h8"), Ok(normal(PieceType::Pawn, None, Some(7), 7, File::H)));
    assert_eq!(Move::parse("exf4"), Ok(normal(PieceType::Pawn, None, Some(4), 3, File::F)));
    assert_eq!(Move::parse("bxa8"), Ok(normal(PieceType::Pawn, None, Some(1), 7, File::A)));
    refused("e9");
    refused("e0");
    refused("i4");
    refused("4e");
    refused("e4f5");
    refused("ex4f");
    refused("1xf4");
    refused("e8=Q");
    refused("e");
    refused("exf");
    refused("Pe4");
}

#[test]
fn castling_tokens() {
    assert_eq!(Move::parse("O-O"), Ok(Move::KingCastle));
    assert_eq!(Move::parse("O-O-O"), Ok(Move::QueenCastle));
    assert_eq!(Move::parse("O-O+"), Ok(Move::KingCastle));
    assert_eq!(Move::parse("O-O-O#"), Ok(Move::QueenCastle));
    refused("O-O-");
    refused("0-0");
    refused("o-o");
    refused("O-O-O-O");
    refused("Of3");
}

#[test]
fn check_and_mate_marks_at_the_end_are_passed_over() {
    assert_eq!(Move::parse("Nf3+"), Move::parse("Nf3"));
    assert_eq!(Move::parse("Qh4#"), Move::parse("Qh4"));
    assert_eq!(Move::parse("e4+#"), Move::parse("e4"));
    assert_eq!(Move::parse("exf4++"), Move::parse("exf4"));
    // only at the end
    refused("+e4");
    refused("N+f3");
    refused("e+4");
}

#[test]
fn tokens_of_other_lengths_are_refused() {
    refused("");
    refused("+");
    refused("#+");
    refused("N");
    refused("Nf");
    refused("Ng6xf4");
    refused("Ng6f4e5");
    refused("hello");
    refused("é4");
}

#[test]
fn from_str_reads_as_parse_does() {
    assert_eq!(Move::from_str("Rfe1"), Move::parse("Rfe1"));
    assert_eq!("Kxe2".parse::<Move>(), Ok(normal(PieceType::King, None, None, 1, File::E)));
    assert_eq!(Move::from_str("zz"), Err(ParseError { token: String::from("zz") }));
    assert_eq!("Qd9".parse::<Move>(), Err(ParseError { token: String::from("Qd9") }));
}

#[test]
fn the_readers_of_the_parts() {
    assert_eq!(pawn_dest('e', '4'), Some((File::E, 3)));
    assert_eq!(pawn_dest('a', '1'), Some((File::A, 0)));
    assert_eq!(pawn_dest('h', '8'), Some((File::H, 7)));
    assert_eq!(pawn_dest('e', '9'), None);
    assert_eq!(pawn_dest('4', 'e'), None);
    for (i, c) in "12345678".chars().enumerate() {
        assert_eq!(rank_from_digit(c), Some(i));
    }
    assert_eq!(rank_from_digit('0'), None);
    assert_eq!(rank_from_digit('9'), None);
    assert_eq!(rank_from_digit('a'), None);
    let chars: Vec<char> = "Bxc6".chars().collect();
    assert_eq!(
        bishop_move(&chars, PieceType::Bishop),
        Some(normal(PieceType::Bishop, None, None, 5, File::C))
    );
    assert_eq!(knight_move(&chars, PieceType::Knight), Move::parse("Nxc6").ok());
    let chars: Vec<char> = "dxe5".chars().collect();
    assert_eq!(pawn_move(&chars), Some(normal(PieceType::Pawn, None, Some(3), 4, File::E)));
    let chars: Vec<char> = "Nf3".chars().collect();
    assert_eq!(Move::parse_chars(&chars), Move::parse("Nf3").ok());
    assert_eq!(pawn_move(&chars), None);
}

#[test]
fn moves_written_out() {
    for token in ["Nf3", "Nbd7", "Ng6f4", "O-O", "O-O-O", "Qh4", "Kd1", "Bc4"] {
        assert_eq!(Move::parse(token).unwrap().to_string(), token);
    }
    // the rank of origin alone follows the letter
    assert_eq!(Move::parse("N2f4").unwrap().to_string(), "N2f4");
    // a pawn shows its destination only, and captures show no mark
    assert_eq!(Move::parse("e4").unwrap().to_string(), "e4");
    assert_eq!(Move::parse("exf4").unwrap().to_string(), "f4");
    assert_eq!(Move::parse("Nxf4").unwrap().to_string(), "Nf4");
    assert_eq!(Move::parse("Qh4#").unwrap().to_string(), "Qh4");
}
