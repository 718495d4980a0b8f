use std::str::FromStr;

use checkplus::board::file::File;
use checkplus::board::PieceType::Knight;
use checkplus::board::PieceType::Pawn;
use checkplus::pgn::mov::Move;

#[test]
fn e4() {
    let got = Move::from_str("e4").unwrap();
    let want = Move::Normal {
        typ: Pawn,
        from_rank: None,
        from_file: Some(4),
        dest_rank: 3,
        dest_file: File::E,
    };
    assert_eq!(got, want);
}

#[test]
fn c5() {
    let got = Move::from_str("c5").unwrap();
    let want = Move::Normal {
        typ: Pawn,
        from_rank: None,
        from_file: Some(2),
        dest_rank: 4,
        dest_file: File::C,
    };
    assert_eq!(got, want);
}

#[test]
fn disambiguation() {
    let got = Move::from_str("Ng6f4").unwrap();
    let want = Move::Normal {
        typ: Knight,
        from_rank: Some(5),
        from_file: Some(6),
        dest_rank: 3,
        dest_file: File::F,
    };
    assert_eq!(got, want);
}
