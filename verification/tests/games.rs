use checkplus::board::file::File;
use checkplus::board::PieceType;
use checkplus::pgn::mov::Move;
use checkplus::pgn::mov::ParseError;
use checkplus::pgn::movetext_token;
use checkplus::pgn::parse_movetext;
use checkplus::pgn::parse_movetext_chars;
use checkplus::pgn::parse_tag;
use checkplus::pgn::strip_comments;
use checkplus::pgn::Game;
use checkplus::pgn::Pgn;
use checkplus::pgn::PgnError;
use checkplus::pgn::State;
use checkplus::pgn::Tags;

fn chars(s: &str) -> Vec<char> {
    s.chars().collect()
}

fn text(v: Vec<char>) -> String {
    v.into_iter().collect()
}

fn moves(tokens: &[&str]) -> Vec<Move> {
    tokens.iter().map(|t| Move::parse(t).unwrap()).collect()
}

fn lines(s: &str) -> Vec<String> {
    s.lines().map(String::from).collect()
}

#[test]
fn comments_and_variations_are_dropped() {
    assert_eq!(text(strip_comments(&chars("e4 {best by test} e5"))), "e4  e5");
    assert_eq!(text(strip_comments(&chars("e4 (d4 d5) e5"))), "e4  e5");
    assert_eq!(text(strip_comments(&chars("e4 (d4 {solid} d5) e5"))), "e4  e5");
    // neither nests
    assert_eq!(text(strip_comments(&chars("a {b {c} d} e"))), "a  d} e");
    assert_eq!(text(strip_comments(&chars("a (b (c) d) e"))), "a  d) e");
    // a brace opens a comment inside a comment too, and a paren does not
    assert_eq!(text(strip_comments(&chars("a {b ( c} d"))), "a  d");
    // what is never closed runs to the end
    assert_eq!(text(strip_comments(&chars("a {b c"))), "a ");
    assert_eq!(text(strip_comments(&chars("a (b c"))), "a ");
    assert_eq!(text(strip_comments(&chars("a } b ) c"))), "a } b ) c");
    assert_eq!(text(strip_comments(&chars(""))), "");
}

#[test]
fn movetext_gives_moves_and_result() {
    let (got, result) = parse_movetext(String::from("1. e4 e5 2. Nf3 Nc6 3. Bb5 a6 1-0")).unwrap();
    assert_eq!(got, moves(&["e4", "e5", "Nf3", "Nc6", "Bb5", "a6"]));
    assert_eq!(result, "1-0");
    let (got, result) =
        parse_movetext(String::from("1. e4 {king's pawn} c5 (1... e5 2. Nf3) 2. Nf3\t*  ")).unwrap();
    assert_eq!(got, moves(&["e4", "c5", "Nf3"]));
    assert_eq!(result, "*");
    // numbered words are passed over wherever they stand, a result among them
    let (got, result) = parse_movetext(String::from("1.e4 e5 1/2-1/2 2... Nf6 0-1")).unwrap();
    assert_eq!(got, moves(&["e5", "Nf6"]));
    assert_eq!(result, "0-1");
    // a numeric character outside ASCII numbers a word too
    let (got, _) = parse_movetext(String::from("\u{0663}. e4 *")).unwrap();
    assert_eq!(got, moves(&["e4"]));
    // the last word is the result, whatever it is
    let (got, result) = parse_movetext(String::from("e4 e5")).unwrap();
    assert_eq!(got, moves(&["e4"]));
    assert_eq!(result, "e5");
    let (got, result) = parse_movetext_chars(&chars("*")).unwrap();
    assert_eq!(got, Vec::new());
    assert_eq!(result, "*");
}

#[test]
fn movetext_errors() {
    assert_eq!(parse_movetext(String::new()), Err(PgnError::EmptyGame));
    assert_eq!(parse_movetext(String::from("  \n {nothing here} ")), Err(PgnError::EmptyGame));
    assert_eq!(
        parse_movetext(String::from("1. e4 e9 2. Zf3 1-0")),
        Err(PgnError::BadMove(ParseError { token: String::from("e9") }))
    );
    assert_eq!(
        parse_movetext(String::from("1. e4 Nbxd7 1-0")),
        Err(PgnError::BadMove(ParseError { token: String::from("Nbxd7") }))
    );
}

#[test]
fn one_word_of_movetext() {
    let nf3 = Move::Normal {
        typ: PieceType::Knight,
        from_rank: None,
        from_file: None,
        dest_rank: 2,
        dest_file: File::F,
    };
    assert_eq!(movetext_token(&chars("Nf3"), false), Ok(Some(nf3)));
    assert_eq!(movetext_token(&chars("Nf3"), true), Ok(None));
    assert_eq!(movetext_token(&chars("12."), true), Ok(None));
    assert_eq!(
        movetext_token(&chars("12."), false),
        Err(ParseError { token: String::from("12.") })
    );
}

#[test]
fn tag_lines() {
    assert_eq!(
        parse_tag(&chars("[Event \"F/S Return Match\"]")),
        Ok((String::from("Event"), String::from("\"F/S Return Match\"")))
    );
    assert_eq!(
        parse_tag(&chars("[White   \"Fischer,\tRobert J.\"  ]")),
        Ok((String::from("White"), String::from("\"Fischer, Robert J.\"")))
    );
    assert_eq!(parse_tag(&chars("[Round]")), Ok((String::from("Round"), String::new())));
    assert_eq!(parse_tag(&chars("[[a]] [b]")), Ok((String::from("a"), String::from("b"))));
    assert_eq!(parse_tag(&chars("[]")), Err(PgnError::EmptyTag));
    assert_eq!(parse_tag(&chars("[  ]")), Err(PgnError::EmptyTag));
}

#[test]
fn tags_hold_one_value_for_a_name() {
    let mut tags = Tags::new();
    assert_eq!(tags.get("White"), None);
    assert!(tags.pairs().is_empty());
    tags.insert(String::from("White"), String::from("a"));
    tags.insert(String::from("Black"), String::from("b"));
    assert_eq!(tags.get("White"), Some(&String::from("a")));
    assert_eq!(tags.get("Black"), Some(&String::from("b")));
    assert_eq!(tags.get("white"), None);
    tags.insert(String::from("White"), String::from("c"));
    assert_eq!(tags.get("White"), Some(&String::from("c")));
    assert_eq!(tags.get("Black"), Some(&String::from("b")));
    assert_eq!(
        tags.pairs(),
        &vec![
            (String::from("White"), String::from("c")),
            (String::from("Black"), String::from("b"))
        ]
    );
}

#[test]
fn tags_are_equal_whatever_the_order() {
    let mut first = Tags::new();
    first.insert(String::from("White"), String::from("a"));
    first.insert(String::from("Black"), String::from("b"));
    let mut second = Tags::new();
    second.insert(String::from("Black"), String::from("b"));
    assert_ne!(first, second);
    assert_ne!(second, first);
    second.insert(String::from("White"), String::from("x"));
    assert_ne!(first, second);
    second.insert(String::from("White"), String::from("a"));
    assert_eq!(first, second);
    assert_eq!(second, first);
    assert_ne!(first.pairs(), second.pairs());
    assert_eq!(Tags::new(), Tags::new());
    assert_ne!(first, Tags::new());
    assert_ne!(Tags::new(), first);
    // games and files go by the same equality
    let game = |tags: &Tags| Game { moves: Vec::new(), result: String::from("*"), tags: tags.clone() };
    assert_eq!(game(&first), game(&second));
    assert_eq!(Pgn { games: vec![game(&first)] }, Pgn { games: vec![game(&second)] });
    assert_ne!(game(&first), game(&Tags::new()));
}

#[test]
fn players_come_from_the_tags() {
    let mut game = Game { moves: Vec::new(), result: String::from("*"), tags: Tags::new() };
    assert_eq!(game.players(), (String::from("NN"), String::from("NN")));
    game.tags.insert(String::from("Black"), String::from("\"Spassky\""));
    assert_eq!(game.players(), (String::from("NN"), String::from("\"Spassky\"")));
    game.tags.insert(String::from("White"), String::from("\"Fischer\""));
    assert_eq!(game.players(), (String::from("\"Fischer\""), String::from("\"Spassky\"")));
}

#[test]
fn reader_states() {
    assert!(State::Tags.is_tags());
    assert!(!State::Tags.is_moves());
    assert!(State::Moves.is_moves());
    assert!(!State::Moves.is_tags());
}

#[test]
fn one_game_from_its_lines() {
    let file = "[Event \"Test\"]\n[White \"A\"]\n[Black \"B\"]\n\n1. e4 e5 2. Nf3\nNc6 1/2-1/2";
    let pgn = Pgn::from_lines(&lines(file)).unwrap();
    assert_eq!(pgn.games.len(), 1);
    let game = &pgn.games[0];
    assert_eq!(game.moves, moves(&["e4", "e5", "Nf3", "Nc6"]));
    assert_eq!(game.result, "1/2-1/2");
    assert_eq!(game.tags.get("Event"), Some(&String::from("\"Test\"")));
    assert_eq!(game.players(), (String::from("\"A\""), String::from("\"B\"")));
    assert_eq!(game.tags.pairs().len(), 3);
}

#[test]
fn several_games_from_their_lines() {
    let file = "[White \"A\"]\n\n1. e4 e5 1-0\n\n[White \"C\"]\n[Black \"D\"]\n\n1. d4 {queen's pawn}\nd5 0-1";
    let pgn = Pgn::from_lines(&lines(file)).unwrap();
    assert_eq!(pgn.games.len(), 2);
    assert_eq!(pgn.games[0].moves, moves(&["e4", "e5"]));
    assert_eq!(pgn.games[0].result, "1-0");
    assert_eq!(pgn.games[0].players(), (String::from("\"A\""), String::from("NN")));
    assert_eq!(pgn.games[1].moves, moves(&["d4", "d5"]));
    assert_eq!(pgn.games[1].result, "0-1");
    assert_eq!(pgn.games[1].players(), (String::from("\"C\""), String::from("\"D\"")));
    assert_eq!(pgn.games[1].tags.get("Event"), None);
}

#[test]
fn lines_without_tags_are_movetext() {
    let pgn = Pgn::from_lines(&lines("1. e4 e5\n2. Nf3 *")).unwrap();
    assert_eq!(pgn.games.len(), 1);
    assert_eq!(pgn.games[0].moves, moves(&["e4", "e5", "Nf3"]));
    assert_eq!(pgn.games[0].result, "*");
    assert!(pgn.games[0].tags.pairs().is_empty());
}

#[test]
fn faults_in_a_file() {
    assert_eq!(Pgn::from_lines(&Vec::new()), Err(PgnError::EmptyGame));
    // a blank line after the last game leaves an empty game behind
    assert_eq!(
        Pgn::from_lines(&lines("[White \"A\"]\n\n1. e4 1-0\n\n")),
        Err(PgnError::EmptyGame)
    );
    assert_eq!(Pgn::from_lines(&lines("[]\n\n1. e4 1-0")), Err(PgnError::EmptyTag));
    assert_eq!(
        Pgn::from_lines(&lines("[White \"A\"]\n\n1. e4 e5 2. Bx 1-0\n\n[White \"B\"]\n\n*")),
        Err(PgnError::BadMove(ParseError { token: String::from("Bx") }))
    );
    assert_eq!(
        Pgn::from_lines(&lines("1. e4 xx *")),
        Err(PgnError::BadMove(ParseError { token: String::from("xx") }))
    );
    assert_eq!(Pgn::default(), Pgn { games: Vec::new() });
}
