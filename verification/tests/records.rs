use chess_pgn::file::File;
use chess_pgn::game::{CastleType, Game, GameResult, MoveResult, MoveType, Player};
use chess_pgn::movetext::{read_move_number, read_result_token};
use chess_pgn::pgn::{is_metadata, parse, parse_moves, parse_result, PNGParser, ParseError};
use chess_pgn::piece::Piece;
use chess_pgn::rank::Rank;
use chess_pgn::san::SanError;
use chess_pgn::tags::Tags;
use chess_pgn::text::{chars_of, split_tokens, text_of, trimmed};

const MATCH: &str = r#"[Event "F/S Return Match"]
[Site "Belgrade, Serbia JUG"]
[Date "1992.11.04"]
[Round "29"]
[White "Fischer, Robert J."]
[Black "Spassky, Boris V."]
[Result "1/2-1/2"]

1. e4 e5 2. Nf3 Nc6 3. Bb5 a6 {This opening is called the Ruy Lopez.}
4. Ba4 Nf6 5. O-O Be7 6. Re1 b5 7. Bb3 d6 8. c3 O-O 9. h3 Nb8 10. d4 Nbd7
11. c4 c6 12. cxb5 axb5 13. Nc3 Bb7 14. Bg5 b4 15. Nb1 h6 16. Bh4 c5 17. dxe5
Nxe4 18. Bxe7 Qxe7 19. exd6 Qf6 20. Nbd2 Nxd6 21. Nc4 Nxc4 22. Bxc4 Nb6
23. Ne5 Rae8 24. Bxf7+ Rxf7 25. Nxf7 Rxe1+ 26. Qxe1 Kxf7 27. Qe3 Qg5 28. Qxg5
hxg5 29. b3 Ke6 30. a3 Kd6 31. axb4 cxb4 32. Ra5 Nd5 33. f3 Bc8 34. Kf2 Bf5
35. Ra7 g6 36. Ra6+ Kc5 37. Ke1 Nf4 38. g3 Nxh3 39. Kd2 Kb5 40. Rd6 Kc5 41. Ra6
Nf2 42. g4 Bd3 43. Re6 1/2-1/2
"#;

#[test]
fn test_parse_moves() {
    let cases: [(&str, fn(usize) -> bool); 2] =
        [("", |n| n == 0), ("1. e4 e5", |n| n == 1)];
    for (input, assertion) in cases {
        let moves = parse_moves(input);
        assert!(assertion(moves.len()));
    }
    assert!(parse_moves("").is_empty());
    assert!(parse_moves("1. e4 e5").len() == 1);
}

#[test]
fn test_parse_outcome() {
    let cases = [
        ("1. e4 e5 2. Nf3 Nc6 3. Bb5 a6 4. a7 1/2-1/2", GameResult::Draw),
        ("1. e4 e5 2. Nf3 Nc6 3. Bb5 a6 4. a7 1-0", GameResult::WhiteWins),
        ("1. e4 e5 2. Nf3 Nc6 3. Bb5 a6 4. a7 0-1", GameResult::BlackWins),
        ("1-0", GameResult::WhiteWins),
        ("0-1", GameResult::BlackWins),
    ];
    for (game, expected) in cases {
        assert!(parse_result(game) == expected);
    }
}

#[test]
fn result_of_a_game_record() {
    assert_eq!(parse("1. e4 e5 2. Nf3 Nc6 3. Bb5 a6 1/2-1/2").unwrap().result, GameResult::Draw);
    assert_eq!(parse("1. e4 e5 2. Nf3 Nc6 1-0").unwrap().result, GameResult::WhiteWins);
    assert_eq!(parse("1. e4 e5 2. Nf3 Nc6 0-1").unwrap().result, GameResult::BlackWins);
    assert_eq!(parse("1. e4 e5 2. Nf3 Nc6").unwrap().result, GameResult::Unknown);
    assert_eq!(parse("1. e4 e5 2. Nf3 Nc6 *").unwrap().result, GameResult::Unknown);
    assert_eq!(parse("").unwrap().result, GameResult::Unknown);
}

#[test]
fn last_result_marker_decides() {
    assert_eq!(parse_result("1-0 0-1"), GameResult::BlackWins);
    assert_eq!(parse_result("0-1 1/2-1/2 1-0"), GameResult::WhiteWins);
    assert_eq!(parse_result("1-0 1/2-1/2"), GameResult::Draw);
    assert_eq!(parse_result("[Result \"1-0\"]\n\n1. e4 e5 0-1\n"), GameResult::BlackWins);
    assert_eq!(parse_result("[Result \"1-0\"]\n\n1. e4 e5 *\n"), GameResult::WhiteWins);
}

#[test]
fn half_a_draw_marker_is_no_marker() {
    assert_eq!(parse_result("1/2"), GameResult::Unknown);
    assert_eq!(parse_result("1/2-1/"), GameResult::Unknown);
    assert_eq!(parse_result("1. e4 e5 1/2"), GameResult::Unknown);
    assert_eq!(parse_result("1-"), GameResult::Unknown);
    assert_eq!(parse_result("0-0"), GameResult::Unknown);
}

#[test]
fn tag_line_gives_a_tag() {
    let game = parse("[Event \"F/S Return Match\"]\n").unwrap();
    assert_eq!(game.tags.get("Event").map(|v| v.as_str()), Some("F/S Return Match"));
    assert_eq!(game.tags.len(), 1);
    assert!(game.tags.contains_key("Event"));
    assert!(!game.tags.contains_key("Site"));
    assert_eq!(game.tags.get("Site"), None);
}

#[test]
fn tags_of_a_full_record() {
    let game = parse(MATCH).unwrap();
    assert_eq!(game.tags.len(), 7);
    assert_eq!(game.tags.get("Event").unwrap(), "F/S Return Match");
    assert_eq!(game.tags.get("Site").unwrap(), "Belgrade, Serbia JUG");
    assert_eq!(game.tags.get("Date").unwrap(), "1992.11.04");
    assert_eq!(game.tags.get("Round").unwrap(), "29");
    assert_eq!(game.tags.get("White").unwrap(), "Fischer, Robert J.");
    assert_eq!(game.tags.get("Black").unwrap(), "Spassky, Boris V.");
    assert_eq!(game.tags.get("Result").unwrap(), "1/2-1/2");
    let first = game.tags.entry(0);
    assert_eq!((first.0.as_str(), first.1.as_str()), ("Event", "F/S Return Match"));
}

#[test]
fn parses_a_full_game() {
    let game = parse(MATCH).unwrap();
    assert_eq!(game.result, GameResult::Draw);
    assert_eq!(game.moves.len(), 85);
    assert!(game.failures.is_empty());
    assert_eq!(game.moves[0].piece, Piece::Pawn);
    assert_eq!(game.moves[0].turn, Player::White);
    assert_eq!(game.moves[0].destination, Some((File::E, Rank::Four)));
    assert_eq!(game.moves[1].turn, Player::Black);
    assert_eq!(game.moves[1].destination, Some((File::E, Rank::Five)));
    assert_eq!(game.moves[8].move_type, MoveType::Castle(CastleType::Kingside));
    assert_eq!(game.moves[8].turn, Player::White);
    assert_eq!(game.moves[19].piece, Piece::Knight);
    assert_eq!(game.moves[19].origin, Some((Some(File::B), None)));
    assert_eq!(game.moves[46].result, Some(MoveResult::Check));
    assert_eq!(game.moves[46].move_type, MoveType::Capture);
    let last = game.moves[84];
    assert_eq!(last.piece, Piece::Rook);
    assert_eq!(last.turn, Player::White);
    assert_eq!(last.destination, Some((File::E, Rank::Six)));
    for (i, m) in game.moves.iter().enumerate() {
        let turn = if i % 2 == 0 { Player::White } else { Player::Black };
        assert_eq!(m.turn, turn);
    }
}

#[test]
fn parsing_twice_gives_equal_games() {
    let a = parse(MATCH).unwrap();
    let b = parse(MATCH).unwrap();
    assert_eq!(a.moves, b.moves);
    assert_eq!(a.result, b.result);
    assert_eq!(a.tags.len(), b.tags.len());
    for i in 0..a.tags.len() {
        assert_eq!(a.tags.entry(i), b.tags.entry(i));
    }
    assert_eq!(a.failures.len(), b.failures.len());
    let c = Game::from_string(MATCH).unwrap();
    let d = Game::from_string(MATCH).unwrap();
    assert_eq!(c.moves, d.moves);
    assert_eq!(c.moves, a.moves);
    assert_eq!(c.result, d.result);
    assert_eq!(c, d);
    assert_eq!(a, b);
    assert_eq!(parse("[Event]"), parse("[Event]"));
    assert_eq!(parse("1. e4 Zz9 2. d4 1-0"), parse("1. e4 Zz9 2. d4 1-0"));
    assert_ne!(parse("1. e4 e5"), parse("1. e4 e6"));
}

#[test]
fn bad_token_does_not_stop_the_reading() {
    let game = parse("1. e4 Zz9 2. Nf3 Nc6 3. Bb5 a6 1-0").unwrap();
    assert_eq!(game.moves.len(), 5);
    assert_eq!(game.moves[0].destination, Some((File::E, Rank::Four)));
    assert_eq!(game.moves[1].piece, Piece::Knight);
    assert_eq!(game.moves[1].turn, Player::White);
    assert_eq!(game.moves[2].piece, Piece::Knight);
    assert_eq!(game.moves[2].turn, Player::Black);
    assert_eq!(game.moves[4].destination, Some((File::A, Rank::Six)));
    assert_eq!(game.failures.len(), 1);
    assert_eq!(game.failures[0].number, 1);
    assert_eq!(game.failures[0].turn, Player::Black);
    assert_eq!(game.failures[0].token, "Zz9");
    assert_eq!(game.failures[0].error, SanError::MissingDestination);
    assert_eq!(game.result, GameResult::WhiteWins);
}

#[test]
fn each_failure_has_its_reason() {
    let game = parse("7. Ze4 R?e4 8. e9 e5").unwrap();
    assert_eq!(game.moves.len(), 1);
    assert_eq!(game.failures.len(), 3);
    assert_eq!(game.failures[0].error, SanError::UnknownPiece);
    assert_eq!(game.failures[0].number, 7);
    assert_eq!(game.failures[0].turn, Player::White);
    assert_eq!(game.failures[1].error, SanError::UnrecognizedToken);
    assert_eq!(game.failures[1].turn, Player::Black);
    assert_eq!(game.failures[1].token, "R?e4");
    assert_eq!(game.failures[2].error, SanError::MissingDestination);
    assert_eq!(game.failures[2].number, 8);
}

#[test]
fn tag_line_without_a_value_is_an_error() {
    assert_eq!(parse("[Event]").unwrap_err(), ParseError::MalformedTag { line: 1 });
    assert_eq!(
        parse("[Event \"a\"]\n\n[Site Belgrade]\n1. e4 e5").unwrap_err(),
        ParseError::MalformedTag { line: 3 }
    );
    assert_eq!(parse("[Event \"a]").unwrap_err(), ParseError::MalformedTag { line: 1 });
    assert_eq!(
        parse("1. e4 e5\r\n  [x]  \r\n[y]").unwrap_err(),
        ParseError::MalformedTag { line: 2 }
    );
    assert_eq!(
        Game::from_string("[Event]").unwrap_err(),
        ParseError::MalformedTag { line: 1 }
    );
    assert_eq!(chess_pgn::pgn::format("[]").unwrap_err(), ParseError::MalformedTag { line: 1 });
}

#[test]
fn later_tag_replaces_earlier_one() {
    let game = parse("[Event \"a\"]\n[Site \"s\"]\n[Event \"b\"]\n").unwrap();
    assert_eq!(game.tags.len(), 2);
    assert_eq!(game.tags.get("Event").unwrap(), "b");
    assert_eq!(game.tags.get("Site").unwrap(), "s");
}

#[test]
fn tag_name_and_value_are_cut_at_the_quotes() {
    let game = parse("   [  White   \"Fischer, Robert J.\" trailing \"x\" ]  \n").unwrap();
    assert_eq!(game.tags.get("White").unwrap(), "Fischer, Robert J.");
    let empty = parse("[\"\"]").unwrap();
    assert_eq!(empty.tags.get("").unwrap(), "");
}

#[test]
fn black_half_may_be_absent() {
    let records = parse_moves("1. e4 e5 2. Nf3");
    assert_eq!(records.len(), 2);
    assert_eq!(records[0].number, 1);
    assert_eq!(records[0].white, "e4");
    assert_eq!(records[0].black.as_deref(), Some("e5"));
    assert_eq!(records[1].number, 2);
    assert_eq!(records[1].white, "Nf3");
    assert_eq!(records[1].black, None);
    let game = parse("1. e4 e5 2. Nf3").unwrap();
    assert_eq!(game.moves.len(), 3);
    assert_eq!(game.moves[2].turn, Player::White);
}

#[test]
fn result_marker_is_no_half() {
    let records = parse_moves("42. g4 Bd3 43. Re6 1/2-1/2");
    assert_eq!(records.len(), 2);
    assert_eq!(records[1].number, 43);
    assert_eq!(records[1].white, "Re6");
    assert_eq!(records[1].black, None);
    assert!(parse_moves("1. 1-0").is_empty());
    assert!(parse_moves("1. *").is_empty());
    let after_white = parse_moves("1. e4 0-1");
    assert_eq!(after_white.len(), 1);
    assert_eq!(after_white[0].black, None);
}

#[test]
fn tokens_outside_groups_are_passed_over() {
    let records = parse_moves("junk 1. e4 e5 {a comment} 2. d4 d5 more");
    assert_eq!(records.len(), 2);
    assert_eq!(records[1].number, 2);
    assert_eq!(records[1].white, "d4");
    assert_eq!(records[1].black.as_deref(), Some("d5"));
    assert!(parse_moves("e4 e5").is_empty());
    assert!(parse_moves("1.").is_empty());
    let two = parse_moves("1. 2. e4");
    assert_eq!(two.len(), 1);
    assert_eq!(two[0].number, 2);
}

#[test]
fn move_numbers() {
    let n = |s: &str| read_move_number(&s.chars().collect::<Vec<char>>());
    assert_eq!(n("1."), Some(1));
    assert_eq!(n("43."), Some(43));
    assert_eq!(n("007."), Some(7));
    assert_eq!(n("65535."), Some(65535));
    assert_eq!(n("65536."), None);
    assert_eq!(n("99999999999999999999999."), None);
    assert_eq!(n("."), None);
    assert_eq!(n("1"), None);
    assert_eq!(n("1.."), None);
    assert_eq!(n("1a."), None);
    assert_eq!(n("e4"), None);
    assert_eq!(n(""), None);
    assert!(parse_moves("65536. e4 e5").is_empty());
    assert_eq!(parse_moves("65535. e4 e5")[0].number, 65535);
}

#[test]
fn result_tokens() {
    let r = |s: &str| read_result_token(&s.chars().collect::<Vec<char>>());
    assert_eq!(r("1-0"), Some(GameResult::WhiteWins));
    assert_eq!(r("0-1"), Some(GameResult::BlackWins));
    assert_eq!(r("1/2-1/2"), Some(GameResult::Draw));
    assert_eq!(r("*"), Some(GameResult::Unknown));
    assert_eq!(r("1/2"), None);
    assert_eq!(r("1-0 "), None);
    assert_eq!(r(""), None);
}

#[test]
fn move_text_is_joined_by_single_blanks() {
    let (moves, tags) = chess_pgn::pgn::format("[Event \"x\"]\n\n1. e4 e5\n   \n2. Nf3\r\nNc6 1-0\n").unwrap();
    assert_eq!(moves, "1. e4 e5 2. Nf3 Nc6 1-0");
    assert_eq!(tags.len(), 1);
    let (none, no_tags) = chess_pgn::pgn::format("").unwrap();
    assert_eq!(none, "");
    assert!(no_tags.is_empty());
    let (raw, _) = chess_pgn::pgn::format("  1. e4  e5  \n\n\n 2. d4").unwrap();
    assert_eq!(raw, "  1. e4  e5    2. d4");
    let (kept, _) = chess_pgn::pgn::format("a\rb").unwrap();
    assert_eq!(kept, "a\rb");
}

#[test]
fn moves_may_be_spread_over_lines() {
    let game = parse("1. e4\ne5 2.\nNf3 Nc6\n").unwrap();
    assert_eq!(game.moves.len(), 4);
    assert!(game.failures.is_empty());
}

#[test]
fn tag_lines_are_recognised() {
    assert!(is_metadata("[Event \"F/S Return Match\"]"));
    assert!(is_metadata("   [Event \"x\"]\t"));
    assert!(is_metadata("[]"));
    assert!(is_metadata("[Event]"));
    assert!(!is_metadata(""));
    assert!(!is_metadata("["));
    assert!(!is_metadata("1. e4 e5"));
    assert!(!is_metadata("1. e4 {[%clk 0:03:00]} e5"));
    assert!(!is_metadata("[Event \"x\"] trailing"));
}

#[test]
fn reader_that_holds_its_text() {
    let parser = PNGParser::from_str(MATCH);
    let game = parser.parse().unwrap();
    assert_eq!(game.moves.len(), 85);
    assert_eq!(game.result, GameResult::Draw);
    assert_eq!(game.tags.get("Round").unwrap(), "29");
    assert_eq!(parser.get_result(), GameResult::Draw);
    assert!(parser.is_metadata("[Site \"x\"]"));
    assert!(!parser.is_metadata("1. e4 e5"));
    assert!(parser.is_game_line("1. e4 e5 2. Nf3 Nc6"));
    assert!(parser.is_game_line("43. Re6 1/2-1/2"));
    assert!(!parser.is_game_line("[Site \"x\"]"));
    assert!(!parser.is_game_line(""));
    assert!(!parser.is_game_line("1/2-1/2"));
    let broken = PNGParser::from_str("[Site]");
    assert_eq!(broken.parse().unwrap_err(), ParseError::MalformedTag { line: 1 });
    assert_eq!(PNGParser::from_str("no marker").get_result(), GameResult::Unknown);
}

#[test]
fn tags_replace_and_keep_order() {
    let mut tags = Tags::new();
    assert!(tags.is_empty());
    tags.insert("White".to_string(), "a".to_string());
    tags.insert("Black".to_string(), "b".to_string());
    tags.insert("White".to_string(), "c".to_string());
    assert_eq!(tags.len(), 2);
    assert_eq!(tags.get("White").unwrap(), "c");
    assert_eq!(tags.get("Black").unwrap(), "b");
    assert_eq!(tags.get("white"), None);
    let first = tags.entry(0);
    assert_eq!((first.0.as_str(), first.1.as_str()), ("White", "c"));
    let second = tags.entry(1);
    assert_eq!((second.0.as_str(), second.1.as_str()), ("Black", "b"));
}

#[test]
fn texts_are_built_character_by_character() {
    let chars = chars_of("h\u{e9}llo w\u{f6}rld");
    assert_eq!(chars.len(), 11);
    assert_eq!(text_of(&chars, 0, 5), "h\u{e9}llo");
    assert_eq!(text_of(&chars, 6, 11), "w\u{f6}rld");
    assert_eq!(text_of(&chars, 3, 3), "");
    let padded = chars_of(" \t x y \r\n");
    assert_eq!(trimmed(&padded), ['x', ' ', 'y']);
    let tokens = split_tokens(&chars_of("  1. e4\te5\n\n2.   Nf3 "));
    let texts: Vec<String> = tokens.iter().map(|t| t.iter().collect()).collect();
    assert_eq!(texts, ["1.", "e4", "e5", "2.", "Nf3"]);
}
