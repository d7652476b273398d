use chess_pgn::file::File;
use chess_pgn::game::{MoveType, Player};
use chess_pgn::pgn::{is_metadata, parse_moves, parse_result};
use chess_pgn::piece::PNGPiece;
use chess_pgn::rank::Rank;
use chess_pgn::san::PNGMove;
use chess_pgn::game::GameResult;
use regex::Regex;

/// Every text of up to `len` characters of the alphabet.
fn texts(alphabet: &[char], len: usize) -> Vec<String> {
    let mut all = vec![String::new()];
    let mut last = vec![String::new()];
    for _ in 0..len {
        let mut next = Vec::new();
        for t in &last {
            for c in alphabet {
                let mut s = t.clone();
                s.push(*c);
                next.push(s);
            }
        }
        all.extend(next.iter().cloned());
        last = next;
    }
    all
}

#[test]
fn plain_moves_are_the_ones_of_the_pattern() {
    let pattern = Regex::new("^([KQRBNP])?([a-h])([1-8])$").unwrap();
    let alphabet =
        ['K', 'Q', 'R', 'B', 'N', 'P', 'Z', 'a', 'e', 'h', 'i', '1', '4', '8', '9', 'x', 'O', '-'];
    let mut plain = 0;
    for text in texts(&alphabet, 3) {
        let read = PNGMove::from_notation(&text, Player::White).filter(|m| {
            m.move_type == MoveType::Move && m.origin.is_none() && m.result.is_none()
        });
        match pattern.captures(&text) {
            Some(found) => {
                let m = read.unwrap_or_else(|| panic!("`{}` is a plain move", text));
                let piece = found.get(1).map(|p| p.as_str()).unwrap_or("");
                assert_eq!(m.piece, PNGPiece::from_str(piece).unwrap().get(), "{}", text);
                let file = File::from_str(found.get(2).unwrap().as_str()).unwrap();
                let rank = Rank::from_str(found.get(3).unwrap().as_str()).unwrap();
                assert_eq!(m.destination, Some((file, rank)), "{}", text);
                plain += 1;
            }
            None => assert_eq!(read, None, "`{}` is no plain move", text),
        }
    }
    assert_eq!(plain, 7 * 3 * 3);
}

#[test]
fn tag_lines_hold_a_pair_of_brackets() {
    let pattern = Regex::new(r"\[(.*?)\]").unwrap();
    let alphabet = ['[', ']', '"', 'a', ' '];
    let mut tags = 0;
    for text in texts(&alphabet, 5) {
        if is_metadata(&text) {
            assert!(pattern.is_match(&text), "{}", text);
            tags += 1;
        }
    }
    assert!(tags > 0);
    assert!(pattern.is_match("1. e4 {[%clk 0:03:00]} e5"));
    assert!(!is_metadata("1. e4 {[%clk 0:03:00]} e5"));
}

#[test]
fn result_markers_are_found_by_the_pattern() {
    let pattern = Regex::new("1/2|1-0|0-1").unwrap();
    let alphabet = ['1', '0', '-', '/', '2', ' '];
    let mut decided = 0;
    for text in texts(&alphabet, 7) {
        let result = parse_result(&text);
        if result != GameResult::Unknown {
            assert!(pattern.is_match(&text), "{}", text);
            decided += 1;
        }
        let markers = pattern.find_iter(&text).count();
        if markers == 0 {
            assert_eq!(result, GameResult::Unknown, "{}", text);
        }
    }
    assert!(decided > 0);
    for (text, expected) in [
        ("1. e4 e5 1-0", GameResult::WhiteWins),
        ("1. e4 e5 0-1", GameResult::BlackWins),
        ("1. e4 e5 1/2-1/2", GameResult::Draw),
    ] {
        let found = match pattern.find(text).unwrap().as_str() {
            "1/2" => GameResult::Draw,
            "1-0" => GameResult::WhiteWins,
            "0-1" => GameResult::BlackWins,
            _ => GameResult::Unknown,
        };
        assert_eq!(found, expected);
        assert_eq!(parse_result(text), expected);
    }
}

#[test]
fn full_groups_are_the_ones_of_the_pattern() {
    let pattern = Regex::new(r"(\d+.\s+\S+\s+\S+)").unwrap();
    for text in [
        "",
        "1. e4 e5",
        "1. e4 e5 2. Nf3 Nc6",
        "1. e4 e5 2. Nf3 Nc6 3. Bb5 a6 4. Ba4 Nf6 5. O-O Be7",
        "10. d4 Nbd7\n11. c4 c6 12. cxb5 axb5",
        "1.   e4\te5   2.\nNf3\r\nNc6",
    ] {
        let records = parse_moves(text);
        let groups = pattern.captures_iter(text).collect::<Vec<_>>();
        assert_eq!(records.len(), groups.len(), "{}", text);
        for (record, group) in records.iter().zip(groups.iter()) {
            let parts = group[1].split_whitespace().collect::<Vec<&str>>();
            assert_eq!(format!("{}.", record.number), parts[0]);
            assert_eq!(record.white, parts[1]);
            assert_eq!(record.black.as_deref(), Some(parts[2]));
        }
    }
}
