use chess_pgn::file::File;
use chess_pgn::game::{CastleType, Move, MoveResult, MoveType, Player};
use chess_pgn::piece::{PNGPiece, Piece};
use chess_pgn::rank::Rank;
use chess_pgn::san::{PNGMove, PNGMoveType, SanError, UnknownMoveTypeError};

#[test]
fn test() {
    let cases = [
        (
            "e4", // Pawn moves to e4
            Some(Move {
                piece: Piece::Pawn,
                turn: Player::White,
                move_type: MoveType::Move,
                origin: None,
                destination: Some((File::E, Rank::Four)),
                result: None,
            }),
        ),
        (
            "Re6", // Rook moves to e6
            Some(Move {
                piece: Piece::Rook,
                turn: Player::White,
                move_type: MoveType::Move,
                origin: None,
                destination: Some((File::E, Rank::Six)),
                result: None,
            }),
        ),
        (
            "exd5", // Pawn on the e file captures on d5
            Some(Move {
                piece: Piece::Pawn,
                turn: Player::White,
                move_type: MoveType::Capture,
                origin: Some((Some(File::E), None)),
                destination: Some((File::D, Rank::Five)),
                result: None,
            }),
        ),
        (
            "Rdf8", // Rook on the d file moves to f8
            Some(Move {
                piece: Piece::Rook,
                turn: Player::White,
                move_type: MoveType::Move,
                origin: Some((Some(File::D), None)),
                destination: Some((File::F, Rank::Eight)),
                result: None,
            }),
        ),
        (
            "exd6 e.p", // Pawn on the e file captures en passant and moves to d6
            Some(Move {
                piece: Piece::Pawn,
                turn: Player::White,
                move_type: MoveType::EnPassantCapture,
                origin: Some((Some(File::E), None)),
                destination: Some((File::D, Rank::Six)),
                result: None,
            }),
        ),
        (
            "O-O", // Castle kingside
            Some(Move {
                piece: Piece::King,
                turn: Player::White,
                move_type: MoveType::Castle(CastleType::Kingside),
                origin: None,
                destination: None,
                result: None,
            }),
        ),
        (
            "O-O-O", // Castle queenside
            Some(Move {
                piece: Piece::King,
                turn: Player::White,
                move_type: MoveType::Castle(CastleType::Queenside),
                origin: None,
                destination: None,
                result: None,
            }),
        ),
        (
            "Rxe1+", // Rook captures on e1 and gives check
            Some(Move {
                piece: Piece::Rook,
                turn: Player::White,
                move_type: MoveType::Capture,
                origin: None,
                destination: Some((File::E, Rank::One)),
                result: Some(MoveResult::Check),
            }),
        ),
        (
            "e8=Q", // Pawn moves to e8 and promotes to a queen
            Some(Move {
                piece: Piece::Pawn,
                turn: Player::White,
                move_type: MoveType::Promotion(Piece::Queen),
                origin: None,
                destination: Some((File::E, Rank::Eight)),
                result: None,
            }),
        ),
        (
            "Kxe4#", // King captures on e4 and mates
            Some(Move {
                piece: Piece::King,
                turn: Player::White,
                move_type: MoveType::Capture,
                origin: None,
                destination: Some((File::E, Rank::Four)),
                result: Some(MoveResult::Checkmate),
            }),
        ),
    ];
    for (notation, expected) in cases {
        let result = PNGMove::from_notation(notation, Player::White);
        assert_eq!(result, expected);
    }
}

fn pawn_to(file: File, rank: Rank, turn: Player) -> Move {
    Move {
        piece: Piece::Pawn,
        turn,
        origin: None,
        destination: Some((file, rank)),
        move_type: MoveType::Move,
        result: None,
    }
}

#[test]
fn pawn_move_has_no_letter() {
    assert_eq!(
        PNGMove::from_notation("e4", Player::White),
        Some(pawn_to(File::E, Rank::Four, Player::White))
    );
    assert_eq!(
        PNGMove::parse("e5", Player::Black),
        Ok(pawn_to(File::E, Rank::Five, Player::Black))
    );
    assert_eq!(
        PNGMove::parse("Pe4", Player::White),
        Ok(pawn_to(File::E, Rank::Four, Player::White))
    );
}

#[test]
fn file_hint_before_destination() {
    let m = PNGMove::from_notation("Rdf8", Player::White).unwrap();
    assert_eq!(m.piece, Piece::Rook);
    assert_eq!(m.turn, Player::White);
    assert_eq!(m.move_type, MoveType::Move);
    assert_eq!(m.origin, Some((Some(File::D), None)));
    assert_eq!(m.destination, Some((File::F, Rank::Eight)));
    assert_eq!(m.result, None);
}

#[test]
fn rank_hint_and_full_hint() {
    let m = PNGMove::from_notation("R1a3", Player::Black).unwrap();
    assert_eq!(m.origin, Some((None, Some(Rank::One))));
    assert_eq!(m.destination, Some((File::A, Rank::Three)));
    let q = PNGMove::from_notation("Qh4e1", Player::White).unwrap();
    assert_eq!(q.piece, Piece::Queen);
    assert_eq!(q.origin, Some((Some(File::H), Some(Rank::Four))));
    assert_eq!(q.destination, Some((File::E, Rank::One)));
    let n = PNGMove::from_notation("Nbxd7", Player::White).unwrap();
    assert_eq!(n.piece, Piece::Knight);
    assert_eq!(n.move_type, MoveType::Capture);
    assert_eq!(n.origin, Some((Some(File::B), None)));
}

#[test]
fn en_passant_suffix() {
    for token in ["exd6 e.p", "exd6 e.p.", "exd6e.p.", "exd6   e.p"] {
        let m = PNGMove::from_notation(token, Player::White).unwrap();
        assert_eq!(m.move_type, MoveType::EnPassantCapture);
        assert_eq!(m.destination, Some((File::D, Rank::Six)));
        assert_eq!(m.origin, Some((Some(File::E), None)));
        assert_eq!(m.piece, Piece::Pawn);
    }
    let checked = PNGMove::from_notation("exd6 e.p.+", Player::Black).unwrap();
    assert_eq!(checked.move_type, MoveType::EnPassantCapture);
    assert_eq!(checked.result, Some(MoveResult::Check));
}

#[test]
fn en_passant_suffix_needs_a_capture() {
    assert_eq!(PNGMove::parse("d6 e.p.", Player::White), Err(SanError::UnrecognizedToken));
}

#[test]
fn castles_have_no_squares() {
    let short = PNGMove::from_notation("O-O", Player::Black).unwrap();
    assert_eq!(short.move_type, MoveType::Castle(CastleType::Kingside));
    assert_eq!(short.piece, Piece::King);
    assert_eq!(short.destination, None);
    assert_eq!(short.origin, None);
    assert_eq!(short.turn, Player::Black);
    let long = PNGMove::from_notation("O-O-O", Player::White).unwrap();
    assert_eq!(long.move_type, MoveType::Castle(CastleType::Queenside));
    assert_eq!(long.destination, None);
}

#[test]
fn castle_with_check_or_mate() {
    let c = PNGMove::from_notation("O-O+", Player::White).unwrap();
    assert_eq!(c.move_type, MoveType::Castle(CastleType::Kingside));
    assert_eq!(c.result, Some(MoveResult::Check));
    let m = PNGMove::from_notation("O-O-O#", Player::White).unwrap();
    assert_eq!(m.move_type, MoveType::Castle(CastleType::Queenside));
    assert_eq!(m.result, Some(MoveResult::Checkmate));
}

#[test]
fn promotion() {
    let m = PNGMove::from_notation("e8=Q", Player::White).unwrap();
    assert_eq!(m.move_type, MoveType::Promotion(Piece::Queen));
    assert_eq!(m.destination, Some((File::E, Rank::Eight)));
    assert_eq!(m.piece, Piece::Pawn);
    for (token, piece) in
        [("a1=N", Piece::Knight), ("a1=B", Piece::Bishop), ("a1=R", Piece::Rook)]
    {
        let m = PNGMove::from_notation(token, Player::Black).unwrap();
        assert_eq!(m.move_type, MoveType::Promotion(piece));
        assert_eq!(m.destination, Some((File::A, Rank::One)));
    }
}

#[test]
fn promotion_that_captures_is_a_promotion() {
    let m = PNGMove::from_notation("exd8=Q+", Player::White).unwrap();
    assert_eq!(m.move_type, MoveType::Promotion(Piece::Queen));
    assert_eq!(m.origin, Some((Some(File::E), None)));
    assert_eq!(m.destination, Some((File::D, Rank::Eight)));
    assert_eq!(m.result, Some(MoveResult::Check));
}

#[test]
fn capture_with_mate() {
    let m = PNGMove::from_notation("Kxe4#", Player::White).unwrap();
    assert_eq!(m.move_type, MoveType::Capture);
    assert_eq!(m.result, Some(MoveResult::Checkmate));
    assert_eq!(m.destination, Some((File::E, Rank::Four)));
}

#[test]
fn missing_destination() {
    for token in ["Zz9", "", "e", "e9", "i4", "E4", "Rx", "+", "#", "e4?", "e8="] {
        assert_eq!(
            PNGMove::parse(token, Player::White),
            Err(SanError::MissingDestination),
            "{}",
            token
        );
        assert_eq!(PNGMove::from_notation(token, Player::White), None);
    }
}

#[test]
fn unknown_piece() {
    for token in ["Ze4", "Xxe4", "e8=K", "e8=P", "e8=q", "Ade4"] {
        assert_eq!(
            PNGMove::parse(token, Player::White),
            Err(SanError::UnknownPiece),
            "{}",
            token
        );
    }
}

#[test]
fn unrecognized_token() {
    for token in ["Rabc4", "R11e4", "Rd1de4", "9e4", "R?e4", "R-e4", "e4 e.p"] {
        assert_eq!(
            PNGMove::parse(token, Player::White),
            Err(SanError::UnrecognizedToken),
            "{}",
            token
        );
    }
}

#[test]
fn side_is_recorded() {
    assert_eq!(PNGMove::from_notation("Nf3", Player::White).unwrap().turn, Player::White);
    assert_eq!(PNGMove::from_notation("Nf3", Player::Black).unwrap().turn, Player::Black);
    assert_eq!(Player::White.other(), Player::Black);
    assert_eq!(Player::Black.other(), Player::White);
}

#[test]
fn from_chars_agrees_with_parse() {
    for token in ["e4", "Rdf8", "O-O", "Zz9", "exd6 e.p", "e8=Q", "Kxe4#"] {
        let chars: Vec<char> = token.chars().collect();
        assert_eq!(
            PNGMove::from_chars(&chars, Player::Black),
            PNGMove::parse(token, Player::Black)
        );
    }
}

#[test]
fn png_move_holds_its_move() {
    let m = PNGMove::from_notation("e4", Player::White).unwrap();
    assert_eq!(PNGMove(m).get(), m);
}

#[test]
fn piece_letters() {
    assert_eq!(PNGPiece::from_str("").unwrap().get(), Piece::Pawn);
    assert_eq!(PNGPiece::from_str("P").unwrap().get(), Piece::Pawn);
    assert_eq!(PNGPiece::from_str("N").unwrap().get(), Piece::Knight);
    assert_eq!(PNGPiece::from_str("B").unwrap().get(), Piece::Bishop);
    assert_eq!(PNGPiece::from_str("R").unwrap().get(), Piece::Rook);
    assert_eq!(PNGPiece::from_str("Q").unwrap().get(), Piece::Queen);
    assert_eq!(PNGPiece::from_str("K").unwrap().get(), Piece::King);
    assert_eq!(Piece::from_letter('K'), Some(Piece::King));
    assert_eq!(Piece::from_letter('k'), None);
}

#[test]
fn unknown_piece_letter_is_refused() {
    assert_eq!(PNGPiece::from_str("Z").unwrap_err(), "Unknown piece");
    assert_eq!(PNGPiece::from_str("n").unwrap_err(), "Unknown piece");
    assert_eq!(PNGPiece::from_str("NN").unwrap_err(), "Unknown piece");
}

#[test]
fn move_type_marks() {
    assert_eq!(
        PNGMoveType::from_str("O-O-O").unwrap().get(),
        MoveType::Castle(CastleType::Queenside)
    );
    assert_eq!(
        PNGMoveType::from_str("O-O").unwrap().get(),
        MoveType::Castle(CastleType::Kingside)
    );
    assert_eq!(PNGMoveType::from_str("x").unwrap().get(), MoveType::Capture);
    assert_eq!(PNGMoveType::from_str("=Q").unwrap().get(), MoveType::Promotion(Piece::Queen));
    assert_eq!(PNGMoveType::from_str("=N").unwrap().get(), MoveType::Promotion(Piece::Knight));
    assert_eq!(PNGMoveType::from_str("=B").unwrap().get(), MoveType::Promotion(Piece::Bishop));
    assert_eq!(PNGMoveType::from_str("=R").unwrap().get(), MoveType::Promotion(Piece::Rook));
    assert_eq!(PNGMoveType::from_str("=K").unwrap_err(), UnknownMoveTypeError);
    assert_eq!(PNGMoveType::from_str("").unwrap_err(), UnknownMoveTypeError);
    assert_eq!(PNGMoveType::from_str("o-o").unwrap_err(), UnknownMoveTypeError);
}
