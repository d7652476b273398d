//! Moves in Standard Algebraic Notation.
//!
//! A token such as `Rdf8`, `exd6 e.p.`, `O-O`, `e8=Q` or `Kxe4#` is read from
//! the right: first the mark of check or mate, then the promotion, then the
//! en passant suffix, then the square of arrival, and what is left in front
//! of it names the piece and gives a hint of the square of departure. The
//! spec function [`san_move`] is that grammar; [`PNGMove::from_chars`] is
//! verified to compute it.

use vstd::prelude::*;
use vstd::slice::slice_subrange;
use crate::file::{File, file_of_char};
use crate::game::{CastleType, Move, MoveResult, MoveType, Player};
use crate::piece::{Piece, piece_of_letter};
use crate::rank::{Rank, rank_of_char};
use crate::text::{chars_of, trim_end, trimmed_len};

verus! {

/// Why a token is not a move.
#[derive(PartialEq, Eq, Structural, Debug, Copy, Clone)]
pub enum SanError {
    /// The token does not end in the square of arrival.
    MissingDestination,
    /// The token names a piece, before its squares or after `=`, by a letter
    /// that is no piece's.
    UnknownPiece,
    /// The token is not a move for another reason.
    UnrecognizedToken,
}

/// The partial square of departure that a move's notation may give.
pub type Origin = Option<(Option<File>, Option<Rank>)>;

/// The text `O-O`.
pub open spec fn castle_short() -> Seq<char> {
    seq!['O', '-', 'O']
}

/// The text `O-O-O`.
pub open spec fn castle_long() -> Seq<char> {
    seq!['O', '-', 'O', '-', 'O']
}

/// What a mark of two characters or a castle says a move does: `O-O-O`,
/// `O-O`, `x`, or `=` with one of `Q N B R`.
pub open spec fn move_type_of_text(s: Seq<char>) -> Option<MoveType> {
    if s == castle_long() {
        Some(MoveType::Castle(CastleType::Queenside))
    } else if s == castle_short() {
        Some(MoveType::Castle(CastleType::Kingside))
    } else if s == seq!['x'] {
        Some(MoveType::Capture)
    } else if s == seq!['=', 'Q'] {
        Some(MoveType::Promotion(Piece::Queen))
    } else if s == seq!['=', 'N'] {
        Some(MoveType::Promotion(Piece::Knight))
    } else if s == seq!['=', 'B'] {
        Some(MoveType::Promotion(Piece::Bishop))
    } else if s == seq!['=', 'R'] {
        Some(MoveType::Promotion(Piece::Rook))
    } else {
        None
    }
}

/// The annotation that a trailing mark gives: `+` for check, `#` for mate.
pub open spec fn annotation_of(t: Seq<char>) -> Option<MoveResult> {
    if t.len() > 0 && t.last() == '+' {
        Some(MoveResult::Check)
    } else if t.len() > 0 && t.last() == '#' {
        Some(MoveResult::Checkmate)
    } else {
        None
    }
}

/// The token without its mark of check or mate.
pub open spec fn without_annotation(t: Seq<char>) -> Seq<char> {
    if annotation_of(t) is Some {
        t.drop_last()
    } else {
        t
    }
}

/// Whether the token ends in `=` and one more character.
pub open spec fn has_promotion(t: Seq<char>) -> bool {
    t.len() >= 2 && t[t.len() - 2] == '='
}

/// The token without its promotion suffix.
pub open spec fn without_promotion(t: Seq<char>) -> Seq<char> {
    if has_promotion(t) {
        t.take(t.len() - 2)
    } else {
        t
    }
}

/// The length of the en passant suffix that the token ends in: 4 for `e.p.`,
/// 3 for `e.p`, 0 where it ends in neither.
pub open spec fn en_passant_len(t: Seq<char>) -> int {
    let n = t.len() as int;
    if n >= 4 && t[n - 4] == 'e' && t[n - 3] == '.' && t[n - 2] == 'p' && t[n - 1] == '.' {
        4
    } else if n >= 3 && t[n - 3] == 'e' && t[n - 2] == '.' && t[n - 1] == 'p' {
        3
    } else {
        0
    }
}

/// The token without its en passant suffix and the white space before it.
pub open spec fn without_en_passant(t: Seq<char>) -> Seq<char> {
    if en_passant_len(t) > 0 {
        trim_end(t.take(t.len() - en_passant_len(t)))
    } else {
        t
    }
}

/// The file that a lower-case letter names. Upper-case letters name pieces
/// in notation, so they are no files here.
pub open spec fn san_file(c: char) -> Option<File> {
    if c == 'a' || c == 'b' || c == 'c' || c == 'd' || c == 'e' || c == 'f' || c == 'g' || c
        == 'h' {
        file_of_char(c)
    } else {
        None
    }
}

/// The square that the last two characters of a text name.
pub open spec fn destination_of(t: Seq<char>) -> Option<(File, Rank)> {
    if t.len() >= 2 {
        match (san_file(t[t.len() - 2]), rank_of_char(t[t.len() - 1])) {
            (Some(f), Some(r)) => Some((f, r)),
            _ => None,
        }
    } else {
        None
    }
}

/// Whether a character is an upper-case letter `A` to `Z`.
pub open spec fn upper(c: char) -> bool {
    'A' <= c && c <= 'Z'
}

/// The hint of the square of departure: nothing, a file, a rank, or a file
/// and a rank. Any other text is no hint.
pub open spec fn origin_of(h: Seq<char>) -> Result<Origin, SanError> {
    if h.len() == 0 {
        Ok(None)
    } else if h.len() == 1 {
        if san_file(h[0]) is Some {
            Ok(Some((san_file(h[0]), None)))
        } else if rank_of_char(h[0]) is Some {
            Ok(Some((None, rank_of_char(h[0]))))
        } else {
            Err(SanError::UnrecognizedToken)
        }
    } else if h.len() == 2 && san_file(h[0]) is Some && rank_of_char(h[1]) is Some {
        Ok(Some((san_file(h[0]), rank_of_char(h[1]))))
    } else {
        Err(SanError::UnrecognizedToken)
    }
}

/// The piece and the hint that stand in front of the square of arrival. A
/// piece's letter comes first; without one the piece is a pawn. An upper-case
/// letter that is no piece's is refused.
pub open spec fn mover_of(p: Seq<char>) -> Result<(Piece, Origin), SanError> {
    if p.len() > 0 && piece_of_letter(p[0]) is Some {
        match origin_of(p.skip(1)) {
            Ok(o) => Ok((piece_of_letter(p[0])->0, o)),
            Err(e) => Err(e),
        }
    } else if p.len() > 0 && upper(p[0]) {
        Err(SanError::UnknownPiece)
    } else {
        match origin_of(p) {
            Ok(o) => Ok((Piece::Pawn, o)),
            Err(e) => Err(e),
        }
    }
}

/// What is left of the token once the mark of check or mate and the
/// promotion suffix are gone: the en passant suffix, if any, the square of
/// arrival, an `x` in front of it for a capture, and the piece with its hint.
/// The kind is a promotion if `promoted` says so, else what the `x` and the
/// en passant suffix say.
pub open spec fn plain_move(
    core: Seq<char>,
    turn: Player,
    promoted: Option<Piece>,
    result: Option<MoveResult>,
) -> Result<Move, SanError> {
    let en_passant = en_passant_len(core) > 0;
    let rest = without_en_passant(core);
    match destination_of(rest) {
        None => Err(SanError::MissingDestination),
        Some(dest) => {
            let front = rest.take(rest.len() - 2);
            let capture = front.len() > 0 && front.last() == 'x';
            let hint = if capture {
                front.drop_last()
            } else {
                front
            };
            if en_passant && !capture {
                Err(SanError::UnrecognizedToken)
            } else {
                match mover_of(hint) {
                    Err(e) => Err(e),
                    Ok((piece, origin)) => Ok(
                        Move {
                            piece: piece,
                            turn: turn,
                            origin: origin,
                            destination: Some(dest),
                            move_type: match promoted {
                                Some(p) => MoveType::Promotion(p),
                                None => if en_passant {
                                    MoveType::EnPassantCapture
                                } else if capture {
                                    MoveType::Capture
                                } else {
                                    MoveType::Move
                                },
                            },
                            result: result,
                        },
                    ),
                }
            }
        },
    }
}

/// The move that a token states for the side `turn`, or why it is none.
///
/// The mark of check or mate is taken off first and goes with any kind of
/// move. A castle names the king and no square. The promotion suffix must
/// name one of `Q N B R`; a promotion that captures is a promotion.
pub open spec fn san_move(t: Seq<char>, turn: Player) -> Result<Move, SanError> {
    let result = annotation_of(t);
    let body = without_annotation(t);
    match move_type_of_text(body) {
        Some(MoveType::Castle(side)) => Ok(
            Move {
                piece: Piece::King,
                turn: turn,
                origin: None,
                destination: None,
                move_type: MoveType::Castle(side),
                result: result,
            },
        ),
        _ => if has_promotion(body) {
            match move_type_of_text(body.skip(body.len() - 2)) {
                Some(MoveType::Promotion(p)) => plain_move(
                    without_promotion(body),
                    turn,
                    Some(p),
                    result,
                ),
                _ => Err(SanError::UnknownPiece),
            }
        } else {
            plain_move(body, turn, None, result)
        },
    }
}

/// A text that says nothing of what a move does.
#[derive(PartialEq, Eq, Structural, Debug, Copy, Clone)]
pub struct UnknownMoveTypeError;

/// What a move does, as read from the mark that says so.
#[derive(Debug)]
pub struct PNGMoveType(MoveType);

impl PNGMoveType {
    /// The kind that was read.
    pub closed spec fn move_type(self) -> MoveType {
        self.0
    }

    /// The kind that was read.
    pub fn get(&self) -> (m: MoveType)
        ensures
            m == self.move_type(),
    {
        self.0
    }

    /// Reads what a move does from its mark: `O-O-O`, `O-O`, `x`, or `=` with
    /// one of `Q N B R`.
    pub fn from_chars(s: &[char]) -> (r: Result<PNGMoveType, UnknownMoveTypeError>)
        ensures
            match r {
                Ok(m) => move_type_of_text(s@) == Some(m.move_type()),
                Err(_) => move_type_of_text(s@) is None,
            },
    {
        let n: usize = s.len();
        if n == 5 && s[0] == 'O' && s[1] == '-' && s[2] == 'O' && s[3] == '-' && s[4] == 'O' {
            assert(s@ =~= castle_long());
            Ok(PNGMoveType(MoveType::Castle(CastleType::Queenside)))
        } else if n == 3 && s[0] == 'O' && s[1] == '-' && s[2] == 'O' {
            assert(s@ =~= castle_short());
            Ok(PNGMoveType(MoveType::Castle(CastleType::Kingside)))
        } else if n == 1 && s[0] == 'x' {
            assert(s@ =~= seq!['x']);
            Ok(PNGMoveType(MoveType::Capture))
        } else if n == 2 && s[0] == '=' && s[1] == 'Q' {
            assert(s@ =~= seq!['=', 'Q']);
            Ok(PNGMoveType(MoveType::Promotion(Piece::Queen)))
        } else if n == 2 && s[0] == '=' && s[1] == 'N' {
            assert(s@ =~= seq!['=', 'N']);
            Ok(PNGMoveType(MoveType::Promotion(Piece::Knight)))
        } else if n == 2 && s[0] == '=' && s[1] == 'B' {
            assert(s@ =~= seq!['=', 'B']);
            Ok(PNGMoveType(MoveType::Promotion(Piece::Bishop)))
        } else if n == 2 && s[0] == '=' && s[1] == 'R' {
            assert(s@ =~= seq!['=', 'R']);
            Ok(PNGMoveType(MoveType::Promotion(Piece::Rook)))
        } else {
            Err(UnknownMoveTypeError)
        }
    }

    /// Reads what a move does from its mark, given as a text.
    pub fn from_str(s: &str) -> (r: Result<PNGMoveType, UnknownMoveTypeError>)
        ensures
            match r {
                Ok(m) => move_type_of_text(s@) == Some(m.move_type()),
                Err(_) => move_type_of_text(s@) is None,
            },
    {
        let cs = chars_of(s);
        PNGMoveType::from_chars(cs.as_slice())
    }
}

/// Reads the file of a square in notation: a lower-case letter.
fn read_san_file(c: char) -> (r: Option<File>)
    ensures
        r == san_file(c),
{
    if c == 'a' || c == 'b' || c == 'c' || c == 'd' || c == 'e' || c == 'f' || c == 'g' || c
        == 'h' {
        File::from_char(c)
    } else {
        None
    }
}

/// Reads the square that a text ends in.
fn read_destination(t: &[char]) -> (r: Option<(File, Rank)>)
    ensures
        r == destination_of(t@),
{
    let n: usize = t.len();
    if n >= 2 {
        match (read_san_file(t[n - 2]), Rank::from_char(t[n - 1])) {
            (Some(f), Some(r)) => Some((f, r)),
            _ => None,
        }
    } else {
        None
    }
}

/// Reads the hint of the square of departure.
fn read_origin(h: &[char]) -> (r: Result<Origin, SanError>)
    ensures
        r == origin_of(h@),
{
    let n: usize = h.len();
    if n == 0 {
        Ok(None)
    } else if n == 1 {
        let f = read_san_file(h[0]);
        let r = Rank::from_char(h[0]);
        if f.is_some() {
            Ok(Some((f, None)))
        } else if r.is_some() {
            Ok(Some((None, r)))
        } else {
            Err(SanError::UnrecognizedToken)
        }
    } else if n == 2 {
        let f = read_san_file(h[0]);
        let r = Rank::from_char(h[1]);
        if f.is_some() && r.is_some() {
            Ok(Some((f, r)))
        } else {
            Err(SanError::UnrecognizedToken)
        }
    } else {
        Err(SanError::UnrecognizedToken)
    }
}

/// Reads the piece and the hint in front of the square of arrival.
fn read_mover(p: &[char]) -> (r: Result<(Piece, Origin), SanError>)
    ensures
        r == mover_of(p@),
{
    let n: usize = p.len();
    if n > 0 {
        let c: char = p[0];
        match Piece::from_letter(c) {
            Some(piece) => {
                let rest = slice_subrange(p, 1, n);
                assert(rest@ =~= p@.skip(1));
                return match read_origin(rest) {
                    Ok(o) => Ok((piece, o)),
                    Err(e) => Err(e),
                };
            },
            None => {
                if 'A' <= c && c <= 'Z' {
                    return Err(SanError::UnknownPiece);
                }
            },
        }
    }
    match read_origin(p) {
        Ok(o) => Ok((Piece::Pawn, o)),
        Err(e) => Err(e),
    }
}

/// The length of the en passant suffix that a text ends in.
fn read_en_passant_len(t: &[char]) -> (k: usize)
    ensures
        k == en_passant_len(t@),
        k <= t@.len(),
{
    let n: usize = t.len();
    if n >= 4 && t[n - 4] == 'e' && t[n - 3] == '.' && t[n - 2] == 'p' && t[n - 1] == '.' {
        4
    } else if n >= 3 && t[n - 3] == 'e' && t[n - 2] == '.' && t[n - 1] == 'p' {
        3
    } else {
        0
    }
}

/// Reads a move that is no castle, without its mark of check or mate and
/// without its promotion suffix.
fn read_plain_move(
    core: &[char],
    turn: Player,
    promoted: Option<Piece>,
    result: Option<MoveResult>,
) -> (r: Result<Move, SanError>)
    ensures
        r == plain_move(core@, turn, promoted, result),
{
    let k: usize = read_en_passant_len(core);
    let en_passant: bool = k > 0;
    let end: usize = if en_passant {
        trimmed_len(core, core.len() - k)
    } else {
        core.len()
    };
    let rest = slice_subrange(core, 0, end);
    assert(rest@ =~= without_en_passant(core@)) by {
        assert(core@.take(end as int) =~= core@.subrange(0, end as int));
        assert(core@.take(core@.len() as int) =~= core@);
    }
    match read_destination(rest) {
        None => Err(SanError::MissingDestination),
        Some(dest) => {
            let front_len: usize = end - 2;
            let capture: bool = front_len > 0 && rest[front_len - 1] == 'x';
            let hint_len: usize = if capture {
                front_len - 1
            } else {
                front_len
            };
            let hint = slice_subrange(rest, 0, hint_len);
            proof {
                let front = rest@.take(rest@.len() - 2);
                assert(front.len() == front_len);
                if capture {
                    assert(front.last() == 'x');
                    assert(hint@ =~= front.drop_last());
                } else {
                    assert(hint@ =~= front);
                }
            }
            if en_passant && !capture {
                Err(SanError::UnrecognizedToken)
            } else {
                match read_mover(hint) {
                    Err(e) => Err(e),
                    Ok((piece, origin)) => {
                        let move_type = match promoted {
                            Some(p) => MoveType::Promotion(p),
                            None => if en_passant {
                                MoveType::EnPassantCapture
                            } else if capture {
                                MoveType::Capture
                            } else {
                                MoveType::Move
                            },
                        };
                        Ok(
                            Move {
                                piece,
                                turn,
                                origin,
                                destination: Some(dest),
                                move_type,
                                result,
                            },
                        )
                    },
                }
            }
        },
    }
}

/// A move as read from notation.
#[derive(Debug)]
pub struct PNGMove(pub Move);

impl PNGMove {
    /// Reads the move of the side `turn` from the characters of a token, or
    /// says why the token is no move.
    pub fn from_chars(t: &[char], turn: Player) -> (r: Result<Move, SanError>)
        ensures
            r == san_move(t@, turn),
            r matches Ok(m) ==> m.well_formed() && m.turn == turn,
    {
        let n: usize = t.len();
        let result: Option<MoveResult> = if n > 0 && t[n - 1] == '+' {
            Some(MoveResult::Check)
        } else if n > 0 && t[n - 1] == '#' {
            Some(MoveResult::Checkmate)
        } else {
            None
        };
        let body_len: usize = if result.is_some() {
            n - 1
        } else {
            n
        };
        let body = slice_subrange(t, 0, body_len);
        assert(body@ =~= without_annotation(t@));
        let whole = PNGMoveType::from_chars(body);
        if let Ok(kind) = whole {
            if let MoveType::Castle(side) = kind.get() {
                return Ok(
                    Move {
                        piece: Piece::King,
                        turn,
                        origin: None,
                        destination: None,
                        move_type: MoveType::Castle(side),
                        result,
                    },
                );
            }
        }
        let r = if body_len >= 2 && body[body_len - 2] == '=' {
            let suffix = slice_subrange(body, body_len - 2, body_len);
            assert(suffix@ =~= body@.skip(body@.len() - 2));
            let core = slice_subrange(body, 0, body_len - 2);
            assert(core@ =~= without_promotion(body@));
            match PNGMoveType::from_chars(suffix) {
                Ok(kind) => match kind.get() {
                    MoveType::Promotion(p) => read_plain_move(core, turn, Some(p), result),
                    _ => Err(SanError::UnknownPiece),
                },
                Err(_) => Err(SanError::UnknownPiece),
            }
        } else {
            read_plain_move(body, turn, None, result)
        };
        proof {
            san_move_well_formed(t@, turn);
        }
        r
    }

    /// Reads the move of the side `turn` from a token, or says why the token
    /// is no move.
    pub fn parse(notation: &str, turn: Player) -> (r: Result<Move, SanError>)
        ensures
            r == san_move(notation@, turn),
            r matches Ok(m) ==> m.well_formed() && m.turn == turn,
    {
        let cs = chars_of(notation);
        PNGMove::from_chars(cs.as_slice(), turn)
    }

    /// Reads the move of the side `turn` from a token. A token that is no
    /// move gives `None`.
    pub fn from_notation(notation: &str, turn: Player) -> (r: Option<Move>)
        ensures
            r == match san_move(notation@, turn) {
                Ok(m) => Some(m),
                Err(_) => None,
            },
            r matches Some(m) ==> m.well_formed() && m.turn == turn,
    {
        match PNGMove::parse(notation, turn) {
            Ok(m) => Some(m),
            Err(_) => None,
        }
    }

    /// The move that was read.
    pub fn get(&self) -> (m: Move)
        ensures
            m == self.0,
    {
        self.0
    }
}

/// Every move that the grammar gives is well formed and belongs to the side
/// that was asked for: a castle has no square, any other move has its square
/// of arrival, and a hint holds a file or a rank.
pub proof fn san_move_well_formed(t: Seq<char>, turn: Player)
    ensures
        san_move(t, turn) matches Ok(m) ==> m.well_formed() && m.turn == turn,
{
}

} // verus!
