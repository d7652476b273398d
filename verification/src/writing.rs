//! The notation of a move, and the law that connects it with reading: what
//! is written for a move is read back as that move.

use vstd::prelude::*;
use crate::file::{File, file_letter};
use crate::game::{CastleType, Move, MoveResult, MoveType, Player};
use crate::piece::{Piece, piece_of_letter};
use crate::rank::{Rank, rank_digit};
use crate::san::{
    Origin, SanError, annotation_of, castle_long, castle_short, destination_of, en_passant_len,
    has_promotion, move_type_of_text, mover_of, origin_of, plain_move, san_file, san_move, upper,
    without_annotation, without_en_passant, without_promotion,
};
use crate::text::{space, trim_end};

verus! {

/// The letter that names a piece in front of a move; a pawn has none.
pub open spec fn piece_text(p: Piece) -> Seq<char> {
    match p {
        Piece::King => seq!['K'],
        Piece::Queen => seq!['Q'],
        Piece::Rook => seq!['R'],
        Piece::Bishop => seq!['B'],
        Piece::Knight => seq!['N'],
        Piece::Pawn => Seq::empty(),
    }
}

/// The hint of the square of departure: its file, if given, and its rank,
/// if given.
pub open spec fn origin_text(o: Origin) -> Seq<char> {
    match o {
        None => Seq::empty(),
        Some((Some(f), Some(r))) => seq![file_letter(f), rank_digit(r)],
        Some((Some(f), None)) => seq![file_letter(f)],
        Some((None, Some(r))) => seq![rank_digit(r)],
        Some((None, None)) => Seq::empty(),
    }
}

/// The mark of check or mate.
pub open spec fn result_text(r: Option<MoveResult>) -> Seq<char> {
    match r {
        Some(MoveResult::Check) => seq!['+'],
        Some(MoveResult::Checkmate) => seq!['#'],
        None => Seq::empty(),
    }
}

/// The two characters of a square.
pub open spec fn square_text(d: (File, Rank)) -> Seq<char> {
    seq![file_letter(d.0), rank_digit(d.1)]
}

/// The square of arrival as it is written: with `x` in front of it for a
/// capture, and ` e.p.` after it for a capture en passant.
pub open spec fn arrival_text(kind: MoveType, d: (File, Rank)) -> Seq<char> {
    match kind {
        MoveType::Capture => seq!['x'] + square_text(d),
        MoveType::EnPassantCapture => seq!['x'] + square_text(d) + seq![' ', 'e', '.', 'p', '.'],
        _ => square_text(d),
    }
}

/// The promotion suffix: `=` and the new piece's letter, for a promotion.
pub open spec fn promotion_text(kind: MoveType) -> Seq<char> {
    match kind {
        MoveType::Promotion(p) => seq!['='] + piece_text(p),
        _ => Seq::empty(),
    }
}

/// The notation of a move.
pub open spec fn notation_of(m: Move) -> Seq<char> {
    match m.move_type {
        MoveType::Castle(CastleType::Kingside) => castle_short() + result_text(m.result),
        MoveType::Castle(CastleType::Queenside) => castle_long() + result_text(m.result),
        kind => piece_text(m.piece) + origin_text(m.origin) + match m.destination {
            Some(d) => arrival_text(kind, d),
            None => Seq::empty(),
        } + promotion_text(kind) + result_text(m.result),
    }
}

/// Whether a move can be written: it is well formed, and if it is a
/// promotion, the pawn becomes a queen, a rook, a bishop or a knight.
pub open spec fn writable(m: Move) -> bool {
    &&& m.well_formed()
    &&& m.move_type matches MoveType::Promotion(p) ==> p != Piece::King && p != Piece::Pawn
}

/// The hint that is written for an origin is read back as that origin.
pub proof fn origin_is_read_back(o: Origin)
    requires
        o matches Some(h) ==> h.0 is Some || h.1 is Some,
    ensures
        origin_of(origin_text(o)) == Ok::<Origin, SanError>(o),
        origin_text(o).len() <= 2,
        forall|i: int|
            0 <= i < origin_text(o).len() ==> {
                let c = #[trigger] origin_text(o)[i];
                piece_of_letter(c) is None && !upper(c) && c != 'x'
            },
{
    match o {
        None => {},
        Some((Some(f), Some(r))) => {
            assert(san_file(file_letter(f)) == Some(f));
        },
        Some((Some(f), None)) => {
            assert(san_file(file_letter(f)) == Some(f));
        },
        Some((None, Some(r))) => {
            assert(san_file(rank_digit(r)) is None);
        },
        Some((None, None)) => {},
    }
}

/// The piece and the hint that are written in front of a square are read
/// back.
pub proof fn mover_is_read_back(p: Piece, o: Origin)
    requires
        o matches Some(h) ==> h.0 is Some || h.1 is Some,
    ensures
        mover_of(piece_text(p) + origin_text(o)) == Ok::<(Piece, Origin), SanError>((p, o)),
        (piece_text(p) + origin_text(o)).len() > 0 ==> (piece_text(p) + origin_text(o)).last()
            != 'x',
{
    origin_is_read_back(o);
    let t = piece_text(p) + origin_text(o);
    if p == Piece::Pawn {
        assert(t =~= origin_text(o));
        if t.len() > 0 {
            assert(piece_of_letter(origin_text(o)[0]) is None);
            assert(origin_text(o)[t.len() - 1] != 'x');
        }
    } else {
        assert(piece_of_letter(t[0]) == Some(p));
        assert(t.skip(1) =~= origin_text(o));
        if origin_text(o).len() > 0 {
            assert(t.last() == origin_text(o)[origin_text(o).len() - 1]);
        }
    }
}

/// How the square of arrival is found again in what was written: the en
/// passant suffix is seen exactly for a capture en passant; without it the
/// text ends in the square; the `x` is seen exactly for a capture; and what
/// is left is what stood in front.
pub proof fn arrival_is_read_back(front: Seq<char>, kind: MoveType, d: (File, Rank))
    requires
        !(kind is Castle),
        front.len() > 0 ==> front.last() != 'x',
    ensures
        ({
            let core = front + arrival_text(kind, d);
            let rest = without_en_passant(core);
            let before = rest.take(rest.len() - 2);
            let capture = before.len() > 0 && before.last() == 'x';
            &&& en_passant_len(core) > 0 <==> kind is EnPassantCapture
            &&& destination_of(rest) == Some(d)
            &&& capture <==> kind is Capture || kind is EnPassantCapture
            &&& capture ==> before.drop_last() == front
            &&& !capture ==> before == front
        }),
{
    let core = front + arrival_text(kind, d);
    assert(san_file(file_letter(d.0)) == Some(d.0));
    match kind {
        MoveType::Capture => {
            let taking = front + seq!['x'];
            assert(core =~= taking + square_text(d));
            assert(core.take(core.len() - 2) =~= taking);
            assert(taking.drop_last() =~= front);
        },
        MoveType::EnPassantCapture => {
            let taking = front + seq!['x'];
            let rest = taking + square_text(d);
            assert(core =~= rest + seq![' ', 'e', '.', 'p', '.']);
            assert(en_passant_len(core) == 4);
            let spaced = core.take(core.len() - 4);
            assert(spaced =~= rest + seq![' ']);
            assert(spaced.drop_last() =~= rest);
            assert(rest.last() == rank_digit(d.1));
            assert(trim_end(rest) == rest);
            assert(trim_end(spaced) == rest);
            assert(rest.take(rest.len() - 2) =~= taking);
            assert(taking.drop_last() =~= front);
        },
        _ => {
            assert(core =~= front + square_text(d));
            assert(core.take(core.len() - 2) =~= front);
        },
    }
}

/// What is written for a move, without its promotion suffix and its mark of
/// check or mate, is read back as that move.
pub proof fn plain_move_is_read_back(m: Move)
    requires
        m.well_formed(),
        !(m.move_type is Castle),
    ensures
        plain_move(
            piece_text(m.piece) + origin_text(m.origin) + arrival_text(
                m.move_type,
                m.destination->0,
            ),
            m.turn,
            match m.move_type {
                MoveType::Promotion(p) => Some(p),
                _ => None,
            },
            m.result,
        ) == Ok::<Move, SanError>(m),
{
    let front = piece_text(m.piece) + origin_text(m.origin);
    mover_is_read_back(m.piece, m.origin);
    arrival_is_read_back(front, m.move_type, m.destination->0);
}

/// A text of two or more characters that does not end in `O`, and if it has
/// two characters does not end in the letter of a piece, is no mark of what
/// a move does.
pub proof fn long_text_is_no_mark(body: Seq<char>)
    requires
        body.len() >= 2,
        body.last() != 'O',
        body.len() == 2 ==> piece_of_letter(body.last()) is None,
    ensures
        move_type_of_text(body) is None,
{
    assert(castle_short().last() == 'O');
    assert(castle_long().last() == 'O');
    assert(seq!['x'].len() == 1);
    assert(seq!['=', 'Q'].last() == 'Q' && seq!['=', 'Q'].len() == 2);
    assert(seq!['=', 'N'].last() == 'N' && seq!['=', 'N'].len() == 2);
    assert(seq!['=', 'B'].last() == 'B' && seq!['=', 'B'].len() == 2);
    assert(seq!['=', 'R'].last() == 'R' && seq!['=', 'R'].len() == 2);
}

/// The mark of check or mate that is written after a text is read back, and
/// taking it off leaves the text, where the text itself does not end in such
/// a mark.
pub proof fn result_is_read_back(body: Seq<char>, r: Option<MoveResult>)
    requires
        body.len() > 0,
        body.last() != '+',
        body.last() != '#',
    ensures
        annotation_of(body + result_text(r)) == r,
        without_annotation(body + result_text(r)) == body,
{
    let t = body + result_text(r);
    if r is Some {
        assert(t.last() == result_text(r)[0]);
        assert(t.drop_last() =~= body);
    } else {
        assert(t =~= body);
    }
}

/// The notation of a castle is read back.
pub proof fn castle_is_read_back(m: Move)
    requires
        writable(m),
        m.move_type is Castle,
    ensures
        san_move(notation_of(m), m.turn) == Ok::<Move, SanError>(m),
{
    let body = match m.move_type->Castle_0 {
        CastleType::Kingside => castle_short(),
        CastleType::Queenside => castle_long(),
    };
    assert(body.last() == 'O');
    result_is_read_back(body, m.result);
    assert(castle_short().len() != castle_long().len());
}

/// The notation of a promotion is read back.
pub proof fn promotion_notation_is_read_back(m: Move)
    requires
        writable(m),
        m.move_type is Promotion,
    ensures
        san_move(notation_of(m), m.turn) == Ok::<Move, SanError>(m),
{
    let p = m.move_type->Promotion_0;
    let d = m.destination->0;
    let core = piece_text(m.piece) + origin_text(m.origin) + arrival_text(m.move_type, d);
    let suffix = seq!['=', piece_text(p)[0]];
    let body = core + suffix;
    assert(piece_text(p) =~= seq![piece_text(p)[0]]);
    assert(promotion_text(m.move_type) =~= suffix);
    assert(notation_of(m) =~= body + result_text(m.result));
    assert(body.last() == piece_text(p)[0]);
    result_is_read_back(body, m.result);
    long_text_is_no_mark(body);
    assert(body[body.len() - 2] == '=');
    assert(body.skip(body.len() - 2) =~= suffix);
    assert(body.take(body.len() - 2) =~= core);
    assert(move_type_of_text(suffix) == Some(MoveType::Promotion(p)));
    plain_move_is_read_back(m);
}

/// The notation of a move that is neither a castle nor a promotion is read
/// back.
pub proof fn plain_notation_is_read_back(m: Move)
    requires
        writable(m),
        m.move_type is Move || m.move_type is Capture || m.move_type is EnPassantCapture,
    ensures
        san_move(notation_of(m), m.turn) == Ok::<Move, SanError>(m),
{
    let d = m.destination->0;
    let arrival = arrival_text(m.move_type, d);
    let body = piece_text(m.piece) + origin_text(m.origin) + arrival;
    let n = arrival.len() as int;
    assert(n >= 2);
    assert(arrival.last() == rank_digit(d.1) || arrival.last() == '.');
    assert(arrival[n - 2] == file_letter(d.0) || arrival[n - 2] == 'p');
    assert(body.last() == arrival.last());
    assert(body[body.len() - 2] == arrival[n - 2]);
    assert(promotion_text(m.move_type) =~= Seq::<char>::empty());
    assert(notation_of(m) =~= body + result_text(m.result));
    result_is_read_back(body, m.result);
    long_text_is_no_mark(body);
    plain_move_is_read_back(m);
}

/// Reading gives back what was written: the notation of a move that can be
/// written is read as that move, for the side that made it.
pub proof fn written_move_is_read_back(m: Move)
    requires
        writable(m),
    ensures
        san_move(notation_of(m), m.turn) == Ok::<Move, SanError>(m),
{
    match m.move_type {
        MoveType::Castle(_) => castle_is_read_back(m),
        MoveType::Promotion(_) => promotion_notation_is_read_back(m),
        _ => plain_notation_is_read_back(m),
    }
}

} // verus!
