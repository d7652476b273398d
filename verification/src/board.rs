//! A snapshot of the board: what stands on each of the 64 squares.

use vstd::prelude::*;
use crate::piece::Piece;
use crate::square::{A2, A3, Square};

verus! {

/// The colour of a piece.
#[derive(PartialEq, Eq, Structural, Debug, Copy, Clone, Hash)]
pub enum Color {
    White,
    Black,
}

/// The side from which the board is looked at.
#[derive(PartialEq, Eq, Structural, Debug, Copy, Clone)]
pub enum Perspective {
    White,
    Black,
}

/// What stands on a square: nothing, or a piece of a colour.
pub type Cell = Option<(Piece, Color)>;

/// A snapshot of the board. `hash` is a digest of `squares` on a board that
/// `with_pieces` or `default` made, and 0 on a new one.
#[derive(Debug)]
pub struct Board {
    pub squares: [Cell; 64],
    pub hash: u64,
    pub perspective: Perspective,
}

/// The 64 squares with nothing on them.
pub open spec fn empty_squares() -> Seq<Cell> {
    Seq::new(64, |i: int| None::<(Piece, Color)>)
}

/// The squares after the pieces of a list were put on an empty board, one
/// after the other: a later piece replaces an earlier one on its square.
pub open spec fn placed(ps: Seq<(Square, Piece, Color)>) -> Seq<Cell>
    decreases ps.len(),
{
    if ps.len() == 0 {
        empty_squares()
    } else {
        placed(ps.drop_last()).update(ps.last().0.index(), Some((ps.last().1, ps.last().2)))
    }
}

/// The number that stands for a piece in the digest.
pub open spec fn piece_code(p: Piece) -> u8 {
    match p {
        Piece::King => 0,
        Piece::Queen => 1,
        Piece::Rook => 2,
        Piece::Bishop => 3,
        Piece::Knight => 4,
        Piece::Pawn => 5,
    }
}

/// The number that stands for a colour in the digest.
pub open spec fn color_code(c: Color) -> u8 {
    match c {
        Color::White => 0,
        Color::Black => 1,
    }
}

/// The bytes that stand for one square in the digest: its index, and on an
/// occupied square the piece and the colour after it.
pub open spec fn cell_bytes(i: int, cell: Cell) -> Seq<u8> {
    match cell {
        None => seq![i as u8],
        Some((p, c)) => seq![i as u8, piece_code(p), color_code(c)],
    }
}

/// The bytes that stand for the first `n` squares.
pub open spec fn squares_bytes(squares: Seq<Cell>, n: int) -> Seq<u8>
    decreases n,
{
    if n <= 0 {
        Seq::empty()
    } else {
        squares_bytes(squares, n - 1) + cell_bytes(n - 1, squares[n - 1])
    }
}

/// The start value of the digest.
pub const DIGEST_START: u64 = 0xcbf29ce484222325;

/// The factor of the digest.
pub const DIGEST_FACTOR: u64 = 0x100000001b3;

/// The digest after one more byte.
#[verifier::opaque]
pub open spec fn digest_step(h: u64, b: u8) -> u64 {
    (h ^ (b as u64)).wrapping_mul(DIGEST_FACTOR)
}

/// The digest `h` after more bytes: each byte is mixed in by exclusive or and
/// the result multiplied by the factor, modulo 2 to the 64.
pub open spec fn digest_from(h: u64, bytes: Seq<u8>) -> u64
    decreases bytes.len(),
{
    if bytes.len() == 0 {
        h
    } else {
        digest_step(digest_from(h, bytes.drop_last()), bytes.last())
    }
}

/// The digest of a sequence of bytes, from the start value.
pub open spec fn digest(bytes: Seq<u8>) -> u64 {
    digest_from(DIGEST_START, bytes)
}

/// The digest after one more byte is one step from the digest before it.
pub proof fn digest_of_push(h: u64, bytes: Seq<u8>, b: u8)
    ensures
        digest_from(h, bytes.push(b)) == digest_step(digest_from(h, bytes), b),
{
    assert(bytes.push(b).drop_last() =~= bytes);
}

/// The digest of two sequences of bytes, one after the other, is the digest
/// of the second from the digest of the first.
pub proof fn digest_of_concat(h: u64, a: Seq<u8>, b: Seq<u8>)
    ensures
        digest_from(h, a + b) == digest_from(digest_from(h, a), b),
    decreases b.len(),
{
    if b.len() == 0 {
        assert(a + b =~= a);
    } else {
        digest_of_concat(h, a, b.drop_last());
        assert((a + b).drop_last() =~= a + b.drop_last());
    }
}

/// The digest of a board's squares.
pub open spec fn squares_digest(squares: Seq<Cell>) -> u64 {
    digest(squares_bytes(squares, 64))
}

/// The piece that stands on the given file of a side's first row when a game
/// starts.
pub open spec fn back_rank(file: int) -> Piece {
    if file == 0 || file == 7 {
        Piece::Rook
    } else if file == 1 || file == 6 {
        Piece::Knight
    } else if file == 2 || file == 5 {
        Piece::Bishop
    } else if file == 3 {
        Piece::Queen
    } else {
        Piece::King
    }
}

/// What stands on the square with index `i` when a game starts.
pub open spec fn start_cell(i: int) -> Cell {
    let rank = i / 8;
    let file = i % 8;
    if rank == 0 {
        Some((back_rank(file), Color::White))
    } else if rank == 1 {
        Some((Piece::Pawn, Color::White))
    } else if rank == 6 {
        Some((Piece::Pawn, Color::Black))
    } else if rank == 7 {
        Some((back_rank(file), Color::Black))
    } else {
        None
    }
}

/// The squares when a game starts.
pub open spec fn start_squares() -> Seq<Cell> {
    Seq::new(64, |i: int| start_cell(i))
}

/// The squares after what stands on `from` went to `to`: `from` is empty,
/// and `to` holds what `from` held.
pub open spec fn moved(squares: Seq<Cell>, from: int, to: int) -> Seq<Cell> {
    squares.update(from, None).update(to, squares[from])
}

/// The piece on the given file of a side's first row when a game starts.
fn back_rank_piece(file: usize) -> (p: Piece)
    ensures
        p == back_rank(file as int),
{
    if file == 0 || file == 7 {
        Piece::Rook
    } else if file == 1 || file == 6 {
        Piece::Knight
    } else if file == 2 || file == 5 {
        Piece::Bishop
    } else if file == 3 {
        Piece::Queen
    } else {
        Piece::King
    }
}

/// What stands on the square with index `i` when a game starts.
fn start_cell_at(i: usize) -> (c: Cell)
    ensures
        c == start_cell(i as int),
{
    let rank: usize = i / 8;
    let file: usize = i % 8;
    if rank == 0 {
        Some((back_rank_piece(file), Color::White))
    } else if rank == 1 {
        Some((Piece::Pawn, Color::White))
    } else if rank == 6 {
        Some((Piece::Pawn, Color::Black))
    } else if rank == 7 {
        Some((back_rank_piece(file), Color::Black))
    } else {
        None
    }
}

/// The byte that stands for a piece in the digest.
fn piece_byte(p: Piece) -> (b: u8)
    ensures
        b == piece_code(p),
{
    match p {
        Piece::King => 0,
        Piece::Queen => 1,
        Piece::Rook => 2,
        Piece::Bishop => 3,
        Piece::Knight => 4,
        Piece::Pawn => 5,
    }
}

/// The byte that stands for a colour in the digest.
fn color_byte(c: Color) -> (b: u8)
    ensures
        b == color_code(c),
{
    match c {
        Color::White => 0,
        Color::Black => 1,
    }
}

/// Mixes one byte into a digest.
fn mix(h: u64, b: u8) -> (r: u64)
    ensures
        r == digest_step(h, b),
{
    reveal(digest_step);
    (h ^ (b as u64)).wrapping_mul(DIGEST_FACTOR)
}

/// Mixes the bytes of one square into a digest.
fn mix_cell(h: u64, i: u8, cell: Cell) -> (r: u64)
    ensures
        r == digest_from(h, cell_bytes(i as int, cell)),
{
    let ghost none = Seq::<u8>::empty();
    let h1 = mix(h, i);
    proof {
        digest_of_push(h, none, i);
        assert(none.push(i) =~= seq![i]);
    }
    match cell {
        None => h1,
        Some((p, c)) => {
            let h2 = mix(h1, piece_byte(p));
            let h3 = mix(h2, color_byte(c));
            proof {
                digest_of_push(h, seq![i], piece_code(p));
                digest_of_push(h, seq![i, piece_code(p)], color_code(c));
                assert(seq![i].push(piece_code(p)) =~= seq![i, piece_code(p)]);
                assert(seq![i, piece_code(p)].push(color_code(c)) =~= seq![
                    i,
                    piece_code(p),
                    color_code(c),
                ]);
            }
            h3
        },
    }
}

impl Board {
    /// A board with nothing on it, seen from White's side.
    pub fn new() -> (b: Board)
        ensures
            b.squares@ == empty_squares(),
            b.hash == 0,
            b.perspective == Perspective::White,
    {
        let mut squares: [Cell; 64] = [None; 64];
        let mut i: usize = 0;
        while i < 64
            invariant
                i <= 64,
                forall|j: int| 0 <= j < i ==> squares@[j] == None::<(Piece, Color)>,
            decreases 64 - i,
        {
            squares[i] = None;
            i = i + 1;
        }
        assert(squares@ =~= empty_squares());
        Board { squares, hash: 0, perspective: Perspective::White }
    }

    /// A board with the given pieces on it, seen from White's side. Where
    /// two pieces are given for one square, the later one stands there.
    pub fn with_pieces(pieces: &[(Square, Piece, Color)]) -> (b: Board)
        requires
            forall|i: int| 0 <= i < pieces@.len() ==> (#[trigger] pieces@[i]).0.on_board(),
        ensures
            b.squares@ == placed(pieces@),
            b.hash == squares_digest(b.squares@),
            b.perspective == Perspective::White,
    {
        let mut board = Board::new();
        let mut i: usize = 0;
        assert(pieces@.take(0) =~= Seq::<(Square, Piece, Color)>::empty());
        while i < pieces.len()
            invariant
                i <= pieces@.len(),
                forall|j: int| 0 <= j < pieces@.len() ==> (#[trigger] pieces@[j]).0.on_board(),
                board.squares@ == placed(pieces@.take(i as int)),
                board.perspective == Perspective::White,
            decreases pieces@.len() - i,
        {
            let piece = pieces[i];
            assert(pieces@.take(i + 1).drop_last() =~= pieces@.take(i as int));
            assert(piece.0.on_board());
            board.squares[piece.0.to_index()] = Some((piece.1, piece.2));
            i = i + 1;
        }
        assert(pieces@.take(pieces@.len() as int) =~= pieces@);
        board.hash = Board::calculate_hash(board.squares);
        board
    }

    /// The digest of the squares of a board.
    pub fn calculate_hash(squares: [Cell; 64]) -> (h: u64)
        ensures
            h == squares_digest(squares@),
    {
        let mut h: u64 = DIGEST_START;
        let mut i: usize = 0;
        while i < 64
            invariant
                i <= 64,
                h == digest(squares_bytes(squares@, i as int)),
            decreases 64 - i,
        {
            proof {
                digest_of_concat(
                    DIGEST_START,
                    squares_bytes(squares@, i as int),
                    cell_bytes(i as int, squares@[i as int]),
                );
            }
            h = mix_cell(h, i as u8, squares[i]);
            i = i + 1;
        }
        h
    }
    /// Moves what stands on `from` to `to`, where it replaces what stood
    /// there, and brings the digest up to date. Nothing asks whether the
    /// rules of chess allow the move.
    pub fn move_piece(&mut self, from: Square, to: Square)
        requires
            from.on_board(),
            to.on_board(),
        ensures
            final(self).squares@ == moved(old(self).squares@, from.index(), to.index()),
            final(self).hash == squares_digest(final(self).squares@),
            final(self).perspective == old(self).perspective,
    {
        let piece: Cell = self.squares[from.to_index()];
        self.squares[from.to_index()] = None;
        self.squares[to.to_index()] = piece;
        self.hash = Board::calculate_hash(self.squares);
    }
}

impl Default for Board {
    /// The board when a game starts, seen from White's side.
    fn default() -> (b: Board)
        ensures
            b.squares@ == start_squares(),
            b.hash == squares_digest(b.squares@),
            b.perspective == Perspective::White,
    {
        let mut board = Board::new();
        let mut i: usize = 0;
        while i < 64
            invariant
                i <= 64,
                board.squares@.len() == 64,
                forall|j: int| 0 <= j < i ==> board.squares@[j] == start_cell(j),
                board.perspective == Perspective::White,
            decreases 64 - i,
        {
            board.squares[i] = start_cell_at(i);
            i = i + 1;
        }
        assert(board.squares@ =~= start_squares());
        board.hash = Board::calculate_hash(board.squares);
        board
    }
}

/// The board of a viewer: a snapshot, the side it is seen from, and whether
/// it was drawn yet.
#[derive(Debug)]
pub struct Chessboard {
    pub drawn: bool,
    pub state: Board,
    pub perspective: Perspective,
}

impl Chessboard {
    /// A board on which a game starts, seen from White's side and not drawn
    /// yet.
    pub fn new() -> (c: Self)
        ensures
            c.state.squares@ == start_squares(),
            c.state.hash == squares_digest(c.state.squares@),
            c.perspective == Perspective::White,
            !c.drawn,
    {
        Chessboard { drawn: false, state: Board::default(), perspective: Perspective::White }
    }

    /// Moves what stands on a2 to a3.
    pub fn move_piece(&mut self)
        ensures
            final(self).state.squares@ == moved(old(self).state.squares@, A2 as int, A3 as int),
            final(self).state.hash == squares_digest(final(self).state.squares@),
            final(self).perspective == old(self).perspective,
            final(self).drawn == old(self).drawn,
    {
        self.state.move_piece(Square(A2), Square(A3));
    }

    /// Puts the pieces back where a game starts.
    pub fn reset(&mut self)
        ensures
            final(self).state.squares@ == start_squares(),
            final(self).state.hash == squares_digest(final(self).state.squares@),
            final(self).perspective == old(self).perspective,
            final(self).drawn == old(self).drawn,
    {
        self.state = Board::default();
    }
}

} // verus!
