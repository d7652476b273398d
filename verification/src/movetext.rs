//! Move text: move numbers, the two halves of each move, and result
//! markers.

use vstd::prelude::*;
use vstd::string::*;
use crate::game::{GameResult, Move, Player};
use crate::san::{PNGMove, SanError, san_move};
use crate::text::{chars_of, split_tokens, text_of, texts_of, tokens_of};

verus! {

/// The value of a decimal digit.
pub open spec fn digit_value(c: char) -> Option<int> {
    if c == '0' {
        Some(0)
    } else if c == '1' {
        Some(1)
    } else if c == '2' {
        Some(2)
    } else if c == '3' {
        Some(3)
    } else if c == '4' {
        Some(4)
    } else if c == '5' {
        Some(5)
    } else if c == '6' {
        Some(6)
    } else if c == '7' {
        Some(7)
    } else if c == '8' {
        Some(8)
    } else if c == '9' {
        Some(9)
    } else {
        None
    }
}

/// Whether a text holds decimal digits only.
pub open spec fn all_digits(ds: Seq<char>) -> bool {
    forall|i: int| 0 <= i < ds.len() ==> digit_value(#[trigger] ds[i]) is Some
}

/// The number that a text of decimal digits writes.
pub open spec fn digits_value(ds: Seq<char>) -> int
    decreases ds.len(),
{
    if ds.len() == 0 {
        0
    } else {
        digits_value(ds.drop_last()) * 10 + match digit_value(ds.last()) {
            Some(d) => d,
            None => 0,
        }
    }
}

/// The move number that a token writes: one or more decimal digits and a
/// full stop after them, where the number is 65535 at most.
pub open spec fn move_number_of(t: Seq<char>) -> Option<u16> {
    if t.len() >= 2 && t.last() == '.' && all_digits(t.drop_last()) && digits_value(t.drop_last())
        <= u16::MAX {
        Some(digits_value(t.drop_last()) as u16)
    } else {
        None
    }
}

/// The outcome that a result marker states: `1-0`, `0-1`, `1/2-1/2`, or `*`
/// for a game without a known outcome.
pub open spec fn result_of_token(t: Seq<char>) -> Option<GameResult> {
    if t == seq!['1', '-', '0'] {
        Some(GameResult::WhiteWins)
    } else if t == seq!['0', '-', '1'] {
        Some(GameResult::BlackWins)
    } else if t == seq!['1', '/', '2', '-', '1', '/', '2'] {
        Some(GameResult::Draw)
    } else if t == seq!['*'] {
        Some(GameResult::Unknown)
    } else {
        None
    }
}

/// Whether a token can be one half of a move: it is neither a move number
/// nor a result marker.
pub open spec fn half_token(t: Seq<char>) -> bool {
    move_number_of(t) is None && result_of_token(t) is None
}

/// One numbered move of a transcript as texts: White's half and, unless the
/// game stopped after it, Black's.
pub ghost struct RecordText {
    pub number: u16,
    pub white: Seq<char>,
    pub black: Option<Seq<char>>,
}

/// The numbered moves that a list of tokens holds. A move number opens a
/// group; the token after it is White's half and the next one Black's, where
/// they are there and can be halves. A group without Black's half is
/// accepted; a number without a half after it gives no record; tokens
/// outside the groups are passed over.
pub open spec fn records_of(ts: Seq<Seq<char>>) -> Seq<RecordText>
    decreases ts.len(),
{
    if ts.len() == 0 {
        Seq::empty()
    } else if move_number_of(ts[0]) is Some && ts.len() >= 2 && half_token(ts[1]) {
        if ts.len() >= 3 && half_token(ts[2]) {
            seq![
                RecordText {
                    number: move_number_of(ts[0])->0,
                    white: ts[1],
                    black: Some(ts[2]),
                },
            ] + records_of(ts.skip(3))
        } else {
            seq![RecordText { number: move_number_of(ts[0])->0, white: ts[1], black: None }]
                + records_of(ts.skip(2))
        }
    } else {
        records_of(ts.skip(1))
    }
}

/// A half of a move that could not be read, as texts.
pub ghost struct FailureText {
    pub number: u16,
    pub turn: Player,
    pub token: Seq<char>,
    pub error: SanError,
}

/// The moves that the halves of one record state, White's first. A half that
/// is no move is left out.
pub open spec fn record_moves(r: RecordText) -> Seq<Move> {
    let white = match san_move(r.white, Player::White) {
        Ok(m) => seq![m],
        Err(_) => Seq::empty(),
    };
    match r.black {
        Some(b) => match san_move(b, Player::Black) {
            Ok(m) => white.push(m),
            Err(_) => white,
        },
        None => white,
    }
}

/// The halves of one record that are no moves, White's first, each with the
/// reason.
pub open spec fn record_failures(r: RecordText) -> Seq<FailureText> {
    let white = match san_move(r.white, Player::White) {
        Ok(_) => Seq::empty(),
        Err(e) => seq![
            FailureText { number: r.number, turn: Player::White, token: r.white, error: e },
        ],
    };
    match r.black {
        Some(b) => match san_move(b, Player::Black) {
            Ok(_) => white,
            Err(e) => white.push(
                FailureText { number: r.number, turn: Player::Black, token: b, error: e },
            ),
        },
        None => white,
    }
}

/// The moves of a list of records, in order.
pub open spec fn moves_of(rs: Seq<RecordText>) -> Seq<Move>
    decreases rs.len(),
{
    if rs.len() == 0 {
        Seq::empty()
    } else {
        moves_of(rs.drop_last()) + record_moves(rs.last())
    }
}

/// The halves of a list of records that are no moves, in order.
pub open spec fn failures_of(rs: Seq<RecordText>) -> Seq<FailureText>
    decreases rs.len(),
{
    if rs.len() == 0 {
        Seq::empty()
    } else {
        failures_of(rs.drop_last()) + record_failures(rs.last())
    }
}

/// The outcome that the result marker starting at place `i` of a text
/// states, if one starts there: `1-0`, `0-1` or `1/2-1/2`.
pub open spec fn marker_at(s: Seq<char>, i: int) -> Option<GameResult> {
    if 0 <= i && i + 3 <= s.len() && s[i] == '1' && s[i + 1] == '-' && s[i + 2] == '0' {
        Some(GameResult::WhiteWins)
    } else if 0 <= i && i + 3 <= s.len() && s[i] == '0' && s[i + 1] == '-' && s[i + 2] == '1' {
        Some(GameResult::BlackWins)
    } else if 0 <= i && i + 7 <= s.len() && s[i] == '1' && s[i + 1] == '/' && s[i + 2] == '2'
        && s[i + 3] == '-' && s[i + 4] == '1' && s[i + 5] == '/' && s[i + 6] == '2' {
        Some(GameResult::Draw)
    } else {
        None
    }
}

/// The outcome that the last result marker starting before place `n` states,
/// or `Unknown` if none starts there.
pub open spec fn result_before(s: Seq<char>, n: int) -> GameResult
    decreases n,
{
    if n <= 0 {
        GameResult::Unknown
    } else {
        match marker_at(s, n - 1) {
            Some(r) => r,
            None => result_before(s, n - 1),
        }
    }
}

/// The outcome of the game that a transcript records: what its last result
/// marker states, or `Unknown` if it holds none.
pub open spec fn game_result(s: Seq<char>) -> GameResult {
    result_before(s, s.len() as int)
}

/// A text without a result marker has the outcome `Unknown`.
pub proof fn no_marker_is_unknown(s: Seq<char>, n: int)
    requires
        forall|i: int| 0 <= i < n ==> marker_at(s, i) is None,
    ensures
        result_before(s, n) == GameResult::Unknown,
    decreases n,
{
    if n > 0 {
        no_marker_is_unknown(s, n - 1);
    }
}

/// The outcome is what the last result marker states: the marker after
/// which no other one starts.
pub proof fn last_marker_decides(s: Seq<char>, i: int, n: int)
    requires
        0 <= i < n,
        marker_at(s, i) is Some,
        forall|j: int| i < j < n ==> marker_at(s, j) is None,
    ensures
        result_before(s, n) == marker_at(s, i)->0,
    decreases n,
{
    if n - 1 > i {
        last_marker_decides(s, i, n - 1);
    }
}

/// Reads the outcome that the marker at place `i` states, if one starts
/// there.
fn read_marker(s: &[char], i: usize) -> (r: Option<GameResult>)
    requires
        i <= s@.len(),
    ensures
        r == marker_at(s@, i as int),
{
    let n: usize = s.len();
    let left: usize = n - i;
    if left >= 3 && s[i] == '1' && s[i + 1] == '-' && s[i + 2] == '0' {
        Some(GameResult::WhiteWins)
    } else if left >= 3 && s[i] == '0' && s[i + 1] == '-' && s[i + 2] == '1' {
        Some(GameResult::BlackWins)
    } else if left >= 7 && s[i] == '1' && s[i + 1] == '/' && s[i + 2] == '2' && s[i + 3] == '-'
        && s[i + 4] == '1' && s[i + 5] == '/' && s[i + 6] == '2' {
        Some(GameResult::Draw)
    } else {
        None
    }
}

/// The outcome of the game that a transcript records: what its last result
/// marker `1-0`, `0-1` or `1/2-1/2` states, or `Unknown` if it holds none.
pub fn result_of_chars(s: &[char]) -> (r: GameResult)
    ensures
        r == game_result(s@),
{
    let mut n: usize = s.len();
    while n > 0
        invariant
            n <= s@.len(),
            result_before(s@, n as int) == game_result(s@),
        decreases n,
    {
        match read_marker(s, n - 1) {
            Some(r) => {
                return r;
            },
            None => {},
        }
        n = n - 1;
    }
    GameResult::Unknown
}

/// Reads a decimal digit.
fn read_digit(c: char) -> (r: Option<u32>)
    ensures
        match r {
            Some(d) => digit_value(c) == Some(d as int) && d <= 9,
            None => digit_value(c) is None,
        },
{
    if c == '0' {
        Some(0)
    } else if c == '1' {
        Some(1)
    } else if c == '2' {
        Some(2)
    } else if c == '3' {
        Some(3)
    } else if c == '4' {
        Some(4)
    } else if c == '5' {
        Some(5)
    } else if c == '6' {
        Some(6)
    } else if c == '7' {
        Some(7)
    } else if c == '8' {
        Some(8)
    } else if c == '9' {
        Some(9)
    } else {
        None
    }
}

/// A text of digits writes a number that is at least the number that any of
/// its beginnings writes.
pub proof fn digits_value_grows(ds: Seq<char>, k: int)
    requires
        0 <= k <= ds.len(),
    ensures
        0 <= digits_value(ds.take(k)) <= digits_value(ds),
    decreases ds.len() - k,
{
    digits_value_is_natural(ds.take(k));
    if k < ds.len() {
        digits_value_grows(ds, k + 1);
        assert(ds.take(k + 1).drop_last() =~= ds.take(k));
    } else {
        assert(ds.take(k) =~= ds);
    }
}

/// The number that a text writes is not negative.
pub proof fn digits_value_is_natural(ds: Seq<char>)
    ensures
        0 <= digits_value(ds),
    decreases ds.len(),
{
    if ds.len() > 0 {
        digits_value_is_natural(ds.drop_last());
    }
}

/// Reads the move number that a token writes.
pub fn read_move_number(t: &[char]) -> (r: Option<u16>)
    ensures
        r == move_number_of(t@),
{
    let n: usize = t.len();
    if n < 2 || t[n - 1] != '.' {
        return None;
    }
    let ghost ds = t@.drop_last();
    let mut value: u32 = 0;
    let mut i: usize = 0;
    while i < n - 1
        invariant
            n == t@.len(),
            n >= 2,
            ds == t@.drop_last(),
            i <= n - 1,
            value <= u16::MAX,
            value == digits_value(ds.take(i as int)),
            forall|j: int| 0 <= j < i ==> digit_value(#[trigger] ds[j]) is Some,
        decreases n - 1 - i,
    {
        assert(ds.take(i + 1).drop_last() =~= ds.take(i as int));
        assert(ds[i as int] == t@[i as int]);
        match read_digit(t[i]) {
            Some(d) => {
                value = value * 10 + d;
                if value > 65535 {
                    proof {
                        digits_value_grows(ds, i + 1);
                    }
                    return None;
                }
            },
            None => {
                return None;
            },
        }
        i = i + 1;
    }
    assert(ds.take(n - 1) =~= ds);
    Some(value as u16)
}

/// Reads the outcome that a result marker states.
pub fn read_result_token(t: &[char]) -> (r: Option<GameResult>)
    ensures
        r == result_of_token(t@),
{
    let n: usize = t.len();
    if n == 3 && t[0] == '1' && t[1] == '-' && t[2] == '0' {
        assert(t@ =~= seq!['1', '-', '0']);
        Some(GameResult::WhiteWins)
    } else if n == 3 && t[0] == '0' && t[1] == '-' && t[2] == '1' {
        assert(t@ =~= seq!['0', '-', '1']);
        Some(GameResult::BlackWins)
    } else if n == 7 && t[0] == '1' && t[1] == '/' && t[2] == '2' && t[3] == '-' && t[4] == '1'
        && t[5] == '/' && t[6] == '2' {
        assert(t@ =~= seq!['1', '/', '2', '-', '1', '/', '2']);
        Some(GameResult::Draw)
    } else if n == 1 && t[0] == '*' {
        assert(t@ =~= seq!['*']);
        Some(GameResult::Unknown)
    } else {
        None
    }
}

/// Whether a token can be one half of a move.
fn is_half_token(t: &[char]) -> (r: bool)
    ensures
        r == half_token(t@),
{
    read_move_number(t).is_none() && read_result_token(t).is_none()
}

/// One numbered move of a transcript: White's half and, unless the game
/// stopped after it, Black's, each as it is written.
#[derive(Debug, PartialEq, Eq)]
pub struct MoveRecord {
    pub number: u16,
    pub white: String,
    pub black: Option<String>,
}

impl View for MoveRecord {
    type V = RecordText;

    open spec fn view(&self) -> RecordText {
        RecordText {
            number: self.number,
            white: self.white@,
            black: match self.black {
                Some(b) => Some(b@),
                None => None,
            },
        }
    }
}

/// A half of a move that could not be read: where it stands, what is
/// written there, and why that is no move.
#[derive(Debug, PartialEq, Eq)]
pub struct MoveFailure {
    pub number: u16,
    pub turn: Player,
    pub token: String,
    pub error: SanError,
}

impl View for MoveFailure {
    type V = FailureText;

    open spec fn view(&self) -> FailureText {
        FailureText { number: self.number, turn: self.turn, token: self.token@, error: self.error }
    }
}

/// The records that a list holds, as texts.
pub open spec fn records_view(v: Seq<MoveRecord>) -> Seq<RecordText> {
    Seq::new(v.len(), |i: int| v[i]@)
}

/// The failures that a list holds, as texts.
pub open spec fn failures_view(v: Seq<MoveFailure>) -> Seq<FailureText> {
    Seq::new(v.len(), |i: int| v[i]@)
}

/// The text that a character vector holds.
fn text_of_token(t: &Vec<char>) -> (s: String)
    ensures
        s@ == t@,
{
    let s = text_of(t.as_slice(), 0, t.len());
    assert(t@.subrange(0, t@.len() as int) =~= t@);
    s
}

/// Groups tokens under their move numbers.
pub fn records_of_tokens(tokens: &Vec<Vec<char>>) -> (records: Vec<MoveRecord>)
    ensures
        records_view(records@) == records_of(texts_of(tokens@)),
{
    let ghost ts = texts_of(tokens@);
    let n: usize = tokens.len();
    let mut records: Vec<MoveRecord> = Vec::new();
    let mut i: usize = 0;
    assert(ts.skip(0) =~= ts);
    assert(records_view(records@) =~= Seq::<RecordText>::empty());
    while i < n
        invariant
            i <= n == tokens@.len(),
            ts == texts_of(tokens@),
            records_view(records@) + records_of(ts.skip(i as int)) == records_of(ts),
        decreases n - i,
    {
        let ghost before = records_view(records@);
        let ghost rest = ts.skip(i as int);
        proof {
            assert(rest[0] == tokens@[i as int]@);
            if i + 1 < n {
                assert(rest[1] == tokens@[i + 1]@);
            }
            if i + 2 < n {
                assert(rest[2] == tokens@[i + 2]@);
            }
        }
        let number = read_move_number(tokens[i].as_slice());
        let mut step: usize = 1;
        if let Some(k) = number {
            if i + 1 < n && is_half_token(tokens[i + 1].as_slice()) {
                let white = text_of_token(&tokens[i + 1]);
                let black = if i + 2 < n && is_half_token(tokens[i + 2].as_slice()) {
                    step = 3;
                    Some(text_of_token(&tokens[i + 2]))
                } else {
                    step = 2;
                    None
                };
                let record = MoveRecord { number: k, white, black };
                let ghost added = record@;
                records.push(record);
                proof {
                    assert(records_view(records@) =~= before + seq![added]);
                    assert(rest.skip(step as int) =~= ts.skip(i + step));
                    assert(records_of(rest) == seq![added] + records_of(ts.skip(i + step)));
                    assert((before + seq![added]) + records_of(ts.skip(i + step)) =~= before + (
                    seq![added] + records_of(ts.skip(i + step))));
                }
            }
        }
        proof {
            if step == 1 {
                assert(rest.skip(1) =~= ts.skip(i + 1));
            }
        }
        i = i + step;
    }
    assert(records_view(records@) + Seq::<RecordText>::empty() =~= records_view(records@));
    records
}

/// Reads the halves of the records as moves. The moves that could be read
/// come first, in order; the halves that are no moves come second, in order,
/// each with the reason. A half that is no move does not stop the reading.
pub fn read_moves(records: &Vec<MoveRecord>) -> (r: (Vec<Move>, Vec<MoveFailure>))
    ensures
        r.0@ == moves_of(records_view(records@)),
        failures_view(r.1@) == failures_of(records_view(records@)),
{
    let ghost rs = records_view(records@);
    let mut moves: Vec<Move> = Vec::new();
    let mut failures: Vec<MoveFailure> = Vec::new();
    let mut i: usize = 0;
    assert(rs.take(0) =~= Seq::<RecordText>::empty());
    assert(failures_view(failures@) =~= Seq::<FailureText>::empty());
    while i < records.len()
        invariant
            i <= records@.len(),
            rs == records_view(records@),
            moves@ == moves_of(rs.take(i as int)),
            failures_view(failures@) == failures_of(rs.take(i as int)),
        decreases records@.len() - i,
    {
        let record = &records[i];
        let ghost moves_before = moves@;
        let ghost failures_before = failures_view(failures@);
        proof {
            assert(rs.take(i + 1).drop_last() =~= rs.take(i as int));
            assert(rs.take(i + 1).last() == record@);
        }
        match PNGMove::parse(record.white.as_str(), Player::White) {
            Ok(m) => {
                moves.push(m);
            },
            Err(e) => {
                failures.push(
                    MoveFailure {
                        number: record.number,
                        turn: Player::White,
                        token: record.white.clone(),
                        error: e,
                    },
                );
            },
        }
        if let Some(b) = &record.black {
            match PNGMove::parse(b.as_str(), Player::Black) {
                Ok(m) => {
                    moves.push(m);
                },
                Err(e) => {
                    failures.push(
                        MoveFailure {
                            number: record.number,
                            turn: Player::Black,
                            token: b.clone(),
                            error: e,
                        },
                    );
                },
            }
        }
        proof {
            assert(moves@ =~= moves_before + record_moves(record@));
            assert(failures_view(failures@) =~= failures_before + record_failures(record@));
        }
        i = i + 1;
    }
    assert(rs.take(records@.len() as int) =~= rs);
    (moves, failures)
}

/// Every half of a record that is a move is among the moves of the list,
/// whatever the other halves are.
pub proof fn good_halves_are_kept(rs: Seq<RecordText>, i: int)
    requires
        0 <= i < rs.len(),
    ensures
        san_move(rs[i].white, Player::White) matches Ok(m) ==> moves_of(rs).contains(m),
        rs[i].black matches Some(b) ==> (san_move(b, Player::Black) matches Ok(m) ==> moves_of(
            rs,
        ).contains(m)),
    decreases rs.len(),
{
    let front = moves_of(rs.drop_last());
    let here = record_moves(rs.last());
    if i == rs.len() - 1 {
        if let Ok(m) = san_move(rs[i].white, Player::White) {
            assert(here[0] == m);
            assert((front + here)[front.len() as int] == m);
        }
        if let Some(b) = rs[i].black {
            if let Ok(m) = san_move(b, Player::Black) {
                assert(here.last() == m);
                assert((front + here)[front.len() + here.len() - 1] == m);
            }
        }
    } else {
        good_halves_are_kept(rs.drop_last(), i);
        assert(rs.drop_last()[i] == rs[i]);
        if let Ok(m) = san_move(rs[i].white, Player::White) {
            let k = choose|k: int| 0 <= k < front.len() && front[k] == m;
            assert((front + here)[k] == m);
        }
        if let Some(b) = rs[i].black {
            if let Ok(m) = san_move(b, Player::Black) {
                let k = choose|k: int| 0 <= k < front.len() && front[k] == m;
                assert((front + here)[k] == m);
            }
        }
    }
}

/// The moves of two lists of records, one after the other, are the moves of
/// the first and then those of the second: what one record holds changes
/// nothing in the moves of the others.
pub proof fn moves_of_concat(a: Seq<RecordText>, b: Seq<RecordText>)
    ensures
        moves_of(a + b) == moves_of(a) + moves_of(b),
        failures_of(a + b) == failures_of(a) + failures_of(b),
    decreases b.len(),
{
    if b.len() == 0 {
        assert(a + b =~= a);
        assert(moves_of(a) + moves_of(b) =~= moves_of(a));
        assert(failures_of(a) + failures_of(b) =~= failures_of(a));
    } else {
        moves_of_concat(a, b.drop_last());
        assert((a + b).drop_last() =~= a + b.drop_last());
        assert((a + b).last() == b.last());
        assert(moves_of(a + b) =~= moves_of(a) + moves_of(b));
        assert(failures_of(a + b) =~= failures_of(a) + failures_of(b));
    }
}

/// Every half of every record is either among the moves or among the
/// failures: none is lost.
pub proof fn halves_are_counted(rs: Seq<RecordText>)
    ensures
        moves_of(rs).len() + failures_of(rs).len() == halves_in(rs),
    decreases rs.len(),
{
    if rs.len() > 0 {
        halves_are_counted(rs.drop_last());
    }
}

/// The number of halves that a list of records holds.
pub open spec fn halves_in(rs: Seq<RecordText>) -> int
    decreases rs.len(),
{
    if rs.len() == 0 {
        0
    } else {
        halves_in(rs.drop_last()) + if rs.last().black is Some {
            2int
        } else {
            1int
        }
    }
}

} // verus!
