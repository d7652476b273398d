//! Game records: tag lines and move text.
//!
//! A transcript is read in stages, each a spec function on sequences of
//! characters: the text is cut into lines; the tag lines give the tags and
//! the other lines, joined by blanks, give the move text; the move text is
//! cut into tokens; the tokens are grouped under their move numbers; each
//! half of a group is read as a move. The outcome of the game is the last
//! result marker in the transcript.

use vstd::prelude::*;
use vstd::slice::{slice_subrange, slice_to_vec};
use vstd::string::*;
use crate::game::{Game, GameResult, GameText, Move, Player};
use crate::movetext::{
    FailureText, MoveFailure, MoveRecord, failures_of, failures_view, game_result,
    good_halves_are_kept, halves_are_counted, halves_in, moves_of, read_moves, records_of,
    records_of_tokens, records_view, result_of_chars,
};
use crate::san::san_move;
use crate::tags::{TagPair, Tags, pairs_map};
use crate::text::{
    chars_of, find, index_of, index_of_is_first, split_tokens, text_of, texts_of, tokens_of,
    trim, trimmed,
};

verus! {

/// Why a transcript could not be read.
#[derive(PartialEq, Eq, Structural, Debug, Copy, Clone)]
pub enum ParseError {
    /// A tag line, the one with this number counted from 1, holds no value in
    /// double quotes.
    MalformedTag { line: usize },
}

/// The text without the carriage return at its end, if it has one.
pub open spec fn without_return(l: Seq<char>) -> Seq<char> {
    if l.len() > 0 && l.last() == '\r' {
        l.drop_last()
    } else {
        l
    }
}

/// The lines of a text. A line ends at a line feed, or at a carriage return
/// directly followed by a line feed; the text's end closes the last line, and
/// no empty line follows the last line feed.
pub open spec fn lines_of(s: Seq<char>) -> Seq<Seq<char>>
    decreases s.len(),
{
    if s.len() == 0 {
        Seq::empty()
    } else {
        let e = index_of(s, '\n');
        if 0 <= e < s.len() {
            seq![without_return(s.take(e))] + lines_of(s.skip(e + 1))
        } else {
            seq![s]
        }
    }
}

/// No line holds a line feed, and a text without a line feed is its own only
/// line.
pub proof fn lines_hold_no_line_feed(s: Seq<char>)
    ensures
        forall|i: int, k: int|
            0 <= i < lines_of(s).len() && 0 <= k < lines_of(s)[i].len() ==> #[trigger] lines_of(
                s,
            )[i][k] != '\n',
        s.len() > 0 && index_of(s, '\n') == s.len() ==> lines_of(s) == seq![s],
        s.len() == 0 <==> lines_of(s).len() == 0,
    decreases s.len(),
{
    index_of_is_first(s, '\n');
    if s.len() > 0 {
        let e = index_of(s, '\n');
        if e < s.len() {
            let first = without_return(s.take(e));
            let rest = lines_of(s.skip(e + 1));
            lines_hold_no_line_feed(s.skip(e + 1));
            assert forall|i: int, k: int|
                0 <= i < lines_of(s).len() && 0 <= k < lines_of(s)[i].len() implies #[trigger] lines_of(
                s,
            )[i][k] != '\n' by {
                if i == 0 {
                    assert(lines_of(s)[0] == first);
                    assert(first[k] == s[k]);
                } else {
                    assert(lines_of(s)[i] == rest[i - 1]);
                }
            }
        }
    }
}

/// Whether a line holds nothing but white space.
pub open spec fn blank(l: Seq<char>) -> bool {
    trim(l).len() == 0
}

/// Whether a line is a tag line: apart from white space around it, it
/// starts with `[` and ends with `]`.
pub open spec fn tag_line(l: Seq<char>) -> bool {
    let t = trim(l);
    t.len() >= 2 && t.first() == '[' && t.last() == ']'
}

/// The name and the value of a tag line. The value is what stands between
/// the first double quote and the next one; the name is what stands between
/// the opening bracket and the first double quote, without the white space
/// around it. A line without two double quotes between its brackets has no
/// value.
pub open spec fn tag_of(l: Seq<char>) -> Option<TagPair> {
    let t = trim(l);
    if tag_line(l) {
        let inner = t.subrange(1, t.len() - 1);
        let open = index_of(inner, '"');
        if 0 <= open < inner.len() {
            let after = inner.skip(open + 1);
            let close = index_of(after, '"');
            if 0 <= close < after.len() {
                Some((trim(inner.take(open)), after.take(close)))
            } else {
                None
            }
        } else {
            None
        }
    } else {
        None
    }
}

/// Whether a line is a tag line without a value.
pub open spec fn malformed_tag(l: Seq<char>) -> bool {
    tag_line(l) && tag_of(l) is None
}

/// Whether `k` is the place of the first tag line without a value.
pub open spec fn first_malformed(lines: Seq<Seq<char>>, k: int) -> bool {
    &&& 0 <= k < lines.len()
    &&& malformed_tag(lines[k])
    &&& forall|j: int| 0 <= j < k ==> !malformed_tag(lines[j])
}

/// Whether no line is a tag line without a value.
pub open spec fn well_tagged(lines: Seq<Seq<char>>) -> bool {
    forall|j: int| 0 <= j < lines.len() ==> !malformed_tag(lines[j])
}

/// The tags of the tag lines that have a value, in the order of the lines.
pub open spec fn tag_pairs(lines: Seq<Seq<char>>) -> Seq<TagPair>
    decreases lines.len(),
{
    if lines.len() == 0 {
        Seq::empty()
    } else {
        let front = tag_pairs(lines.drop_last());
        match tag_of(lines.last()) {
            Some(pair) => front.push(pair),
            None => front,
        }
    }
}

/// The move text: the lines that are neither blank nor tag lines, in the
/// order of the lines, with one blank between each two of them.
pub open spec fn move_text(lines: Seq<Seq<char>>) -> Seq<char>
    decreases lines.len(),
{
    if lines.len() == 0 {
        Seq::empty()
    } else {
        let front = move_text(lines.drop_last());
        let l = lines.last();
        if blank(l) || tag_line(l) {
            front
        } else if front.len() == 0 {
            l
        } else {
            front + seq![' '] + l
        }
    }
}

/// Cuts a text into its lines.
pub fn split_lines(text: &[char]) -> (lines: Vec<Vec<char>>)
    ensures
        texts_of(lines@) == lines_of(text@),
{
    let mut lines: Vec<Vec<char>> = Vec::new();
    let n: usize = text.len();
    let mut pos: usize = 0;
    assert(text@.skip(0) =~= text@);
    assert(texts_of(lines@) =~= Seq::<Seq<char>>::empty());
    while pos < n
        invariant
            pos <= n == text@.len(),
            texts_of(lines@) + lines_of(text@.skip(pos as int)) == lines_of(text@),
        decreases n - pos,
    {
        let ghost rest = text@.skip(pos as int);
        let ghost before = texts_of(lines@);
        let e: usize = find(text, pos, '\n');
        if e < n {
            let end: usize = if e > pos && text[e - 1] == '\r' {
                e - 1
            } else {
                e
            };
            let line = slice_to_vec(slice_subrange(text, pos, end));
            proof {
                assert(rest.take(e - pos) =~= text@.subrange(pos as int, e as int));
                assert(line@ =~= without_return(rest.take(e - pos)));
                assert(rest.skip(e - pos + 1) =~= text@.skip(e + 1));
            }
            lines.push(line);
            proof {
                assert(texts_of(lines@) =~= before + seq![line@]);
                assert((before + seq![line@]) + lines_of(text@.skip(e + 1)) =~= before + (seq![
                    line@,
                ] + lines_of(text@.skip(e + 1))));
            }
            pos = e + 1;
        } else {
            let line = slice_to_vec(slice_subrange(text, pos, n));
            proof {
                assert(line@ =~= rest);
                assert(text@.skip(n as int).len() == 0);
            }
            lines.push(line);
            proof {
                assert(texts_of(lines@) =~= before + seq![line@]);
                assert(lines_of(text@.skip(n as int)) =~= Seq::<Seq<char>>::empty());
                assert(before + seq![line@] + Seq::<Seq<char>>::empty() =~= before + seq![line@]);
            }
            pos = n;
        }
    }
    assert(texts_of(lines@) + Seq::<Seq<char>>::empty() =~= texts_of(lines@));
    lines
}

/// Whether a line is a tag line.
pub fn is_tag_line(line: &[char]) -> (r: bool)
    ensures
        r == tag_line(line@),
{
    let t = trimmed(line);
    let n: usize = t.len();
    n >= 2 && t[0] == '[' && t[n - 1] == ']'
}

/// Reads the name and the value of a tag line, if it has a value.
pub fn read_tag(line: &[char]) -> (r: Option<(String, String)>)
    ensures
        match r {
            Some(pair) => tag_of(line@) == Some((pair.0@, pair.1@)),
            None => tag_of(line@) is None,
        },
{
    let t = trimmed(line);
    let n: usize = t.len();
    if !(n >= 2 && t[0] == '[' && t[n - 1] == ']') {
        return None;
    }
    let inner = slice_subrange(t, 1, n - 1);
    let m: usize = inner.len();
    assert(inner@.skip(0) =~= inner@);
    let open: usize = find(inner, 0, '"');
    if open >= m {
        return None;
    }
    let close: usize = find(inner, open + 1, '"');
    if close >= m {
        return None;
    }
    let name = trimmed(slice_subrange(inner, 0, open));
    let value = slice_subrange(inner, open + 1, close);
    proof {
        let after = inner@.skip(open + 1);
        assert(inner@.subrange(0, open as int) =~= inner@.take(open as int));
        assert(value@ =~= after.take(close - (open + 1)));
    }
    let name_text = text_of(name, 0, name.len());
    let value_text = text_of(value, 0, value.len());
    assert(name@.subrange(0, name@.len() as int) =~= name@);
    assert(value@.subrange(0, value@.len() as int) =~= value@);
    Some((name_text, value_text))
}

/// Appends the characters of `s` to `v`.
fn append_chars(v: &mut Vec<char>, s: &[char])
    ensures
        final(v)@ == old(v)@ + s@,
{
    let mut i: usize = 0;
    assert(v@ =~= old(v)@ + s@.take(0));
    while i < s.len()
        invariant
            i <= s@.len(),
            v@ == old(v)@ + s@.take(i as int),
        decreases s@.len() - i,
    {
        v.push(s[i]);
        assert(s@.take(i + 1) =~= s@.take(i as int).push(s@[i as int]));
        assert(v@ =~= old(v)@ + s@.take(i + 1));
        i = i + 1;
    }
    assert(s@.take(s@.len() as int) =~= s@);
}

/// Reads the lines of a transcript: the tags of its tag lines and its move
/// text. The first tag line without a value in double quotes stops the
/// reading, and its number is the error.
pub fn format_lines(lines: &Vec<Vec<char>>) -> (r: Result<(Vec<char>, Tags), ParseError>)
    ensures
        match r {
            Ok(parts) => {
                &&& well_tagged(texts_of(lines@))
                &&& parts.0@ == move_text(texts_of(lines@))
                &&& parts.1@ == pairs_map(tag_pairs(texts_of(lines@)))
            },
            Err(e) => exists|k: int|
                first_malformed(texts_of(lines@), k) && e == (ParseError::MalformedTag {
                    line: (k + 1) as usize,
                }),
        },
{
    let ghost all = texts_of(lines@);
    let mut tags = Tags::new();
    let mut moves: Vec<char> = Vec::new();
    let mut i: usize = 0;
    assert(all.take(0) =~= Seq::<Seq<char>>::empty());
    while i < lines.len()
        invariant
            i <= lines@.len(),
            all == texts_of(lines@),
            forall|j: int| 0 <= j < i ==> !malformed_tag(all[j]),
            moves@ == move_text(all.take(i as int)),
            tags@ == pairs_map(tag_pairs(all.take(i as int))),
        decreases lines@.len() - i,
    {
        let line = lines[i].as_slice();
        let ghost front = all.take(i as int);
        proof {
            assert(all.take(i + 1).drop_last() =~= front);
            assert(all.take(i + 1).last() == line@);
        }
        if is_tag_line(line) {
            match read_tag(line) {
                Some(pair) => {
                    let ghost before = tag_pairs(front);
                    let ghost added = (pair.0@, pair.1@);
                    tags.insert(pair.0, pair.1);
                    proof {
                        assert(before.push(added).drop_last() =~= before);
                    }
                },
                None => {
                    assert(first_malformed(all, i as int));
                    return Err(ParseError::MalformedTag { line: i + 1 });
                },
            }
        } else if trimmed(line).len() > 0 {
            if moves.len() > 0 {
                moves.push(' ');
            }
            append_chars(&mut moves, line);
            proof {
                let f = move_text(front);
                if f.len() > 0 {
                    assert(moves@ =~= f + seq![' '] + line@);
                } else {
                    assert(moves@ =~= line@);
                }
            }
        }
        i = i + 1;
    }
    assert(all.take(lines@.len() as int) =~= all);
    Ok((moves, tags))
}

/// What a transcript holds, as mathematical values: the moves that could be
/// read, the tags, the outcome, and the halves that are no moves.
pub ghost struct Reading {
    pub moves: Seq<Move>,
    pub tags: Map<Seq<char>, Seq<char>>,
    pub result: GameResult,
    pub failures: Seq<FailureText>,
}

/// What a transcript holds.
pub open spec fn reading_of(text: Seq<char>) -> Reading {
    let lines = lines_of(text);
    let records = records_of(tokens_of(move_text(lines)));
    Reading {
        moves: moves_of(records),
        tags: pairs_map(tag_pairs(lines)),
        result: game_result(text),
        failures: failures_of(records),
    }
}

/// The game that a transcript records.
pub open spec fn game_of(text: Seq<char>) -> GameText {
    GameText {
        moves: reading_of(text).moves,
        tags: reading_of(text).tags,
        result: reading_of(text).result,
    }
}

/// What was read from a transcript: the game's parts, and the halves of
/// moves that could not be read.
#[derive(Debug, PartialEq, Eq)]
pub struct ParseResult {
    pub moves: Vec<Move>,
    pub tags: Tags,
    pub result: GameResult,
    pub failures: Vec<MoveFailure>,
}

impl View for ParseResult {
    type V = Reading;

    open spec fn view(&self) -> Reading {
        Reading {
            moves: self.moves@,
            tags: self.tags@,
            result: self.result,
            failures: failures_view(self.failures@),
        }
    }
}

/// Whether `e` is the error that a transcript with these lines gives: the
/// number of its first tag line without a value.
pub open spec fn tag_error(lines: Seq<Seq<char>>, e: ParseError) -> bool {
    exists|k: int|
        first_malformed(lines, k) && e == (ParseError::MalformedTag { line: (k + 1) as usize })
}

/// What reading a transcript gives: where every tag line has a value, what
/// the transcript holds; else the number of the first tag line without one.
pub open spec fn parsed(text: Seq<char>, r: Result<ParseResult, ParseError>) -> bool {
    match r {
        Ok(p) => well_tagged(lines_of(text)) && p@ == reading_of(text),
        Err(e) => tag_error(lines_of(text), e),
    }
}

/// What reading a game from a transcript gives: where every tag line has a
/// value, the game that the transcript records; else the number of the first
/// tag line without one.
pub open spec fn game_read(text: Seq<char>, r: Result<Game, ParseError>) -> bool {
    match r {
        Ok(g) => well_tagged(lines_of(text)) && g@ == game_of(text),
        Err(e) => tag_error(lines_of(text), e),
    }
}

/// Reads the characters of a transcript.
pub fn parse_chars(text: &[char]) -> (r: Result<ParseResult, ParseError>)
    ensures
        parsed(text@, r),
        r is Ok <==> well_tagged(lines_of(text@)),
{
    let lines = split_lines(text);
    match format_lines(&lines) {
        Err(e) => Err(e),
        Ok(parts) => {
            let tokens = split_tokens(parts.0.as_slice());
            let records = records_of_tokens(&tokens);
            let halves = read_moves(&records);
            Ok(
                ParseResult {
                    moves: halves.0,
                    tags: parts.1,
                    result: result_of_chars(text),
                    failures: halves.1,
                },
            )
        },
    }
}

/// Reads a transcript: its tags, its moves and its outcome.
///
/// A tag line without a value in double quotes is an error, and nothing is
/// read. A half of a move that is no move is no error: it is listed among
/// the failures, and the reading goes on.
pub fn parse(pgn_data: &str) -> (r: Result<ParseResult, ParseError>)
    ensures
        parsed(pgn_data@, r),
        r is Ok <==> well_tagged(lines_of(pgn_data@)),
{
    let text = chars_of(pgn_data);
    parse_chars(text.as_slice())
}

/// Cuts a transcript into its move text and its tags.
pub fn format(data: &str) -> (r: Result<(String, Tags), ParseError>)
    ensures
        match r {
            Ok(parts) => {
                &&& well_tagged(lines_of(data@))
                &&& parts.0@ == move_text(lines_of(data@))
                &&& parts.1@ == pairs_map(tag_pairs(lines_of(data@)))
            },
            Err(e) => tag_error(lines_of(data@), e),
        },
{
    let text = chars_of(data);
    let lines = split_lines(text.as_slice());
    match format_lines(&lines) {
        Err(e) => Err(e),
        Ok(parts) => {
            let moves = text_of(parts.0.as_slice(), 0, parts.0.len());
            assert(parts.0@.subrange(0, parts.0@.len() as int) =~= parts.0@);
            Ok((moves, parts.1))
        },
    }
}

/// Reads the numbered moves of a move text, each with its halves as they
/// are written.
pub fn parse_moves(data: &str) -> (records: Vec<MoveRecord>)
    ensures
        records_view(records@) == records_of(tokens_of(data@)),
{
    let text = chars_of(data);
    let tokens = split_tokens(text.as_slice());
    records_of_tokens(&tokens)
}

/// Reads the outcome of a game from its transcript: what the last result
/// marker `1-0`, `0-1` or `1/2-1/2` states, or `Unknown` if there is none.
pub fn parse_result(data: &str) -> (r: GameResult)
    ensures
        r == game_result(data@),
{
    let text = chars_of(data);
    result_of_chars(text.as_slice())
}

/// Whether a line is a tag line.
pub fn is_metadata(text: &str) -> (r: bool)
    ensures
        r == tag_line(text@),
{
    let cs = chars_of(text);
    is_tag_line(cs.as_slice())
}

/// A reader that holds the transcript it reads.
#[derive(Debug)]
pub struct PNGParser<'a> {
    data: &'a str,
}

impl<'a> PNGParser<'a> {
    /// The transcript that the reader holds.
    pub closed spec fn text(&self) -> Seq<char> {
        self.data@
    }

    /// A reader of the given transcript.
    pub fn from_str(data: &'a str) -> (p: Self)
        ensures
            p.text() == data@,
    {
        PNGParser { data }
    }

    /// Reads the game. A tag line without a value in double quotes is an
    /// error; a half of a move that is no move is left out of the game.
    pub fn parse(&self) -> (r: Result<Game, ParseError>)
        ensures
            game_read(self.text(), r),
            r is Ok <==> well_tagged(lines_of(self.text())),
    {
        Game::from_string(self.data)
    }

    /// The outcome of the game.
    pub fn get_result(&self) -> (r: GameResult)
        ensures
            r == game_result(self.text()),
    {
        parse_result(self.data)
    }

    /// Whether a line is a tag line.
    pub fn is_metadata(&self, line: &str) -> (r: bool)
        ensures
            r == tag_line(line@),
    {
        is_metadata(line)
    }

    /// Whether a line holds at least one numbered move.
    pub fn is_game_line(&self, line: &str) -> (r: bool)
        ensures
            r == (records_of(tokens_of(line@)).len() > 0),
    {
        let records = parse_moves(line);
        records.len() > 0
    }
}

impl Game {
    /// Reads a game from its transcript. A tag line without a value in
    /// double quotes is an error; a half of a move that is no move is left
    /// out of the game.
    pub fn from_string(data: &str) -> (r: Result<Game, ParseError>)
        ensures
            game_read(data@, r),
            r is Ok <==> well_tagged(lines_of(data@)),
    {
        match parse(data) {
            Ok(p) => Ok(Game { moves: p.moves, tags: p.tags, result: p.result }),
            Err(e) => Err(e),
        }
    }
}

/// At most one line is the first tag line without a value, so a transcript
/// has at most one error.
pub proof fn tag_error_is_unique(lines: Seq<Seq<char>>, a: ParseError, b: ParseError)
    requires
        tag_error(lines, a),
        tag_error(lines, b),
    ensures
        a == b,
        !well_tagged(lines),
{
    let i = choose|k: int|
        first_malformed(lines, k) && a == (ParseError::MalformedTag { line: (k + 1) as usize });
    let j = choose|k: int|
        first_malformed(lines, k) && b == (ParseError::MalformedTag { line: (k + 1) as usize });
    if i < j {
        assert(!malformed_tag(lines[i]));
    }
    if j < i {
        assert(!malformed_tag(lines[j]));
    }
}

/// Reading is a function of the text: two readings of one transcript agree
/// in whether they succeed, in the error, and in every part of what was
/// read.
pub proof fn parsing_is_repeatable(
    text: Seq<char>,
    a: Result<ParseResult, ParseError>,
    b: Result<ParseResult, ParseError>,
)
    requires
        parsed(text, a),
        parsed(text, b),
    ensures
        a is Ok <==> b is Ok,
        a is Ok ==> a->Ok_0@ == b->Ok_0@,
        a is Err ==> a->Err_0 == b->Err_0,
{
    let lines = lines_of(text);
    if a is Err {
        let k = choose|k: int|
            first_malformed(lines, k) && a->Err_0 == (ParseError::MalformedTag {
                line: (k + 1) as usize,
            });
        assert(malformed_tag(lines[k]));
        if b is Err {
            tag_error_is_unique(lines, a->Err_0, b->Err_0);
        }
    } else if b is Err {
        let k = choose|k: int|
            first_malformed(lines, k) && b->Err_0 == (ParseError::MalformedTag {
                line: (k + 1) as usize,
            });
        assert(malformed_tag(lines[k]));
    }
}

/// Two games read from one transcript are equal in their moves, their tags
/// and their outcome; and if one reading fails, the other fails with the same
/// error.
pub proof fn game_reading_is_repeatable(
    text: Seq<char>,
    a: Result<Game, ParseError>,
    b: Result<Game, ParseError>,
)
    requires
        game_read(text, a),
        game_read(text, b),
    ensures
        a is Ok <==> b is Ok,
        a is Ok ==> a->Ok_0@ == b->Ok_0@,
        a is Err ==> a->Err_0 == b->Err_0,
{
    let lines = lines_of(text);
    if a is Err {
        let k = choose|k: int|
            first_malformed(lines, k) && a->Err_0 == (ParseError::MalformedTag {
                line: (k + 1) as usize,
            });
        assert(malformed_tag(lines[k]));
        if b is Err {
            tag_error_is_unique(lines, a->Err_0, b->Err_0);
        }
    } else if b is Err {
        let k = choose|k: int|
            first_malformed(lines, k) && b->Err_0 == (ParseError::MalformedTag {
                line: (k + 1) as usize,
            });
        assert(malformed_tag(lines[k]));
    }
}

/// A half of a move that is no move leaves the rest of the transcript as it
/// is: whatever the halves are, a transcript whose tag lines all have values
/// is read, and every half that is a move is among the moves read.
pub proof fn bad_tokens_do_not_stop_reading(text: Seq<char>, r: Result<ParseResult, ParseError>)
    requires
        parsed(text, r),
        well_tagged(lines_of(text)),
    ensures
        r is Ok,
        r->Ok_0@.moves.len() + r->Ok_0@.failures.len() == halves_in(
            records_of(tokens_of(move_text(lines_of(text)))),
        ),
        forall|i: int|
            0 <= i < records_of(tokens_of(move_text(lines_of(text)))).len() ==> (san_move(
                #[trigger] records_of(tokens_of(move_text(lines_of(text))))[i].white,
                Player::White,
            ) matches Ok(m) ==> r->Ok_0@.moves.contains(m)),
        forall|i: int|
            0 <= i < records_of(tokens_of(move_text(lines_of(text)))).len() ==> (#[trigger] records_of(
                tokens_of(move_text(lines_of(text))),
            )[i].black matches Some(b) ==> (san_move(b, Player::Black) matches Ok(m)
                ==> r->Ok_0@.moves.contains(m))),
{
    let lines = lines_of(text);
    let records = records_of(tokens_of(move_text(lines)));
    if r is Err {
        let k = choose|k: int|
            first_malformed(lines, k) && r->Err_0 == (ParseError::MalformedTag {
                line: (k + 1) as usize,
            });
        assert(malformed_tag(lines[k]));
    }
    halves_are_counted(records);
    assert forall|i: int| 0 <= i < records.len() implies (san_move(
        #[trigger] records[i].white,
        Player::White,
    ) matches Ok(m) ==> r->Ok_0@.moves.contains(m)) by {
        good_halves_are_kept(records, i);
    }
    assert forall|i: int| 0 <= i < records.len() implies (#[trigger] records[i].black matches Some(
        b,
    ) ==> (san_move(b, Player::Black) matches Ok(m) ==> r->Ok_0@.moves.contains(m))) by {
        good_halves_are_kept(records, i);
    }
}

} // verus!
