//! Texts as sequences of characters.

use vstd::prelude::*;
use vstd::slice::{slice_subrange, slice_to_vec};
use vstd::string::*;
use vstd::std_specs::iter::IteratorSpec;

verus! {

/// `String::push` of the standard library, for which vstd has no
/// specification. This is believed, not proved: after the call the string
/// holds the characters that it held before, in the same order, and the
/// character `c` after them. It is what the documentation of `push` says:
/// the given character is appended to the end of the string.
pub assume_specification[ String::push ](s: &mut String, c: char)
    ensures
        final(s)@ == old(s)@.push(c),
;

/// Whether a character is white space: a blank, a tab, a line feed, a
/// carriage return, a vertical tab or a form feed.
pub open spec fn space(c: char) -> bool {
    c == ' ' || c == '\t' || c == '\n' || c == '\r' || c == '\x0b' || c == '\x0c'
}

/// Whether a character is white space.
pub fn is_space(c: char) -> (r: bool)
    ensures
        r == space(c),
{
    c == ' ' || c == '\t' || c == '\n' || c == '\r' || c == '\x0b' || c == '\x0c'
}

/// The text without the white space at its end.
pub open spec fn trim_end(t: Seq<char>) -> Seq<char>
    decreases t.len(),
{
    if t.len() > 0 && space(t.last()) {
        trim_end(t.drop_last())
    } else {
        t
    }
}

/// The text without the white space at its start.
pub open spec fn trim_start(t: Seq<char>) -> Seq<char>
    decreases t.len(),
{
    if t.len() > 0 && space(t[0]) {
        trim_start(t.skip(1))
    } else {
        t
    }
}

/// The text without the white space at its start and at its end.
pub open spec fn trim(t: Seq<char>) -> Seq<char> {
    trim_end(trim_start(t))
}

/// The place of the first `c` in a text, or the text's length if `c` does
/// not occur in it.
pub open spec fn index_of(t: Seq<char>, c: char) -> int
    decreases t.len(),
{
    if t.len() == 0 || t[0] == c {
        0
    } else {
        1 + index_of(t.skip(1), c)
    }
}

/// `index_of` gives a place within the text or its length; no character
/// before that place is `c`, and the character at that place is `c`.
pub proof fn index_of_is_first(t: Seq<char>, c: char)
    ensures
        0 <= index_of(t, c) <= t.len(),
        forall|k: int| 0 <= k < index_of(t, c) ==> t[k] != c,
        index_of(t, c) < t.len() ==> t[index_of(t, c)] == c,
    decreases t.len(),
{
    if t.len() > 0 && t[0] != c {
        index_of_is_first(t.skip(1), c);
        assert forall|k: int| 0 <= k < index_of(t, c) implies t[k] != c by {
            if k > 0 {
                assert(t.skip(1)[k - 1] == t[k]);
            }
        }
    }
}

/// A text without white space at its ends starts and ends with a character
/// that is no white space, and is a part of the text it was made from.
pub proof fn trim_is_tight(t: Seq<char>)
    ensures
        trim(t).len() > 0 ==> !space(trim(t).first()) && !space(trim(t).last()),
        trim(t).len() <= t.len(),
{
    trim_start_is_suffix(t);
    trim_end_is_prefix(trim_start(t));
}

/// What `trim_start` leaves is the end of the text, it does not start with
/// white space, and all that it left out is white space.
pub proof fn trim_start_is_suffix(t: Seq<char>)
    ensures
        trim_start(t).len() <= t.len(),
        trim_start(t) == t.skip(t.len() - trim_start(t).len()),
        trim_start(t).len() > 0 ==> !space(trim_start(t)[0]),
        forall|k: int| 0 <= k < t.len() - trim_start(t).len() ==> space(t[k]),
    decreases t.len(),
{
    if t.len() > 0 && space(t[0]) {
        let rest = t.skip(1);
        trim_start_is_suffix(rest);
        let d = rest.len() - trim_start(rest).len();
        assert(rest.skip(d) =~= t.skip(d + 1));
        assert forall|k: int| 0 <= k < t.len() - trim_start(t).len() implies space(t[k]) by {
            if k > 0 {
                assert(rest[k - 1] == t[k]);
            }
        }
    } else {
        assert(t.skip(0) =~= t);
    }
}

/// What `trim_end` leaves is the start of the text, it does not end with
/// white space, and all that it left out is white space.
pub proof fn trim_end_is_prefix(t: Seq<char>)
    ensures
        trim_end(t).len() <= t.len(),
        trim_end(t) == t.take(trim_end(t).len() as int),
        trim_end(t).len() > 0 ==> !space(trim_end(t).last()),
        trim_end(t).len() > 0 ==> trim_end(t)[0] == t[0],
        forall|k: int| trim_end(t).len() <= k < t.len() ==> space(t[k]),
    decreases t.len(),
{
    if t.len() > 0 && space(t.last()) {
        let front = t.drop_last();
        trim_end_is_prefix(front);
        assert(front.take(trim_end(front).len() as int) =~= t.take(trim_end(front).len() as int));
        assert forall|k: int| trim_end(t).len() <= k < t.len() implies space(t[k]) by {
            if k < front.len() {
                assert(front[k] == t[k]);
            }
        }
    } else {
        assert(t.take(t.len() as int) =~= t);
    }
}

/// The length of the text `t[..end]` without the white space at its end.
pub fn trimmed_len(t: &[char], end: usize) -> (n: usize)
    requires
        end <= t@.len(),
    ensures
        n <= end,
        t@.take(n as int) == trim_end(t@.take(end as int)),
{
    let mut n: usize = end;
    while n > 0 && is_space(t[n - 1])
        invariant
            n <= end <= t@.len(),
            trim_end(t@.take(n as int)) == trim_end(t@.take(end as int)),
        decreases n,
    {
        assert(t@.take(n as int).drop_last() =~= t@.take(n - 1));
        n = n - 1;
    }
    n
}

/// The place in `t` at which `t[from..]` without the white space at its
/// start begins.
pub fn trimmed_start(t: &[char], from: usize) -> (n: usize)
    requires
        from <= t@.len(),
    ensures
        from <= n <= t@.len(),
        t@.skip(n as int) == trim_start(t@.skip(from as int)),
        n < t@.len() ==> !space(t@[n as int]),
{
    let mut n: usize = from;
    while n < t.len() && is_space(t[n])
        invariant
            from <= n <= t@.len(),
            trim_start(t@.skip(n as int)) == trim_start(t@.skip(from as int)),
        decreases t@.len() - n,
    {
        assert(t@.skip(n as int).skip(1) =~= t@.skip(n + 1));
        n = n + 1;
    }
    n
}

/// The part of a text without the white space at its start and its end.
pub fn trimmed(t: &[char]) -> (r: &[char])
    ensures
        r@ == trim(t@),
{
    let a: usize = trimmed_start(t, 0);
    let rest = slice_subrange(t, a, t.len());
    assert(rest@ =~= t@.skip(a as int));
    assert(t@.skip(0) =~= t@);
    let n: usize = trimmed_len(rest, rest.len());
    assert(rest@.take(rest@.len() as int) =~= rest@);
    let r = slice_subrange(rest, 0, n);
    assert(r@ =~= rest@.take(n as int));
    r
}

/// The place of the first `c` in `t[from..]`, counted from the start of `t`,
/// or the length of `t` if there is none.
pub fn find(t: &[char], from: usize, c: char) -> (n: usize)
    requires
        from <= t@.len(),
    ensures
        from <= n <= t@.len(),
        n - from == index_of(t@.skip(from as int), c),
{
    let mut n: usize = from;
    while n < t.len() && t[n] != c
        invariant
            from <= n <= t@.len(),
            index_of(t@.skip(from as int), c) == (n - from) + index_of(t@.skip(n as int), c),
        decreases t@.len() - n,
    {
        assert(t@.skip(n as int).skip(1) =~= t@.skip(n + 1));
        n = n + 1;
    }
    n
}

/// The number of characters at the start of a text that are no white space.
pub open spec fn word_len(t: Seq<char>) -> int
    decreases t.len(),
{
    if t.len() > 0 && !space(t[0]) {
        1 + word_len(t.skip(1))
    } else {
        0
    }
}

/// The tokens of a text: its parts without white space, in order, which
/// white space separates.
pub open spec fn tokens_of(s: Seq<char>) -> Seq<Seq<char>>
    decreases s.len(),
{
    let r = trim_start(s);
    let w = word_len(r);
    if 0 < w <= r.len() <= s.len() {
        seq![r.take(w)] + tokens_of(r.skip(w))
    } else {
        Seq::empty()
    }
}

/// A word is as long as the text at most, holds no white space, and ends at
/// white space or at the end of the text.
pub proof fn word_len_is_first_space(t: Seq<char>)
    ensures
        0 <= word_len(t) <= t.len(),
        forall|k: int| 0 <= k < word_len(t) ==> !space(t[k]),
        word_len(t) < t.len() ==> space(t[word_len(t)]),
        t.len() > 0 && !space(t[0]) ==> word_len(t) > 0,
    decreases t.len(),
{
    if t.len() > 0 && !space(t[0]) {
        word_len_is_first_space(t.skip(1));
        assert forall|k: int| 0 <= k < word_len(t) implies !space(t[k]) by {
            if k > 0 {
                assert(t.skip(1)[k - 1] == t[k]);
            }
        }
    }
}

/// Whether a text is a word: it is not empty and holds no white space.
pub open spec fn word(t: Seq<char>) -> bool {
    t.len() > 0 && forall|k: int| 0 <= k < t.len() ==> !space(#[trigger] t[k])
}

/// Every token is a word, and a text of white space alone has no tokens.
pub proof fn tokens_are_words(s: Seq<char>)
    ensures
        forall|i: int| 0 <= i < tokens_of(s).len() ==> word(#[trigger] tokens_of(s)[i]),
        trim_start(s).len() == 0 <==> tokens_of(s).len() == 0,
    decreases s.len(),
{
    let r = trim_start(s);
    let w = word_len(r);
    trim_start_is_suffix(s);
    word_len_is_first_space(r);
    if 0 < w <= r.len() <= s.len() {
        let first = r.take(w);
        let rest = tokens_of(r.skip(w));
        tokens_are_words(r.skip(w));
        assert(word(first)) by {
            assert forall|k: int| 0 <= k < first.len() implies !space(#[trigger] first[k]) by {
                assert(first[k] == r[k]);
            }
        }
        assert forall|i: int| 0 <= i < tokens_of(s).len() implies word(
            #[trigger] tokens_of(s)[i],
        ) by {
            if i > 0 {
                assert(tokens_of(s)[i] == rest[i - 1]);
            }
        }
    }
}

/// The place in `t` at which the word that starts at `from` ends.
pub fn word_end(t: &[char], from: usize) -> (n: usize)
    requires
        from <= t@.len(),
    ensures
        from <= n <= t@.len(),
        n - from == word_len(t@.skip(from as int)),
{
    let mut n: usize = from;
    while n < t.len() && !is_space(t[n])
        invariant
            from <= n <= t@.len(),
            word_len(t@.skip(from as int)) == (n - from) + word_len(t@.skip(n as int)),
        decreases t@.len() - n,
    {
        assert(t@.skip(n as int).skip(1) =~= t@.skip(n + 1));
        n = n + 1;
    }
    n
}

/// The texts that a list of character vectors holds.
pub open spec fn texts_of(v: Seq<Vec<char>>) -> Seq<Seq<char>> {
    Seq::new(v.len(), |i: int| v[i]@)
}

/// Cuts a text into its tokens.
pub fn split_tokens(text: &[char]) -> (tokens: Vec<Vec<char>>)
    ensures
        texts_of(tokens@) == tokens_of(text@),
{
    let mut tokens: Vec<Vec<char>> = Vec::new();
    let n: usize = text.len();
    let mut pos: usize = 0;
    assert(text@.skip(0) =~= text@);
    assert(texts_of(tokens@) =~= Seq::<Seq<char>>::empty());
    loop
        invariant
            pos <= n == text@.len(),
            texts_of(tokens@) + tokens_of(text@.skip(pos as int)) == tokens_of(text@),
        ensures
            texts_of(tokens@) == tokens_of(text@),
        decreases n - pos,
    {
        let ghost before = texts_of(tokens@);
        let ghost rest = text@.skip(pos as int);
        let a: usize = trimmed_start(text, pos);
        if a >= n {
            proof {
                assert(trim_start(rest).len() == 0);
                assert(tokens_of(rest) =~= Seq::<Seq<char>>::empty());
                assert(before + Seq::<Seq<char>>::empty() =~= before);
            }
            break;
        }
        let e: usize = word_end(text, a);
        let token = slice_to_vec(slice_subrange(text, a, e));
        proof {
            let r = text@.skip(a as int);
            word_len_is_first_space(r);
            assert(r[0] == text@[a as int]);
            assert(r.take(e - a) =~= text@.subrange(a as int, e as int));
            assert(r.skip(e - a) =~= text@.skip(e as int));
        }
        tokens.push(token);
        proof {
            assert(texts_of(tokens@) =~= before + seq![token@]);
            assert((before + seq![token@]) + tokens_of(text@.skip(e as int)) =~= before + (seq![
                token@,
            ] + tokens_of(text@.skip(e as int))));
        }
        pos = e;
    }
    tokens
}

/// The characters of a text, in order.
pub fn chars_of(s: &str) -> (v: Vec<char>)
    ensures
        v@ == s@,
{
    let mut v: Vec<char> = Vec::new();
    let mut it = s.chars();
    let ghost mut n: int = 0;
    loop
        invariant
            0 <= n <= s@.len(),
            v@ == s@.take(n),
            it.remaining() == s@.skip(n),
            it.obeys_prophetic_iter_laws(),
            it.decrease() is Some,
        ensures
            v@ == s@,
        decreases it.decrease()->0,
    {
        match it.next() {
            Some(c) => {
                v.push(c);
                proof { n = n + 1; }
            },
            None => {
                assert(s@.skip(n).len() == 0);
                assert(s@.take(n) =~= s@);
                break;
            },
        }
    }
    v
}

/// The text made of the characters `cs[from..to]`.
pub fn text_of(cs: &[char], from: usize, to: usize) -> (s: String)
    requires
        from <= to <= cs@.len(),
    ensures
        s@ == cs@.subrange(from as int, to as int),
{
    let mut s = String::new();
    let mut i: usize = from;
    while i < to
        invariant
            from <= i <= to <= cs@.len(),
            s@ == cs@.subrange(from as int, i as int),
        decreases to - i,
    {
        s.push(cs[i]);
        i = i + 1;
    }
    s
}

} // verus!
