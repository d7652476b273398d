//! The tags of a game record: a map from tag names to tag values.

use vstd::prelude::*;
use vstd::string::*;

verus! {

/// A tag as a pair of texts: its name and its value.
pub type TagPair = (Seq<char>, Seq<char>);

/// The map that a list of pairs stands for, where a later pair replaces an
/// earlier one of the same name.
pub open spec fn pairs_map(ps: Seq<TagPair>) -> Map<Seq<char>, Seq<char>>
    decreases ps.len(),
{
    if ps.len() == 0 {
        Map::empty()
    } else {
        pairs_map(ps.drop_last()).insert(ps.last().0, ps.last().1)
    }
}

/// No two pairs of the list have the same name.
pub open spec fn distinct_names(ps: Seq<TagPair>) -> bool {
    forall|i: int, j: int| 0 <= i < j < ps.len() ==> ps[i].0 != ps[j].0
}

/// A name is in the map of a list exactly when some pair of the list has it.
pub proof fn pairs_map_names(ps: Seq<TagPair>, name: Seq<char>)
    ensures
        pairs_map(ps).contains_key(name) <==> exists|i: int| 0 <= i < ps.len() && ps[i].0 == name,
    decreases ps.len(),
{
    if ps.len() > 0 {
        let front = ps.drop_last();
        pairs_map_names(front, name);
        if pairs_map(ps).contains_key(name) {
            if ps.last().0 == name {
                assert(ps[ps.len() - 1].0 == name);
            } else {
                let i = choose|i: int| 0 <= i < front.len() && front[i].0 == name;
                assert(ps[i].0 == name);
            }
        }
        if exists|i: int| 0 <= i < ps.len() && ps[i].0 == name {
            let i = choose|i: int| 0 <= i < ps.len() && ps[i].0 == name;
            if i < ps.len() - 1 {
                assert(front[i].0 == name);
            }
        }
    }
}

/// In a list without repeated names, the map holds each pair's value under
/// its name.
pub proof fn pairs_map_value(ps: Seq<TagPair>, i: int)
    requires
        distinct_names(ps),
        0 <= i < ps.len(),
    ensures
        pairs_map(ps).contains_key(ps[i].0),
        pairs_map(ps)[ps[i].0] == ps[i].1,
    decreases ps.len(),
{
    let front = ps.drop_last();
    if i < ps.len() - 1 {
        assert(distinct_names(front)) by {
            assert forall|a: int, b: int| 0 <= a < b < front.len() implies front[a].0 != front[b].0 by {
                assert(ps[a].0 != ps[b].0);
            }
        }
        pairs_map_value(front, i);
        assert(front[i] == ps[i]);
        assert(ps[i].0 != ps[ps.len() - 1].0);
    }
}

/// Replacing the value of one pair replaces the value under its name in the
/// map, where no name is repeated.
pub proof fn pairs_map_update(ps: Seq<TagPair>, i: int, value: Seq<char>)
    requires
        distinct_names(ps),
        0 <= i < ps.len(),
    ensures
        distinct_names(ps.update(i, (ps[i].0, value))),
        pairs_map(ps.update(i, (ps[i].0, value))) == pairs_map(ps).insert(ps[i].0, value),
    decreases ps.len(),
{
    let qs = ps.update(i, (ps[i].0, value));
    assert(distinct_names(qs)) by {
        assert forall|a: int, b: int| 0 <= a < b < qs.len() implies qs[a].0 != qs[b].0 by {
            assert(ps[a].0 != ps[b].0);
        }
    }
    let front = ps.drop_last();
    assert(distinct_names(front)) by {
        assert forall|a: int, b: int| 0 <= a < b < front.len() implies front[a].0 != front[b].0 by {
            assert(ps[a].0 != ps[b].0);
        }
    }
    if i == ps.len() - 1 {
        assert(qs.drop_last() =~= front);
        assert(pairs_map(qs) =~= pairs_map(ps).insert(ps[i].0, value));
    } else {
        pairs_map_update(front, i, value);
        assert(qs.drop_last() =~= front.update(i, (front[i].0, value)));
        assert(ps[i].0 != ps[ps.len() - 1].0);
        assert(qs.last() == ps.last());
        assert(pairs_map(qs) =~= pairs_map(ps).insert(ps[i].0, value));
    }
}

/// A list without repeated names has as many pairs as its map has names.
pub proof fn pairs_map_len(ps: Seq<TagPair>)
    requires
        distinct_names(ps),
    ensures
        pairs_map(ps).dom().finite(),
        pairs_map(ps).dom().len() == ps.len(),
    decreases ps.len(),
{
    if ps.len() > 0 {
        let front = ps.drop_last();
        assert(distinct_names(front)) by {
            assert forall|a: int, b: int| 0 <= a < b < front.len() implies front[a].0 != front[b].0 by {
                assert(ps[a].0 != ps[b].0);
            }
        }
        pairs_map_len(front);
        pairs_map_names(front, ps.last().0);
        if pairs_map(front).contains_key(ps.last().0) {
            let i = choose|i: int| 0 <= i < front.len() && front[i].0 == ps.last().0;
            assert(ps[i].0 == ps[ps.len() - 1].0);
        }
        assert(pairs_map(ps).dom() =~= pairs_map(front).dom().insert(ps.last().0));
    }
}

/// The pairs of texts that a list of pairs of strings holds.
pub open spec fn pairs_of(entries: Seq<(String, String)>) -> Seq<TagPair> {
    Seq::new(entries.len(), |i: int| (entries[i].0@, entries[i].1@))
}

/// The tags of a game record. Each name occurs once; setting a name again
/// replaces its value. Two values of this type compare as equal when they hold
/// the same pairs in the same order.
#[derive(Debug, PartialEq, Eq)]
pub struct Tags {
    entries: Vec<(String, String)>,
}

impl View for Tags {
    type V = Map<Seq<char>, Seq<char>>;

    /// The map from names to values.
    open spec fn view(&self) -> Map<Seq<char>, Seq<char>> {
        pairs_map(self.pairs())
    }
}

impl Tags {
    /// The tags as pairs of name and value, in the order in which the names
    /// were first set.
    pub closed spec fn pairs(&self) -> Seq<TagPair> {
        pairs_of(self.entries@)
    }

    #[verifier::type_invariant]
    spec fn names_are_distinct(&self) -> bool {
        distinct_names(self.pairs())
    }

    /// No tags.
    pub fn new() -> (t: Tags)
        ensures
            t@ == Map::<Seq<char>, Seq<char>>::empty(),
            t.pairs() == Seq::<TagPair>::empty(),
    {
        let t = Tags { entries: Vec::new() };
        assert(t.pairs() =~= Seq::<TagPair>::empty());
        t
    }

    /// The place of a name among the pairs, if it is there.
    fn position(&self, name: &String) -> (r: Option<usize>)
        ensures
            match r {
                Some(i) => i < self.pairs().len() && self.pairs()[i as int].0 == name@,
                None => forall|i: int| 0 <= i < self.pairs().len() ==> self.pairs()[i].0 != name@,
            },
    {
        let mut i: usize = 0;
        while i < self.entries.len()
            invariant
                i <= self.entries@.len(),
                self.pairs().len() == self.entries@.len(),
                forall|j: int| 0 <= j < i ==> self.pairs()[j].0 != name@,
            decreases self.entries@.len() - i,
        {
            if self.entries[i].0 == *name {
                return Some(i);
            }
            i = i + 1;
        }
        None
    }

    /// Sets the value of a name, replacing the value that it had.
    pub fn insert(&mut self, name: String, value: String)
        ensures
            final(self)@ == old(self)@.insert(name@, value@),
            final(self).pairs().len() == old(self).pairs().len() + (if old(self)@.contains_key(
                name@,
            ) {
                0int
            } else {
                1int
            }),
    {
        proof {
            use_type_invariant(&*self);
            pairs_map_names(self.pairs(), name@);
        }
        let ghost before = self.pairs();
        let found = self.position(&name);
        let mut entries: Vec<(String, String)> = Vec::new();
        std::mem::swap(&mut entries, &mut self.entries);
        match found {
            Some(i) => {
                proof {
                    pairs_map_update(before, i as int, value@);
                }
                entries.set(i, (name, value));
                assert(pairs_of(entries@) =~= before.update(
                    i as int,
                    (before[i as int].0, value@),
                ));
            },
            None => {
                entries.push((name, value));
                assert(pairs_of(entries@) =~= before.push((name@, value@)));
                assert(pairs_of(entries@).drop_last() =~= before);
                assert(distinct_names(pairs_of(entries@)));
            },
        }
        self.entries = entries;
    }

    /// The value of a name, if it has one.
    pub fn get(&self, name: &str) -> (r: Option<&String>)
        ensures
            match r {
                Some(v) => self@.contains_key(name@) && v@ == self@[name@],
                None => !self@.contains_key(name@),
            },
    {
        proof {
            use_type_invariant(self);
            pairs_map_names(self.pairs(), name@);
        }
        let key = String::from_str(name);
        match self.position(&key) {
            Some(i) => {
                proof {
                    pairs_map_value(self.pairs(), i as int);
                }
                Some(&self.entries[i].1)
            },
            None => None,
        }
    }

    /// Whether a name has a value.
    pub fn contains_key(&self, name: &str) -> (r: bool)
        ensures
            r == self@.contains_key(name@),
    {
        self.get(name).is_some()
    }

    /// The number of names. No name occurs twice among the pairs, so this is
    /// the number of pairs too.
    pub fn len(&self) -> (n: usize)
        ensures
            n == self@.dom().len(),
            n == self.pairs().len(),
            distinct_names(self.pairs()),
    {
        proof {
            use_type_invariant(self);
            pairs_map_len(self.pairs());
        }
        self.entries.len()
    }

    /// Whether there is no tag.
    pub fn is_empty(&self) -> (r: bool)
        ensures
            r == (self@.dom().len() == 0),
    {
        self.len() == 0
    }

    /// The name and the value of the pair at place `i`, in the order in which
    /// the names were first set.
    pub fn entry(&self, i: usize) -> (r: (&String, &String))
        requires
            i < self.pairs().len(),
        ensures
            (r.0@, r.1@) == self.pairs()[i as int],
            self@.contains_key(r.0@),
            self@[r.0@] == r.1@,
    {
        proof {
            use_type_invariant(self);
            pairs_map_value(self.pairs(), i as int);
        }
        (&self.entries[i].0, &self.entries[i].1)
    }
}

} // verus!
