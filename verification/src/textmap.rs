//! A small map keyed by text, in which a later insertion of a key replaces
//! the earlier one (the behaviour of `HashMap::insert` as seen by `get`).
use vstd::prelude::*;
use crate::text::str_eq;

verus! {

/// The map that a sequence of (key, value) insertions builds: a later pair
/// replaces an earlier one with the same key.
pub open spec fn pairs_map<V>(s: Seq<(Seq<char>, V)>) -> Map<Seq<char>, V>
    decreases s.len(),
{
    if s.len() == 0 {
        Map::empty()
    } else {
        pairs_map(s.drop_last()).insert(s.last().0, s.last().1)
    }
}

/// A key that no insertion named is absent from the map.
pub proof fn lemma_pairs_map_absent<V>(s: Seq<(Seq<char>, V)>, k: Seq<char>)
    requires
        forall|j: int| 0 <= j < s.len() ==> s[j].0 != k,
    ensures
        !pairs_map(s).contains_key(k),
    decreases s.len(),
{
    if s.len() > 0 {
        lemma_pairs_map_absent(s.drop_last(), k);
    }
}

/// A key is mapped to the value of its last insertion: a later pair of a
/// key replaces every earlier one.
pub proof fn lemma_pairs_map_last<V>(s: Seq<(Seq<char>, V)>, k: Seq<char>, j: int)
    requires
        0 <= j < s.len(),
        s[j].0 == k,
        forall|m: int| j < m < s.len() ==> s[m].0 != k,
    ensures
        pairs_map(s).contains_key(k),
        pairs_map(s)[k] == s[j].1,
    decreases s.len(),
{
    if j < s.len() - 1 {
        lemma_pairs_map_last(s.drop_last(), k, j);
    }
}

/// A map from text keys to values.
#[derive(Debug, Clone)]
pub struct TextMap<V> {
    entries: Vec<(String, V)>,
}

impl<V> TextMap<V> {
    /// The insertions made so far, keys as plain text, in order.
    pub closed spec fn pairs(&self) -> Seq<(Seq<char>, V)> {
        self.entries@.map_values(|p: (String, V)| (p.0@, p.1))
    }

    /// The contents as a map.
    pub closed spec fn map(&self) -> Map<Seq<char>, V> {
        pairs_map(self.pairs())
    }

    /// The empty map.
    pub fn new() -> (res: TextMap<V>)
        ensures
            res.map() == Map::<Seq<char>, V>::empty(),
    {
        let res = TextMap { entries: Vec::new() };
        assert(res.pairs() =~= Seq::<(Seq<char>, V)>::empty());
        res
    }

    /// Maps `key` to `value`, replacing an earlier value of `key`.
    pub fn insert(&mut self, key: String, value: V)
        ensures
            final(self).map() == old(self).map().insert(key@, value),
    {
        let ghost k = key@;
        let ghost v = value;
        self.entries.push((key, value));
        assert(self.pairs().drop_last() =~= old(self).pairs());
        assert(self.pairs().last() == (k, v));
    }

    /// The value of `key`, if there is one.
    pub fn get(&self, key: &str) -> (res: Option<&V>)
        ensures
            match res {
                Some(v) => self.map().contains_key(key@) && self.map()[key@] == *v,
                None => !self.map().contains_key(key@),
            },
    {
        let mut i: usize = self.entries.len();
        while i > 0
            invariant
                i <= self.entries@.len(),
                forall|j: int| i <= j < self.entries@.len() ==> self.pairs()[j].0 != key@,
            decreases i,
        {
            i -= 1;
            if str_eq(self.entries[i].0.as_str(), key) {
                proof {
                    lemma_pairs_map_last(self.pairs(), key@, i as int);
                }
                return Some(&self.entries[i].1);
            }
        }
        proof {
            lemma_pairs_map_absent(self.pairs(), key@);
        }
        None
    }

    /// The map built by inserting `pairs` in order (a later pair wins).
    pub fn from_pairs(pairs: Vec<(String, V)>) -> (res: TextMap<V>)
        ensures
            res.map() == pairs_map(pairs@.map_values(|p: (String, V)| (p.0@, p.1))),
    {
        let ghost all = pairs@.map_values(|p: (String, V)| (p.0@, p.1));
        let n: usize = pairs.len();
        let mut rest = pairs;
        let mut res = TextMap::new();
        let mut done: usize = 0;
        while rest.len() > 0
            invariant
                n == all.len(),
                done + rest@.len() == n,
                forall|j: int| 0 <= j < rest@.len() ==> (#[trigger] rest@[j].0@, rest@[j].1) == all[done + j],
                res.map() == pairs_map(all.take(done as int)),
            decreases rest@.len(),
        {
            let ghost before = rest@;
            let (k, v) = rest.remove(0);
            assert((k@, v) == all[done as int]);
            assert forall|j: int| 0 <= j < rest@.len() implies (#[trigger] rest@[j].0@, rest@[j].1) == all[done + 1 + j] by {
                assert(rest@[j] == before[j + 1]);
            }
            res.insert(k, v);
            assert(all.take(done as int + 1).drop_last() =~= all.take(done as int));
            done += 1;
        }
        assert(all.take(n as int) =~= all);
        res
    }

    /// The insertions made so far, in order; inserting them again into an
    /// empty map gives this map.
    pub fn as_pairs(&self) -> (res: &Vec<(String, V)>)
        ensures
            res@.map_values(|p: (String, V)| (p.0@, p.1)) == self.pairs(),
            pairs_map(res@.map_values(|p: (String, V)| (p.0@, p.1))) == self.map(),
    {
        &self.entries
    }
}

/// A read gives back what the last write of its key wrote, and a write
/// leaves the other keys as they were.
pub proof fn lemma_read_after_write<V>(t: TextMap<V>, key: Seq<char>, value: V, other: Seq<char>)
    requires
        other != key,
    ensures
        t.map().insert(key, value).contains_key(key),
        t.map().insert(key, value)[key] == value,
        t.map().insert(key, value).contains_key(other) == t.map().contains_key(other),
        t.map().contains_key(other) ==> t.map().insert(key, value)[other] == t.map()[other],
{
}

} // verus!
