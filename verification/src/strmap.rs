//! A map keyed by strings that keeps its entries in insertion order, so that
//! it can be walked deterministically. Each key occurs at most once.

use vstd::prelude::*;
use crate::text::str_equal;

verus! {

broadcast use vstd::string::group_string_axioms;

/// The map that a list of key/value entries denotes: a later entry for the
/// same key replaces an earlier one.
pub open spec fn entries_map<V>(s: Seq<(String, V)>) -> Map<Seq<char>, V>
    decreases s.len(),
{
    if s.len() == 0 {
        Map::empty()
    } else {
        entries_map(s.drop_last()).insert(s.last().0@, s.last().1)
    }
}

/// Whether no two entries share a key.
pub open spec fn keys_distinct<V>(s: Seq<(String, V)>) -> bool {
    forall|i: int, j: int| 0 <= i < j < s.len() ==> s[i].0@ != s[j].0@
}

/// An entry list contains a key exactly when some entry carries it, and with
/// distinct keys the map holds each entry's value.
pub proof fn lemma_entries_map<V>(s: Seq<(String, V)>)
    ensures
        forall|k: Seq<char>| #[trigger] entries_map(s).contains_key(k)
            <==> exists|i: int| 0 <= i < s.len() && s[i].0@ == k,
        keys_distinct(s) ==> forall|i: int| 0 <= i < s.len()
            ==> entries_map(s)[#[trigger] s[i].0@] == s[i].1,
        keys_distinct(s) ==> entries_map(s).len() == s.len(),
        entries_map(s).dom().finite(),
    decreases s.len(),
{
    if s.len() > 0 {
        let p = s.drop_last();
        lemma_entries_map(p);
        assert forall|k: Seq<char>| #[trigger] entries_map(s).contains_key(k)
            <==> exists|i: int| 0 <= i < s.len() && s[i].0@ == k by {
            if entries_map(s).contains_key(k) && k != s.last().0@ {
                let i = choose|i: int| 0 <= i < p.len() && p[i].0@ == k;
                assert(s[i].0@ == k);
            }
            if exists|i: int| 0 <= i < s.len() && s[i].0@ == k {
                let i = choose|i: int| 0 <= i < s.len() && s[i].0@ == k;
                if i < s.len() - 1 {
                    assert(p[i].0@ == k);
                }
            }
        }
        if keys_distinct(s) {
            assert(keys_distinct(p));
            assert(!entries_map(p).contains_key(s.last().0@)) by {
                if entries_map(p).contains_key(s.last().0@) {
                    let i = choose|i: int| 0 <= i < p.len() && p[i].0@ == s.last().0@;
                    assert(s[i].0@ == s[s.len() - 1].0@);
                }
            }
            assert forall|i: int| 0 <= i < s.len() implies entries_map(s)[#[trigger] s[i].0@]
                == s[i].1 by {
                if i < s.len() - 1 {
                    assert(p[i] == s[i]);
                }
            }
        }
    }
}

/// Replacing the value of an entry whose key occurs once updates the map at
/// that key.
proof fn lemma_entries_map_update<V>(s: Seq<(String, V)>, i: int, k: String, v: V)
    requires
        keys_distinct(s),
        0 <= i < s.len(),
        s[i].0@ == k@,
    ensures
        entries_map(s.update(i, (k, v))) == entries_map(s).insert(k@, v),
        keys_distinct(s.update(i, (k, v))),
    decreases s.len(),
{
    let t = s.update(i, (k, v));
    if i == s.len() - 1 {
        assert(t.drop_last() == s.drop_last());
        lemma_entries_map(s.drop_last());
        assert(entries_map(s) == entries_map(s.drop_last()).insert(k@, s[i].1));
        assert(entries_map(t) =~= entries_map(s).insert(k@, v));
    } else {
        let p = s.drop_last();
        assert(t.drop_last() == p.update(i, (k, v)));
        lemma_entries_map_update(p, i, k, v);
        assert(s.last().0@ != k@);
        assert(entries_map(t) =~= entries_map(s).insert(k@, v));
    }
}

/// A map from strings to values that keeps its entries in insertion order.
pub struct StrMap<V> {
    entries: Vec<(String, V)>,
}

impl<V> View for StrMap<V> {
    type V = Map<Seq<char>, V>;

    closed spec fn view(&self) -> Map<Seq<char>, V> {
        entries_map(self.entries@)
    }
}

impl<V> StrMap<V> {
    /// The map's entries in insertion order.
    pub closed spec fn entry_seq(&self) -> Seq<(String, V)> {
        self.entries@
    }

    /// The keys in insertion order.
    pub open spec fn key_seq(&self) -> Seq<Seq<char>> {
        Seq::new(self.entry_seq().len(), |i: int| self.entry_seq()[i].0@)
    }

    /// The map's well-formedness: no key occurs twice.
    #[verifier::type_invariant]
    pub closed spec fn inv(&self) -> bool {
        keys_distinct(self.entries@)
    }

    /// An empty map.
    pub fn new() -> (res: Self)
        ensures
            res@ == Map::<Seq<char>, V>::empty(),
            res.entry_seq().len() == 0,
    {
        StrMap { entries: Vec::new() }
    }

    /// The number of keys.
    pub fn len(&self) -> (res: usize)
        ensures
            res == self@.len(),
    {
        proof {
            use_type_invariant(self);
            lemma_entries_map(self.entries@);
        }
        self.entries.len()
    }

    /// Whether the map has no keys.
    pub fn is_empty(&self) -> (res: bool)
        ensures
            res == (self@.len() == 0),
    {
        self.len() == 0
    }

    /// The entries, in insertion order.
    pub fn entries(&self) -> (res: &Vec<(String, V)>)
        ensures
            res@ == self.entry_seq(),
            keys_distinct(res@),
            self@ == entries_map(res@),
    {
        proof {
            use_type_invariant(self);
        }
        &self.entries
    }

    fn position(&self, k: &str) -> (res: Option<usize>)
        ensures
            match res {
                Some(i) => i < self.entries@.len() && self.entries@[i as int].0@ == k@,
                None => forall|i: int| 0 <= i < self.entries@.len() ==> self.entries@[i].0@ != k@,
            },
    {
        let mut i: usize = 0;
        while i < self.entries.len()
            invariant
                i <= self.entries@.len(),
                forall|j: int| 0 <= j < i ==> self.entries@[j].0@ != k@,
            decreases self.entries@.len() - i,
        {
            if str_equal(self.entries[i].0.as_str(), k) {
                return Some(i);
            }
            i = i + 1;
        }
        None
    }

    /// Whether `k` is a key of the map.
    pub fn contains_key(&self, k: &str) -> (res: bool)
        ensures
            res == self@.contains_key(k@),
    {
        proof {
            use_type_invariant(self);
            lemma_entries_map(self.entries@);
        }
        self.position(k).is_some()
    }

    /// The value stored under `k`, if any.
    pub fn get(&self, k: &str) -> (res: Option<&V>)
        ensures
            match res {
                Some(v) => self@.contains_key(k@) && *v == self@[k@],
                None => !self@.contains_key(k@),
            },
    {
        proof {
            use_type_invariant(self);
            lemma_entries_map(self.entries@);
        }
        match self.position(k) {
            Some(i) => Some(&self.entries[i].1),
            None => None,
        }
    }

    /// Stores `v` under `k`, replacing any earlier value. A new key is placed
    /// after all existing ones; an existing key keeps its place.
    pub fn insert(&mut self, k: String, v: V)
        ensures
            final(self)@ == old(self)@.insert(k@, v),
            old(self)@.contains_key(k@) ==> final(self).entry_seq().len() == old(
                self,
            ).entry_seq().len(),
            !old(self)@.contains_key(k@) ==> final(self).entry_seq() == old(self).entry_seq().push(
                (k, v),
            ),
    {
        proof {
            use_type_invariant(&*self);
            lemma_entries_map(self.entries@);
        }
        let mut entries: Vec<(String, V)> = Vec::new();
        std::mem::swap(&mut entries, &mut self.entries);
        let ghost old_entries = entries@;
        let tmp = StrMap { entries };
        let found = tmp.position(k.as_str());
        let mut entries = tmp.entries;
        match found {
            Some(i) => {
                proof {
                    lemma_entries_map_update(entries@, i as int, k, v);
                }
                entries.set(i, (k, v));
            },
            None => {
                assert(!entries_map(old_entries).contains_key(k@));
                entries.push((k, v));
                assert(entries@.drop_last() == old_entries);
                assert(keys_distinct(entries@));
            },
        }
        self.entries = entries;
    }
}

} // verus!
