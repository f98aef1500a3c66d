//! A map from string keys to values, kept as a vector of pairs whose keys
//! are all distinct.  Its view is the map from each key's characters to its
//! value.

use crate::text::{chars_eq, chars_of};
use vstd::prelude::*;

verus! {

/// No key occurs twice.
pub open spec fn keys_distinct<V>(s: Seq<(String, V)>) -> bool {
    forall|i: int, j: int| 0 <= i < j < s.len() ==> (#[trigger] s[i]).0@ != (#[trigger] s[j]).0@
}

/// The map the pairs describe; a later pair wins over an earlier one.
pub open spec fn pairs_map<V>(s: Seq<(String, V)>) -> Map<Seq<char>, V>
    decreases s.len(),
{
    if s.len() == 0 {
        Map::empty()
    } else {
        pairs_map(s.drop_last()).insert(s.last().0@, s.last().1)
    }
}

/// A key that no pair carries is not in the map.
proof fn lemma_absent<V>(s: Seq<(String, V)>, k: Seq<char>)
    requires
        forall|i: int| 0 <= i < s.len() ==> (#[trigger] s[i]).0@ != k,
    ensures
        !pairs_map(s).contains_key(k),
    decreases s.len(),
{
    if s.len() > 0 {
        lemma_absent(s.drop_last(), k);
        assert(s.last() == s[s.len() - 1]);
    }
}

/// With distinct keys, the value of a pair's key is that pair's value.
proof fn lemma_present<V>(s: Seq<(String, V)>, i: int)
    requires
        keys_distinct(s),
        0 <= i < s.len(),
    ensures
        pairs_map(s).contains_key(s[i].0@),
        pairs_map(s)[s[i].0@] == s[i].1,
    decreases s.len(),
{
    let d = s.drop_last();
    if i < s.len() - 1 {
        assert(d[i] == s[i]);
        assert(keys_distinct(d)) by {
            assert forall|a: int, b: int| 0 <= a < b < d.len() implies (#[trigger] d[a]).0@ != (
            #[trigger] d[b]).0@ by {
                assert(d[a] == s[a] && d[b] == s[b]);
            }
        }
        lemma_present(d, i);
        assert(s[s.len() - 1] == s.last());
    }
}

/// The keys of a map described by distinct pairs are the pairs' keys, and
/// there are as many of them as pairs.
proof fn lemma_dom_len<V>(s: Seq<(String, V)>)
    requires
        keys_distinct(s),
    ensures
        pairs_map(s).dom().finite(),
        pairs_map(s).dom().len() == s.len(),
    decreases s.len(),
{
    if s.len() > 0 {
        let d = s.drop_last();
        assert(keys_distinct(d)) by {
            assert forall|a: int, b: int| 0 <= a < b < d.len() implies (#[trigger] d[a]).0@ != (
            #[trigger] d[b]).0@ by {
                assert(d[a] == s[a] && d[b] == s[b]);
            }
        }
        lemma_dom_len(d);
        assert forall|i: int| 0 <= i < d.len() implies (#[trigger] d[i]).0@ != s.last().0@ by {
            assert(d[i] == s[i]);
            assert(s.last() == s[s.len() - 1]);
        }
        lemma_absent(d, s.last().0@);
    }
}

/// Removing the pair at `i` removes its key from the map.
proof fn lemma_remove_at<V>(s: Seq<(String, V)>, i: int)
    requires
        keys_distinct(s),
        0 <= i < s.len(),
    ensures
        keys_distinct(s.remove(i)),
        pairs_map(s.remove(i)) == pairs_map(s).remove(s[i].0@),
{
    let r = s.remove(i);
    let k = s[i].0@;
    assert(forall|j: int| 0 <= j < r.len() ==> #[trigger] r[j] == if j < i { s[j] } else { s[j + 1] });
    assert(keys_distinct(r)) by {
        assert forall|a: int, b: int| 0 <= a < b < r.len() implies (#[trigger] r[a]).0@ != (
        #[trigger] r[b]).0@ by {
            let sa = if a < i { a } else { a + 1 };
            let sb = if b < i { b } else { b + 1 };
            assert(r[a] == s[sa] && r[b] == s[sb]);
        }
    }
    assert forall|key: Seq<char>| #[trigger] pairs_map(r).contains_key(key) <==> pairs_map(s).remove(
        k,
    ).contains_key(key) by {
        if exists|j: int| 0 <= j < r.len() && (#[trigger] r[j]).0@ == key {
            let j = choose|j: int| 0 <= j < r.len() && (#[trigger] r[j]).0@ == key;
            lemma_present(r, j);
            let sj = if j < i { j } else { j + 1 };
            assert(r[j] == s[sj]);
            lemma_present(s, sj);
        } else {
            lemma_absent(r, key);
            if key != k && pairs_map(s).contains_key(key) {
                if exists|j: int| 0 <= j < s.len() && (#[trigger] s[j]).0@ == key {
                    let j = choose|j: int| 0 <= j < s.len() && (#[trigger] s[j]).0@ == key;
                    assert(j != i);
                    let rj = if j < i { j } else { j - 1 };
                    assert(r[rj] == s[j]);
                } else {
                    lemma_absent(s, key);
                }
            }
        }
    }
    assert forall|key: Seq<char>| #[trigger] pairs_map(r).contains_key(key) implies pairs_map(r)[key]
        == pairs_map(s).remove(k)[key] by {
        if exists|j: int| 0 <= j < r.len() && (#[trigger] r[j]).0@ == key {
            let j = choose|j: int| 0 <= j < r.len() && (#[trigger] r[j]).0@ == key;
            lemma_present(r, j);
            let sj = if j < i { j } else { j + 1 };
            assert(r[j] == s[sj]);
            lemma_present(s, sj);
        } else {
            lemma_absent(r, key);
        }
    }
    assert(pairs_map(r) =~= pairs_map(s).remove(k));
}

/// A map from strings to values.
pub struct Table<V> {
    entries: Vec<(String, V)>,
}

impl<V> View for Table<V> {
    type V = Map<Seq<char>, V>;

    closed spec fn view(&self) -> Map<Seq<char>, V> {
        pairs_map(self.entries@)
    }
}

impl<V> Table<V> {
    #[verifier::type_invariant]
    spec fn well_formed(self) -> bool {
        keys_distinct(self.entries@)
    }

    /// The keys in the order in which they are walked.
    pub closed spec fn key_order(&self) -> Seq<Seq<char>> {
        self.entries@.map_values(|e: (String, V)| e.0@)
    }

    pub fn new() -> (r: Self)
        ensures
            r@ == Map::<Seq<char>, V>::empty(),
    {
        Table { entries: Vec::new() }
    }

    /// The number of keys; the keys in walking order are the map's keys,
    /// each once.
    pub fn len(&self) -> (r: usize)
        ensures
            r == self@.dom().len(),
            r == self.key_order().len(),
            self@.dom().finite(),
            forall|i: int| 0 <= i < self.key_order().len() ==> self@.contains_key(
                #[trigger] self.key_order()[i],
            ),
            forall|k: Seq<char>| #[trigger] self@.contains_key(k) ==> self.key_order().contains(k),
            forall|i: int, j: int|
                0 <= i < j < self.key_order().len() ==> #[trigger] self.key_order()[i]
                    != #[trigger] self.key_order()[j],
    {
        proof {
            use_type_invariant(self);
            let s = self.entries@;
            lemma_dom_len(s);
            assert forall|i: int| 0 <= i < self.key_order().len() implies self@.contains_key(
                #[trigger] self.key_order()[i],
            ) by {
                lemma_present(s, i);
            }
            assert forall|k: Seq<char>| #[trigger] self@.contains_key(k) implies self.key_order().contains(
                k,
            ) by {
                if forall|i: int| 0 <= i < s.len() ==> (#[trigger] s[i]).0@ != k {
                    lemma_absent(s, k);
                } else {
                    let i = choose|i: int| 0 <= i < s.len() && !((#[trigger] s[i]).0@ != k);
                    assert(self.key_order()[i] == k);
                }
            }
        }
        self.entries.len()
    }

    fn position(&self, key: &str) -> (r: Option<usize>)
        ensures
            match r {
                Some(i) => i < self.entries@.len() && self.entries@[i as int].0@ == key@,
                None => forall|i: int|
                    0 <= i < self.entries@.len() ==> (#[trigger] self.entries@[i]).0@ != key@,
            },
    {
        let k = chars_of(key);
        let mut i: usize = 0;
        while i < self.entries.len()
            invariant
                i <= self.entries@.len(),
                k@ == key@,
                forall|j: int| 0 <= j < i ==> (#[trigger] self.entries@[j]).0@ != key@,
            decreases self.entries@.len() - i,
        {
            let e = chars_of(self.entries[i].0.as_str());
            if chars_eq(e.as_slice(), k.as_slice()) {
                return Some(i);
            }
            i = i + 1;
        }
        None
    }

    pub fn contains_key(&self, key: &str) -> (r: bool)
        ensures
            r == self@.contains_key(key@),
    {
        proof {
            use_type_invariant(self);
        }
        match self.position(key) {
            Some(i) => {
                proof {
                    lemma_present(self.entries@, i as int);
                }
                true
            },
            None => {
                proof {
                    lemma_absent(self.entries@, key@);
                }
                false
            },
        }
    }

    pub fn get(&self, key: &str) -> (r: Option<&V>)
        ensures
            match r {
                Some(v) => self@.contains_key(key@) && self@[key@] == *v,
                None => !self@.contains_key(key@),
            },
    {
        proof {
            use_type_invariant(self);
        }
        match self.position(key) {
            Some(i) => {
                proof {
                    lemma_present(self.entries@, i as int);
                }
                Some(&self.entries[i].1)
            },
            None => {
                proof {
                    lemma_absent(self.entries@, key@);
                }
                None
            },
        }
    }

    /// Takes the value of `key` out of the map.
    pub fn remove(&mut self, key: &str) -> (r: Option<V>)
        ensures
            final(self)@ == old(self)@.remove(key@),
            match r {
                Some(v) => old(self)@.contains_key(key@) && old(self)@[key@] == v,
                None => !old(self)@.contains_key(key@),
            },
    {
        proof {
            use_type_invariant(&*self);
        }
        match self.position(key) {
            Some(i) => {
                proof {
                    lemma_present(self.entries@, i as int);
                    lemma_remove_at(self.entries@, i as int);
                }
                let mut entries: Vec<(String, V)> = Vec::new();
                std::mem::swap(&mut entries, &mut self.entries);
                let (_, v) = entries.remove(i);
                self.entries = entries;
                Some(v)
            },
            None => {
                proof {
                    lemma_absent(self.entries@, key@);
                    assert(self@.remove(key@) =~= self@);
                }
                None
            },
        }
    }

    /// Sets the value of `key`, replacing any earlier one.
    pub fn insert(&mut self, key: String, value: V)
        ensures
            final(self)@ == old(self)@.insert(key@, value),
    {
        let _ = self.remove(key.as_str());
        proof {
            use_type_invariant(&*self);
            let s = self.entries@;
            assert forall|i: int| 0 <= i < s.len() implies (#[trigger] s[i]).0@ != key@ by {
                lemma_present(s, i);
            }
        }
        let ghost before = self.entries@;
        let mut entries: Vec<(String, V)> = Vec::new();
        std::mem::swap(&mut entries, &mut self.entries);
        entries.push((key, value));
        proof {
            assert(entries@.drop_last() =~= before);
        }
        self.entries = entries;
    }

    /// The key walked at position `i`.
    pub fn key_at(&self, i: usize) -> (r: &str)
        requires
            i < self.key_order().len(),
        ensures
            r@ == self.key_order()[i as int],
    {
        self.entries[i].0.as_str()
    }

    /// The value of the key walked at position `i`.
    pub fn value_at(&self, i: usize) -> (r: &V)
        requires
            i < self.key_order().len(),
        ensures
            self@.contains_key(self.key_order()[i as int]),
            *r == self@[self.key_order()[i as int]],
    {
        proof {
            use_type_invariant(self);
            lemma_present(self.entries@, i as int);
        }
        &self.entries[i].1
    }
}

} // verus!
