//! A map from parameter names to values, the shape in which request
//! parameters are built, merged and signed.

use vstd::prelude::*;
use crate::keyorder::{sort_keys, string_views, strictly_ascending};

verus! {

/// No key occurs twice among `e`.
pub open spec fn keys_distinct(e: Seq<(String, String)>) -> bool {
    forall|i: int, j: int| 0 <= i < j < e.len() ==> (#[trigger] e[i]).0@ != (#[trigger] e[j]).0@
}

/// Some entry of `e` has the key `k`.
pub open spec fn has_key(e: Seq<(String, String)>, k: Seq<char>) -> bool {
    exists|i: int| 0 <= i < e.len() && (#[trigger] e[i]).0@ == k
}

/// The map that a list of entries with distinct keys stands for.
pub open spec fn entries_map(e: Seq<(String, String)>) -> Map<Seq<char>, Seq<char>> {
    Map::new(
        |k: Seq<char>| has_key(e, k),
        |k: Seq<char>| e[choose|i: int| 0 <= i < e.len() && (#[trigger] e[i]).0@ == k].1@,
    )
}

/// Each entry of a list with distinct keys is what the map holds for its key.
pub proof fn lemma_entries_map_at(e: Seq<(String, String)>, i: int)
    requires
        keys_distinct(e),
        0 <= i < e.len(),
    ensures
        entries_map(e).contains_key(e[i].0@),
        entries_map(e)[e[i].0@] == e[i].1@,
{
    let k = e[i].0@;
    assert(has_key(e, k));
    let j = choose|j: int| 0 <= j < e.len() && (#[trigger] e[j]).0@ == k;
    if j != i {
        if j < i {
            assert(e[j].0@ != e[i].0@);
        } else {
            assert(e[i].0@ != e[j].0@);
        }
    }
}

/// Appending an entry with a new key adds that key to the map.
pub proof fn lemma_entries_map_push(e: Seq<(String, String)>, entry: (String, String))
    requires
        keys_distinct(e),
        !has_key(e, entry.0@),
    ensures
        keys_distinct(e.push(entry)),
        entries_map(e.push(entry)) == entries_map(e).insert(entry.0@, entry.1@),
{
    let after = e.push(entry);
    let k = entry.0@;
    let v = entry.1@;
    assert(keys_distinct(after)) by {
        assert forall|a: int, b: int| 0 <= a < b < after.len() implies (
        #[trigger] after[a]).0@ != (#[trigger] after[b]).0@ by {
            if b == e.len() {
                assert(e[a].0@ != k);
            } else {
                assert(e[a].0@ != e[b].0@);
            }
        }
    }
    assert forall|q: Seq<char>|
        entries_map(after).contains_key(q) == entries_map(e).insert(k, v).contains_key(q) by {
        if has_key(e, q) {
            let j = choose|j: int| 0 <= j < e.len() && (#[trigger] e[j]).0@ == q;
            assert(after[j].0@ == q);
        }
        if q == k {
            assert(after[e.len() as int].0@ == q);
        }
        if has_key(after, q) && q != k {
            let j = choose|j: int| 0 <= j < after.len() && (#[trigger] after[j]).0@ == q;
            assert(e[j].0@ == q);
        }
    }
    assert forall|q: Seq<char>| #[trigger]
        entries_map(after).contains_key(q) implies entries_map(after)[q] == entries_map(e).insert(
        k,
        v,
    )[q] by {
        let j = choose|j: int| 0 <= j < after.len() && (#[trigger] after[j]).0@ == q;
        lemma_entries_map_at(after, j);
        if j < e.len() {
            lemma_entries_map_at(e, j);
        }
    }
    assert(entries_map(after) =~= entries_map(e).insert(k, v));
}

/// Request parameters: each key at most once, each with one value.
#[derive(Debug)]
pub struct ParamMap {
    entries: Vec<(String, String)>,
}

impl View for ParamMap {
    type V = Map<Seq<char>, Seq<char>>;

    closed spec fn view(&self) -> Map<Seq<char>, Seq<char>> {
        entries_map(self.entries@)
    }
}

impl ParamMap {
    #[verifier::type_invariant]
    spec fn keys_are_distinct(&self) -> bool {
        keys_distinct(self.entries@)
    }

    /// A map with no entries.
    pub fn new() -> (r: ParamMap)
        ensures
            r@ == Map::<Seq<char>, Seq<char>>::empty(),
    {
        let r = ParamMap { entries: Vec::new() };
        assert(r@ =~= Map::<Seq<char>, Seq<char>>::empty());
        r
    }

    /// The position of `key` among the entries, if it is there.
    fn position(entries: &Vec<(String, String)>, key: &String) -> (r: Option<usize>)
        ensures
            match r {
                Some(i) => i < entries@.len() && entries@[i as int].0@ == key@,
                None => !has_key(entries@, key@),
            },
    {
        let mut i: usize = 0;
        while i < entries.len()
            invariant
                i <= entries@.len(),
                forall|j: int| 0 <= j < i ==> (#[trigger] entries@[j]).0@ != key@,
            decreases entries@.len() - i,
        {
            if entries[i].0 == *key {
                return Some(i);
            }
            i = i + 1;
        }
        None
    }

    /// Sets the value of `key`, replacing any value it had.
    pub fn insert(&mut self, key: String, value: String)
        ensures
            final(self)@ == old(self)@.insert(key@, value@),
    {
        proof {
            use_type_invariant(&*self);
        }
        let ghost before = self.entries@;
        let mut entries: Vec<(String, String)> = Vec::new();
        std::mem::swap(&mut entries, &mut self.entries);
        let ghost k = key@;
        let ghost v = value@;
        match ParamMap::position(&entries, &key) {
            Some(i) => {
                entries.set(i, (key, value));
                proof {
                    let after = entries@;
                    assert(keys_distinct(after)) by {
                        assert forall|a: int, b: int| 0 <= a < b < after.len() implies (
                        #[trigger] after[a]).0@ != (#[trigger] after[b]).0@ by {
                            assert(before[a].0@ != before[b].0@);
                        }
                    }
                    assert forall|q: Seq<char>|
                        entries_map(after).contains_key(q) == entries_map(before).insert(
                            k,
                            v,
                        ).contains_key(q) by {
                        if has_key(before, q) {
                            let j = choose|j: int| 0 <= j < before.len() && (#[trigger] before[j]).0@ == q;
                            assert(after[j].0@ == q);
                        }
                        if has_key(after, q) {
                            let j = choose|j: int| 0 <= j < after.len() && (#[trigger] after[j]).0@ == q;
                            assert(before[j].0@ == q);
                        }
                    }
                    assert forall|q: Seq<char>| #[trigger]
                        entries_map(after).contains_key(q) implies entries_map(after)[q]
                        == entries_map(before).insert(k, v)[q] by {
                        let j = choose|j: int| 0 <= j < after.len() && (#[trigger] after[j]).0@ == q;
                        lemma_entries_map_at(after, j);
                        if j != i {
                            lemma_entries_map_at(before, j);
                        }
                    }
                    assert(entries_map(after) =~= entries_map(before).insert(k, v));
                }
            },
            None => {
                proof {
                    lemma_entries_map_push(before, (key, value));
                }
                entries.push((key, value));
            },
        }
        self.entries = entries;
    }

    /// The value of `key`, if the map holds one.
    pub fn get(&self, key: &str) -> (r: Option<&String>)
        ensures
            match r {
                Some(v) => self@.contains_key(key@) && v@ == self@[key@],
                None => !self@.contains_key(key@),
            },
    {
        proof {
            use_type_invariant(self);
        }
        let k = key.to_owned();
        match ParamMap::position(&self.entries, &k) {
            Some(i) => {
                proof {
                    lemma_entries_map_at(self.entries@, i as int);
                }
                Some(&self.entries[i].1)
            },
            None => None,
        }
    }

    /// Whether the map holds a value for `key`.
    pub fn contains_key(&self, key: &str) -> (r: bool)
        ensures
            r == self@.contains_key(key@),
    {
        let k = key.to_owned();
        ParamMap::position(&self.entries, &k).is_some()
    }

    /// The keys, in ascending byte-wise order.
    pub fn sorted_keys(&self) -> (r: Vec<String>)
        ensures
            strictly_ascending(string_views(r@)),
            forall|k: Seq<char>| string_views(r@).contains(k) <==> self@.contains_key(k),
    {
        proof {
            use_type_invariant(self);
        }
        let mut keys: Vec<String> = Vec::new();
        let mut i: usize = 0;
        while i < self.entries.len()
            invariant
                i <= self.entries@.len(),
                keys_distinct(self.entries@),
                keys@.len() == i,
                forall|j: int| 0 <= j < i ==> (#[trigger] keys@[j])@ == self.entries@[j].0@,
            decreases self.entries@.len() - i,
        {
            keys.push(self.entries[i].0.clone());
            i = i + 1;
        }
        assert forall|a: int, b: int| 0 <= a < b < keys@.len() implies (#[trigger] keys@[a])@
            != (#[trigger] keys@[b])@ by {
            assert(self.entries@[a].0@ != self.entries@[b].0@);
        }
        let r = sort_keys(keys);
        assert forall|k: Seq<char>| string_views(keys@).contains(k) <==> self@.contains_key(k) by {
            if string_views(keys@).contains(k) {
                let j = choose|j: int| 0 <= j < keys@.len() && string_views(keys@)[j] == k;
                assert(self.entries@[j].0@ == k);
            }
            if self@.contains_key(k) {
                let j = choose|j: int|
                    0 <= j < self.entries@.len() && (#[trigger] self.entries@[j]).0@ == k;
                assert(string_views(keys@)[j] == k);
            }
        }
        r
    }

    /// The entries as pairs, in no particular order.
    pub fn to_pairs(&self) -> (r: Vec<(String, String)>)
        ensures
            keys_distinct(r@),
            entries_map(r@) == self@,
    {
        proof {
            use_type_invariant(self);
        }
        let mut out: Vec<(String, String)> = Vec::new();
        let mut i: usize = 0;
        while i < self.entries.len()
            invariant
                i <= self.entries@.len(),
                keys_distinct(self.entries@),
                out@.len() == i,
                forall|j: int|
                    0 <= j < i ==> (#[trigger] out@[j]).0@ == self.entries@[j].0@ && out@[j].1@
                        == self.entries@[j].1@,
            decreases self.entries@.len() - i,
        {
            let k = self.entries[i].0.clone();
            let v = self.entries[i].1.clone();
            out.push((k, v));
            i = i + 1;
        }
        proof {
            assert(keys_distinct(out@)) by {
                assert forall|a: int, b: int| 0 <= a < b < out@.len() implies (
                #[trigger] out@[a]).0@ != (#[trigger] out@[b]).0@ by {
                    assert(self.entries@[a].0@ != self.entries@[b].0@);
                }
            }
            assert forall|q: Seq<char>|
                entries_map(out@).contains_key(q) == self@.contains_key(q) by {
                if has_key(out@, q) {
                    let j = choose|j: int| 0 <= j < out@.len() && (#[trigger] out@[j]).0@ == q;
                    assert(self.entries@[j].0@ == q);
                }
                if has_key(self.entries@, q) {
                    let j = choose|j: int|
                        0 <= j < self.entries@.len() && (#[trigger] self.entries@[j]).0@ == q;
                    assert(out@[j].0@ == q);
                }
            }
            assert forall|q: Seq<char>| #[trigger]
                entries_map(out@).contains_key(q) implies entries_map(out@)[q] == self@[q] by {
                let j = choose|j: int| 0 <= j < out@.len() && (#[trigger] out@[j]).0@ == q;
                lemma_entries_map_at(out@, j);
                lemma_entries_map_at(self.entries@, j);
            }
            assert(entries_map(out@) =~= self@);
        }
        out
    }

    /// A second map with the same entries.
    pub fn duplicate(&self) -> (r: ParamMap)
        ensures
            r@ == self@,
    {
        let pairs = self.to_pairs();
        ParamMap { entries: pairs }
    }

    /// Adds every entry of `other`; where both hold a key, `other`'s value wins.
    pub fn extend_from(&mut self, other: &ParamMap)
        ensures
            final(self)@ == old(self)@.union_prefer_right(other@),
    {
        let pairs = other.to_pairs();
        let mut i: usize = 0;
        assert(entries_map(pairs@.subrange(0, 0)) =~= Map::<Seq<char>, Seq<char>>::empty());
        assert(old(self)@.union_prefer_right(Map::<Seq<char>, Seq<char>>::empty()) =~= old(self)@);
        while i < pairs.len()
            invariant
                i <= pairs@.len(),
                keys_distinct(pairs@),
                entries_map(pairs@) == other@,
                self@ == old(self)@.union_prefer_right(entries_map(pairs@.subrange(0, i as int))),
            decreases pairs@.len() - i,
        {
            let k = pairs[i].0.clone();
            let v = pairs[i].1.clone();
            proof {
                let pre = pairs@.subrange(0, i as int);
                assert(pairs@.subrange(0, i + 1) =~= pre.push(pairs@[i as int]));
                assert(keys_distinct(pre));
                assert(!has_key(pre, pairs@[i as int].0@)) by {
                    if has_key(pre, pairs@[i as int].0@) {
                        let j = choose|j: int|
                            0 <= j < pre.len() && (#[trigger] pre[j]).0@ == pairs@[i as int].0@;
                        assert(pairs@[j].0@ != pairs@[i as int].0@);
                    }
                }
                lemma_entries_map_push(pre, pairs@[i as int]);
                assert(old(self)@.union_prefer_right(entries_map(pre).insert(k@, v@))
                    =~= old(self)@.union_prefer_right(entries_map(pre)).insert(k@, v@));
            }
            self.insert(k, v);
            i = i + 1;
        }
        assert(pairs@.subrange(0, pairs@.len() as int) =~= pairs@);
    }
}

} // verus!
