//! A small map from text keys to values, kept as a list of distinct keys.

use vstd::prelude::*;
use crate::text::same_text;

verus! {

/// Map from text keys to values; each key occurs at most once.
pub struct KeyedList<V> {
    pub entries: Vec<(String, V)>,
}

/// No key occurs twice in `s`.
pub open spec fn keys_distinct<V>(s: Seq<(String, V)>) -> bool {
    forall|i: int, j: int| 0 <= i < s.len() && 0 <= j < s.len() && i != j ==> s[i].0@ != s[j].0@
}

/// Whether some entry of `s` has key `k`.
pub open spec fn has_key<V>(s: Seq<(String, V)>, k: Seq<char>) -> bool {
    exists|i: int| 0 <= i < s.len() && s[i].0@ == k
}

/// The map that a list of entries with distinct keys stands for.
pub open spec fn entries_map<V>(s: Seq<(String, V)>) -> Map<Seq<char>, V> {
    Map::new(
        |k: Seq<char>| has_key(s, k),
        |k: Seq<char>| s[choose|i: int| 0 <= i < s.len() && s[i].0@ == k].1,
    )
}

proof fn lemma_entries_map_snoc<V>(s: Seq<(String, V)>)
    requires
        s.len() > 0,
        keys_distinct(s),
    ensures
        keys_distinct(s.drop_last()),
        !entries_map(s.drop_last()).contains_key(s.last().0@),
        entries_map(s) == entries_map(s.drop_last()).insert(s.last().0@, s.last().1),
{
    let p = s.drop_last();
    let n = p.len() as int;
    let k = s.last().0@;
    assert forall|kk: Seq<char>| has_key(s, kk) == (has_key(p, kk) || kk == k) by {
        if has_key(p, kk) {
            let w = choose|j: int| 0 <= j < p.len() && p[j].0@ == kk;
            assert(s[w].0@ == kk);
        }
        if kk == k { assert(s[n].0@ == kk); }
        if has_key(s, kk) {
            let w = choose|j: int| 0 <= j < s.len() && s[j].0@ == kk;
            if w != n { assert(p[w].0@ == kk); }
        }
    }
    if has_key(p, k) {
        let w = choose|j: int| 0 <= j < p.len() && p[j].0@ == k;
        assert(s[w].0@ == s[n].0@);
    }
    assert forall|kk: Seq<char>| #[trigger] has_key(s, kk) implies
        entries_map(s)[kk] == entries_map(p).insert(k, s.last().1)[kk] by {
        let w = choose|j: int| 0 <= j < s.len() && s[j].0@ == kk;
        if kk != k {
            let wo = choose|j: int| 0 <= j < p.len() && p[j].0@ == kk;
            assert(s[wo].0@ == kk);
            assert(wo == w);
        } else {
            assert(w == n);
        }
    }
    assert(entries_map(s) =~= entries_map(p).insert(k, s.last().1));
}

/// The map of a list with distinct keys has one key per entry, holds every
/// entry, and has no other key.
pub proof fn lemma_entries_map_facts<V>(s: Seq<(String, V)>)
    requires
        keys_distinct(s),
    ensures
        entries_map(s).dom().finite(),
        entries_map(s).len() == s.len(),
        forall|i: int| 0 <= i < s.len() ==> entries_map(s).contains_key(#[trigger] s[i].0@)
            && entries_map(s)[s[i].0@] == s[i].1,
        forall|k: Seq<char>| entries_map(s).contains_key(k) ==> exists|i: int| 0 <= i < s.len() && #[trigger] s[i].0@ == k,
    decreases s.len(),
{
    if s.len() == 0 {
        assert(entries_map(s).dom() =~= Set::<Seq<char>>::empty());
    } else {
        let p = s.drop_last();
        lemma_entries_map_snoc(s);
        lemma_entries_map_facts(p);
        let n = p.len() as int;
        assert forall|i: int| 0 <= i < s.len() implies entries_map(s).contains_key(#[trigger] s[i].0@)
            && entries_map(s)[s[i].0@] == s[i].1 by {
            if i < n {
                assert(s[i] == p[i]);
            }
        }
        assert forall|k: Seq<char>| entries_map(s).contains_key(k) implies exists|i: int| 0 <= i < s.len() && #[trigger] s[i].0@ == k by {
            if k != s.last().0@ {
                let w = choose|i: int| 0 <= i < p.len() && #[trigger] p[i].0@ == k;
                assert(s[w].0@ == k);
            } else {
                assert(s[n].0@ == k);
            }
        }
    }
}

impl<V> KeyedList<V> {
    /// Keys are distinct.
    pub open spec fn wf(&self) -> bool {
        keys_distinct(self.entries@)
    }

    /// The map the list stands for.
    pub open spec fn map(&self) -> Map<Seq<char>, V> {
        entries_map(self.entries@)
    }

    /// An empty map.
    pub fn new() -> (r: Self)
        ensures
            r.wf(),
            r.map() == Map::<Seq<char>, V>::empty(),
    {
        let r = KeyedList { entries: Vec::new() };
        assert(r.map() =~= Map::<Seq<char>, V>::empty());
        r
    }

    /// Position of the entry with key `key`, if any.
    pub fn position(&self, key: &str) -> (r: Option<usize>)
        requires
            self.wf(),
        ensures
            match r {
                Some(i) => i < self.entries@.len() && self.entries@[i as int].0@ == key@,
                None => !has_key(self.entries@, key@),
            },
    {
        let n = self.entries.len();
        let mut i: usize = 0;
        while i < n
            invariant
                n == self.entries@.len(),
                i <= n,
                forall|j: int| 0 <= j < i ==> self.entries@[j].0@ != key@,
            decreases n - i,
        {
            if same_text(self.entries[i].0.as_str(), key) {
                return Some(i);
            }
            i = i + 1;
        }
        None
    }

    /// The value stored under `key`, if any.
    pub fn get(&self, key: &str) -> (r: Option<&V>)
        requires
            self.wf(),
        ensures
            match r {
                Some(v) => self.map().contains_key(key@) && *v == self.map()[key@],
                None => !self.map().contains_key(key@),
            },
    {
        match self.position(key) {
            Some(i) => {
                proof {
                    let c = choose|j: int| 0 <= j < self.entries@.len() && self.entries@[j].0@ == key@;
                    assert(c == i);
                }
                Some(&self.entries[i].1)
            },
            None => None,
        }
    }

    /// Removes `key` and its value, if present.
    pub fn remove(&mut self, key: &str)
        requires
            old(self).wf(),
        ensures
            final(self).wf(),
            final(self).map() == old(self).map().remove(key@),
    {
        match self.position(key) {
            Some(i) => {
                self.entries.remove(i);
                proof {
                    let s = self.entries@;
                    let o = old(self).entries@;
                    let k = key@;
                    assert forall|a: int, b: int| 0 <= a < s.len() && 0 <= b < s.len() && a != b
                        implies s[a].0@ != s[b].0@ by {
                        let oa = if a < i { a } else { a + 1 };
                        let ob = if b < i { b } else { b + 1 };
                        assert(s[a] == o[oa]);
                        assert(s[b] == o[ob]);
                    }
                    assert forall|kk: Seq<char>| has_key(s, kk) == (has_key(o, kk) && kk != k) by {
                        if has_key(o, kk) && kk != k {
                            let w = choose|j: int| 0 <= j < o.len() && o[j].0@ == kk;
                            assert(w != i);
                            if w < i { assert(s[w].0@ == kk); } else { assert(s[w - 1].0@ == kk); }
                        }
                        if has_key(s, kk) {
                            let w = choose|j: int| 0 <= j < s.len() && s[j].0@ == kk;
                            let ow = if w < i { w } else { w + 1 };
                            assert(o[ow].0@ == kk);
                            assert(ow != i);
                        }
                    }
                    assert forall|kk: Seq<char>| #[trigger] has_key(s, kk) implies
                        entries_map(s)[kk] == old(self).map()[kk] by {
                        let w = choose|j: int| 0 <= j < s.len() && s[j].0@ == kk;
                        let ow = if w < i { w } else { w + 1 };
                        let wo = choose|j: int| 0 <= j < o.len() && o[j].0@ == kk;
                        assert(o[ow].0@ == kk);
                        assert(wo == ow);
                    }
                    assert(self.map() =~= old(self).map().remove(k));
                }
            },
            None => {
                assert(self.map() =~= old(self).map().remove(key@));
            },
        }
    }

    /// Stores `value` under `key`, replacing what was there.
    pub fn insert(&mut self, key: String, value: V)
        requires
            old(self).wf(),
        ensures
            final(self).wf(),
            final(self).map() == old(self).map().insert(key@, value),
    {
        let ghost k = key@;
        match self.position(key.as_str()) {
            Some(i) => {
                self.entries.set(i, (key, value));
                proof {
                    let s = self.entries@;
                    let o = old(self).entries@;
                    assert forall|kk: Seq<char>| has_key(s, kk) == (has_key(o, kk) || kk == k) by {
                        if has_key(o, kk) {
                            let w = choose|j: int| 0 <= j < o.len() && o[j].0@ == kk;
                            if w != i { assert(s[w].0@ == kk); } else { assert(s[i as int].0@ == kk); }
                        }
                        if has_key(s, kk) {
                            let w = choose|j: int| 0 <= j < s.len() && s[j].0@ == kk;
                            if w != i { assert(o[w].0@ == kk); }
                        }
                    }
                    assert forall|kk: Seq<char>| #[trigger] has_key(s, kk) implies
                        entries_map(s)[kk] == old(self).map().insert(k, value)[kk] by {
                        let w = choose|j: int| 0 <= j < s.len() && s[j].0@ == kk;
                        if kk != k {
                            let wo = choose|j: int| 0 <= j < o.len() && o[j].0@ == kk;
                            assert(o[w].0@ == kk);
                            assert(wo == w);
                        } else {
                            assert(w == i);
                        }
                    }
                    assert(self.map() =~= old(self).map().insert(k, value));
                }
            },
            None => {
                self.entries.push((key, value));
                proof {
                    let s = self.entries@;
                    let o = old(self).entries@;
                    let n = o.len() as int;
                    assert forall|kk: Seq<char>| has_key(s, kk) == (has_key(o, kk) || kk == k) by {
                        if has_key(o, kk) {
                            let w = choose|j: int| 0 <= j < o.len() && o[j].0@ == kk;
                            assert(s[w].0@ == kk);
                        }
                        if kk == k { assert(s[n].0@ == kk); }
                        if has_key(s, kk) {
                            let w = choose|j: int| 0 <= j < s.len() && s[j].0@ == kk;
                            if w != n { assert(o[w].0@ == kk); }
                        }
                    }
                    assert forall|kk: Seq<char>| #[trigger] has_key(s, kk) implies
                        entries_map(s)[kk] == old(self).map().insert(k, value)[kk] by {
                        let w = choose|j: int| 0 <= j < s.len() && s[j].0@ == kk;
                        if kk != k {
                            let wo = choose|j: int| 0 <= j < o.len() && o[j].0@ == kk;
                            assert(s[wo].0@ == kk);
                            assert(wo == w);
                        } else {
                            assert(w == n);
                        }
                    }
                    assert(self.map() =~= old(self).map().insert(k, value));
                }
            },
        }
    }
}

} // verus!
