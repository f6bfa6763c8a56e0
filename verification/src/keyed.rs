//! A small map from text keys to values that keeps its entries in insertion order.

use vstd::prelude::*;

verus! {

/// Entries keyed by text, each key at most once, in the order keys were first inserted.
pub struct KeyedVec<V> {
    entries: Vec<(String, V)>,
}

/// The map that a sequence of (key, value) pairs with distinct keys stands for.
pub open spec fn pairs_map<V>(s: Seq<(Seq<char>, V)>) -> Map<Seq<char>, V> {
    Map::new(
        |k: Seq<char>| exists|i: int| 0 <= i < s.len() && s[i].0 == k,
        |k: Seq<char>| s[choose|i: int| 0 <= i < s.len() && s[i].0 == k].1,
    )
}

/// A sequence of strings, taken as texts.
pub open spec fn texts(v: Seq<String>) -> Seq<Seq<char>> {
    v.map_values(|k: String| k@)
}

/// The entries of a vector, keys taken as text.
pub open spec fn pairs_of<V>(e: Seq<(String, V)>) -> Seq<(Seq<char>, V)> {
    e.map_values(|x: (String, V)| (x.0@, x.1))
}

/// No key occurs twice.
pub open spec fn keys_distinct<V>(s: Seq<(Seq<char>, V)>) -> bool {
    forall|i: int, j: int| 0 <= i < s.len() && 0 <= j < s.len() && i != j ==> s[i].0 != s[j].0
}

pub proof fn lemma_pairs_value<V>(s: Seq<(Seq<char>, V)>, i: int)
    requires
        keys_distinct(s),
        0 <= i < s.len(),
    ensures
        pairs_map(s).dom().contains(s[i].0),
        pairs_map(s)[s[i].0] == s[i].1,
{
    let k = s[i].0;
    assert(exists|j: int| 0 <= j < s.len() && s[j].0 == k);
    let j = choose|j: int| 0 <= j < s.len() && s[j].0 == k;
    assert(j == i);
}

impl<V> KeyedVec<V> {
    /// The entries, keys taken as text.
    pub closed spec fn pairs(&self) -> Seq<(Seq<char>, V)> {
        pairs_of(self.entries@)
    }

    #[verifier::type_invariant]
    closed spec fn inv(&self) -> bool {
        keys_distinct(self.pairs())
    }

    /// The keys, in insertion order.
    pub closed spec fn key_seq(&self) -> Seq<Seq<char>> {
        self.pairs().map_values(|e: (Seq<char>, V)| e.0)
    }

    pub open spec fn view(&self) -> Map<Seq<char>, V> {
        pairs_map(self.pairs())
    }

    pub fn new() -> (r: Self)
        ensures
            r.view() == Map::<Seq<char>, V>::empty(),
            r.key_seq().len() == 0,
    {
        let r = KeyedVec { entries: Vec::new() };
        assert(r.view() =~= Map::<Seq<char>, V>::empty());
        r
    }

    /// The position of `key`.
    fn position(&self, key: &str) -> (r: Option<usize>)
        ensures
            match r {
                Some(i) => i < self.pairs().len() && self.pairs()[i as int].0 == key@,
                None => !self.view().dom().contains(key@),
            },
    {
        let k = key.to_owned();
        let mut i: usize = 0;
        while i < self.entries.len()
            invariant
                0 <= i <= self.entries.len(),
                k@ == key@,
                forall|j: int| 0 <= j < i ==> self.pairs()[j].0 != key@,
            decreases self.entries.len() - i,
        {
            if self.entries[i].0 == k {
                return Some(i);
            }
            i += 1;
        }
        None
    }

    /// Whether `key` is present.
    pub fn contains(&self, key: &str) -> (r: bool)
        ensures
            r == self.view().dom().contains(key@),
    {
        proof {
            use_type_invariant(self);
        }
        match self.position(key) {
            Some(i) => {
                proof {
                    lemma_pairs_value(self.pairs(), i as int);
                }
                true
            },
            None => false,
        }
    }

    /// The value under `key`.
    pub fn get(&self, key: &str) -> (r: Option<&V>)
        ensures
            r == if self.view().dom().contains(key@) {
                Some(&self.view()[key@])
            } else {
                None
            },
    {
        proof {
            use_type_invariant(self);
        }
        match self.position(key) {
            Some(i) => {
                proof {
                    lemma_pairs_value(self.pairs(), i as int);
                }
                Some(&self.entries[i].1)
            },
            None => None,
        }
    }

    /// Puts `value` under `key`, replacing the value there, if any, in its place; a new
    /// key goes last.
    pub fn insert(&mut self, key: String, value: V)
        ensures
            final(self).view() == old(self).view().insert(key@, value),
            final(self).key_seq() == if old(self).view().dom().contains(key@) {
                old(self).key_seq()
            } else {
                old(self).key_seq().push(key@)
            },
    {
        proof {
            use_type_invariant(&*self);
        }
        let ghost s = self.pairs();
        let ghost kv = key@;
        match self.position(key.as_str()) {
            Some(i) => {
                proof {
                    lemma_pairs_value(s, i as int);
                }
                let mut entries: Vec<(String, V)> = Vec::new();
                std::mem::swap(&mut entries, &mut self.entries);
                entries.set(i, (key, value));
                proof {
                    let t = pairs_of(entries@);
                    assert(t =~= s.update(i as int, (kv, value)));
                    assert(keys_distinct(t));
                    assert forall|k: Seq<char>| #[trigger] pairs_map(t).dom().contains(k) <==> pairs_map(s).insert(kv, value).dom().contains(k) by {
                        if k != kv {
                            if pairs_map(s).dom().contains(k) {
                                let j = choose|j: int| 0 <= j < s.len() && s[j].0 == k;
                                assert(t[j].0 == k);
                            }
                            if pairs_map(t).dom().contains(k) {
                                let j = choose|j: int| 0 <= j < t.len() && t[j].0 == k;
                                assert(s[j].0 == k);
                            }
                        } else {
                            assert(t[i as int].0 == k);
                        }
                    }
                    assert forall|k: Seq<char>| #[trigger] pairs_map(t).dom().contains(k) implies pairs_map(t)[k] == pairs_map(s).insert(kv, value)[k] by {
                        let j = choose|j: int| 0 <= j < t.len() && t[j].0 == k;
                        lemma_pairs_value(t, j);
                        if k != kv {
                            assert(s[j].0 == k);
                            lemma_pairs_value(s, j);
                        }
                    }
                    assert(pairs_map(t) =~= pairs_map(s).insert(kv, value));
                }
                self.entries = entries;
                assert(self.key_seq() =~= old(self).key_seq());
            },
            None => {
                let mut entries: Vec<(String, V)> = Vec::new();
                std::mem::swap(&mut entries, &mut self.entries);
                entries.push((key, value));
                proof {
                    let t = pairs_of(entries@);
                    let n = s.len() as int;
                    assert(t =~= s.push((kv, value)));
                    assert(keys_distinct(t)) by {
                        assert forall|i: int, j: int| 0 <= i < t.len() && 0 <= j < t.len() && i != j implies t[i].0 != t[j].0 by {
                            if i == n {
                                if t[j].0 == kv {
                                    assert(pairs_map(s).dom().contains(kv));
                                }
                            } else if j == n {
                                if t[i].0 == kv {
                                    assert(pairs_map(s).dom().contains(kv));
                                }
                            }
                        }
                    }
                    assert forall|k: Seq<char>| #[trigger] pairs_map(t).dom().contains(k) <==> pairs_map(s).insert(kv, value).dom().contains(k) by {
                        if pairs_map(s).dom().contains(k) {
                            let j = choose|j: int| 0 <= j < s.len() && s[j].0 == k;
                            assert(t[j].0 == k);
                        }
                        if pairs_map(t).dom().contains(k) && k != kv {
                            let j = choose|j: int| 0 <= j < t.len() && t[j].0 == k;
                            assert(s[j].0 == k);
                        }
                        if k == kv {
                            assert(t[n].0 == k);
                        }
                    }
                    assert forall|k: Seq<char>| #[trigger] pairs_map(t).dom().contains(k) implies pairs_map(t)[k] == pairs_map(s).insert(kv, value)[k] by {
                        let j = choose|j: int| 0 <= j < t.len() && t[j].0 == k;
                        lemma_pairs_value(t, j);
                        if k != kv {
                            assert(s[j].0 == k);
                            lemma_pairs_value(s, j);
                        }
                    }
                    assert(pairs_map(t) =~= pairs_map(s).insert(kv, value));
                }
                self.entries = entries;
                assert(self.key_seq() =~= old(self).key_seq().push(kv));
            },
        }
    }

    /// Takes the value under `key` out, if any.
    pub fn remove(&mut self, key: &str) -> (r: Option<V>)
        ensures
            final(self).view() == old(self).view().remove(key@),
            r == if old(self).view().dom().contains(key@) {
                Some(old(self).view()[key@])
            } else {
                None
            },
    {
        proof {
            use_type_invariant(&*self);
        }
        let ghost s = self.pairs();
        let ghost kv = key@;
        match self.position(key) {
            Some(i) => {
                proof {
                    lemma_pairs_value(s, i as int);
                }
                let mut entries: Vec<(String, V)> = Vec::new();
                std::mem::swap(&mut entries, &mut self.entries);
                let (_, v) = entries.remove(i);
                proof {
                    let t = pairs_of(entries@);
                    assert(t =~= s.remove(i as int));
                    assert(keys_distinct(t)) by {
                        assert forall|a: int, b: int| 0 <= a < t.len() && 0 <= b < t.len() && a != b implies t[a].0 != t[b].0 by {
                            let a2 = if a < i { a } else { a + 1 };
                            let b2 = if b < i { b } else { b + 1 };
                            assert(t[a] == s[a2]);
                            assert(t[b] == s[b2]);
                        }
                    }
                    assert forall|k: Seq<char>| #[trigger] pairs_map(t).dom().contains(k) <==> pairs_map(s).remove(kv).dom().contains(k) by {
                        if pairs_map(t).dom().contains(k) {
                            let j = choose|j: int| 0 <= j < t.len() && t[j].0 == k;
                            let j2 = if j < i { j } else { j + 1 };
                            assert(s[j2].0 == k);
                            assert(j2 != i);
                        }
                        if pairs_map(s).dom().contains(k) && k != kv {
                            let j = choose|j: int| 0 <= j < s.len() && s[j].0 == k;
                            assert(j != i);
                            let j2 = if j < i { j } else { j - 1 };
                            assert(t[j2].0 == k);
                        }
                    }
                    assert forall|k: Seq<char>| #[trigger] pairs_map(t).dom().contains(k) implies pairs_map(t)[k] == pairs_map(s).remove(kv)[k] by {
                        let j = choose|j: int| 0 <= j < t.len() && t[j].0 == k;
                        lemma_pairs_value(t, j);
                        let j2 = if j < i { j } else { j + 1 };
                        assert(s[j2].0 == k);
                        lemma_pairs_value(s, j2);
                    }
                    assert(pairs_map(t) =~= pairs_map(s).remove(kv));
                }
                self.entries = entries;
                Some(v)
            },
            None => {
                assert(pairs_map(s) =~= pairs_map(s).remove(kv));
                None
            },
        }
    }

    /// The keys, in insertion order.
    pub fn keys(&self) -> (r: Vec<String>)
        ensures
            texts(r@) == self.key_seq(),
            forall|i: int, j: int|
                0 <= i < self.key_seq().len() && 0 <= j < self.key_seq().len() && i != j
                    ==> self.key_seq()[i] != self.key_seq()[j],
            forall|i: int| 0 <= i < self.key_seq().len() ==> self.view().dom().contains(#[trigger] self.key_seq()[i]),
            forall|k: Seq<char>| self.view().dom().contains(k) ==> self.key_seq().contains(k),
    {
        proof {
            use_type_invariant(self);
            let s = self.pairs();
            assert forall|i: int| 0 <= i < self.key_seq().len() implies self.view().dom().contains(
                #[trigger] self.key_seq()[i],
            ) by {
                lemma_pairs_value(s, i);
            }
            assert forall|k: Seq<char>| self.view().dom().contains(k) implies self.key_seq().contains(k) by {
                let i = choose|i: int| 0 <= i < s.len() && s[i].0 == k;
                assert(self.key_seq()[i] == k);
            }
        }
        let mut r: Vec<String> = Vec::new();
        let mut i: usize = 0;
        while i < self.entries.len()
            invariant
                0 <= i <= self.entries.len(),
                r@.len() == i,
                self.key_seq().len() == self.entries@.len(),
                texts(r@) == self.key_seq().take(i as int),
            decreases self.entries.len() - i,
        {
            let ghost prev = r@;
            r.push(self.entries[i].0.clone());
            assert(r@ =~= prev.push(r@[i as int]));
            assert(texts(r@) =~= texts(prev).push(self.entries@[i as int].0@));
            assert(self.key_seq()[i as int] == self.entries@[i as int].0@);
            assert(texts(r@) =~= self.key_seq().take(i + 1));
            i += 1;
        }
        assert(self.key_seq().take(self.entries.len() as int) =~= self.key_seq());
        r
    }
}

} // verus!
