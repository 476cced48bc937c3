//! A map from string keys to values, stored as a vector of pairs in increasing key order.
//!
//! Its view is a `Map<Seq<char>, V>`; `key_seq` gives the order in which the pairs are held.
use crate::strings::{
    lemma_text_less_irreflexive, lemma_text_less_total, lemma_text_less_transitive, text_less,
    text_lt,
};
use vstd::prelude::*;

verus! {

#[derive(Debug)]
pub struct KeyedStore<V> {
    entries: Vec<(String, V)>,
}

/// Labels and annotations: text keys mapped to text values.
pub type StringMap = KeyedStore<String>;

impl<V> KeyedStore<V> {
    #[verifier::type_invariant]
    spec fn keys_sorted(&self) -> bool {
        forall|i: int, j: int|
            0 <= i < j < self.entries@.len() ==> text_less(
                #[trigger] self.entries@[i].0@,
                #[trigger] self.entries@[j].0@,
            )
    }

    spec fn keys_distinct(&self) -> bool {
        forall|i: int, j: int|
            0 <= i < self.entries@.len() && 0 <= j < self.entries@.len() && i != j
                ==> #[trigger] self.entries@[i].0@ != #[trigger] self.entries@[j].0@
    }

    proof fn lemma_sorted_distinct(&self)
        requires
            self.keys_sorted(),
        ensures
            self.keys_distinct(),
    {
        assert forall|i: int, j: int|
            0 <= i < self.entries@.len() && 0 <= j < self.entries@.len() && i != j implies #[trigger] self.entries@[i].0@
            != #[trigger] self.entries@[j].0@ by {
            lemma_text_less_irreflexive(self.entries@[i].0@);
            if i < j {
                assert(text_less(self.entries@[i].0@, self.entries@[j].0@));
            } else {
                assert(text_less(self.entries@[j].0@, self.entries@[i].0@));
            }
        }
    }

    /// The keys, in the order in which the pairs are held.
    pub closed spec fn key_seq(&self) -> Seq<Seq<char>> {
        self.entries@.map_values(|e: (String, V)| e.0@)
    }

    spec fn has_key(&self, k: Seq<char>) -> bool {
        exists|i: int| 0 <= i < self.entries@.len() && self.entries@[i].0@ == k
    }

    spec fn index_of(&self, k: Seq<char>) -> int {
        choose|i: int| 0 <= i < self.entries@.len() && self.entries@[i].0@ == k
    }

    pub closed spec fn view(&self) -> Map<Seq<char>, V> {
        Map::new(|k: Seq<char>| self.has_key(k), |k: Seq<char>| self.entries@[self.index_of(k)].1)
    }

    proof fn lemma_view(&self)
        requires
            self.keys_distinct(),
        ensures
            forall|i: int|
                0 <= i < self.entries@.len() ==> #[trigger] self@.contains_key(self.entries@[i].0@)
                    && self@[self.entries@[i].0@] == self.entries@[i].1,
            forall|k: Seq<char>|
                self@.contains_key(k) <==> exists|i: int|
                    0 <= i < self.entries@.len() && #[trigger] self.entries@[i].0@ == k,
            self.key_seq().len() == self.entries@.len(),
            forall|i: int|
                0 <= i < self.entries@.len() ==> #[trigger] self.key_seq()[i] == self.entries@[i].0@,
    {
        assert forall|i: int| 0 <= i < self.entries@.len() implies #[trigger] self@.contains_key(
            self.entries@[i].0@,
        ) && self@[self.entries@[i].0@] == self.entries@[i].1 by {
            let k = self.entries@[i].0@;
            assert(self.has_key(k));
            let j = self.index_of(k);
            assert(self.entries@[j].0@ == k);
            assert(j == i);
        }
    }

    pub fn new() -> (r: Self)
        ensures
            r@ == Map::<Seq<char>, V>::empty(),
            r.key_seq() == Seq::<Seq<char>>::empty(),
    {
        let r = KeyedStore { entries: Vec::new() };
        assert(r@ =~= Map::<Seq<char>, V>::empty());
        assert(r.key_seq() =~= Seq::<Seq<char>>::empty());
        r
    }

    /// The number of pairs; also states that the keys listed by `key_seq` are exactly the
    /// map's keys, each once.
    pub fn len(&self) -> (n: usize)
        ensures
            n == self.key_seq().len(),
            self.key_seq().no_duplicates(),
            forall|k: Seq<char>| self@.contains_key(k) <==> self.key_seq().contains(k),
            forall|i: int, j: int|
                0 <= i < j < self.key_seq().len() ==> text_less(
                    #[trigger] self.key_seq()[i],
                    #[trigger] self.key_seq()[j],
                ),
    {
        proof {
            use_type_invariant(self);
            self.lemma_sorted_distinct();
            self.lemma_view();
            assert forall|k: Seq<char>| self@.contains_key(k) <==> self.key_seq().contains(k) by {
                if self@.contains_key(k) {
                    let i = choose|i: int| 0 <= i < self.entries@.len() && self.entries@[i].0@ == k;
                    assert(self.key_seq()[i] == k);
                }
                if self.key_seq().contains(k) {
                    let i = choose|i: int| 0 <= i < self.key_seq().len() && self.key_seq()[i] == k;
                    assert(self.entries@[i].0@ == k);
                }
            }
        }
        self.entries.len()
    }

    pub fn is_empty(&self) -> (r: bool)
        ensures
            r == (self@ == Map::<Seq<char>, V>::empty()),
    {
        proof {
            use_type_invariant(self);
            self.lemma_sorted_distinct();
            self.lemma_view();
        }
        if self.entries.len() == 0 {
            assert(self@ =~= Map::<Seq<char>, V>::empty());
            true
        } else {
            assert(self@.contains_key(self.entries@[0].0@));
            false
        }
    }

    /// The pair held at position `i` of `key_seq`.
    pub fn entry_at(&self, i: usize) -> (r: (&String, &V))
        requires
            i < self.key_seq().len(),
        ensures
            r.0@ == self.key_seq()[i as int],
            self@.contains_key(r.0@),
            self@[r.0@] == *r.1,
    {
        proof {
            use_type_invariant(self);
            self.lemma_sorted_distinct();
            self.lemma_view();
        }
        let e = &self.entries[i];
        (&e.0, &e.1)
    }

    fn find(&self, k: &String) -> (r: Option<usize>)
        ensures
            match r {
                Some(i) => i < self.entries@.len() && self.entries@[i as int].0@ == k@,
                None => forall|j: int| 0 <= j < self.entries@.len() ==> self.entries@[j].0@ != k@,
            },
    {
        let mut i: usize = 0;
        while i < self.entries.len()
            invariant
                i <= self.entries@.len(),
                forall|j: int| 0 <= j < i ==> self.entries@[j].0@ != k@,
            decreases self.entries@.len() - i,
        {
            if self.entries[i].0 == *k {
                return Some(i);
            }
            i = i + 1;
        }
        None
    }

    pub fn contains_key(&self, k: &String) -> (r: bool)
        ensures
            r == self@.contains_key(k@),
    {
        proof {
            use_type_invariant(self);
            self.lemma_sorted_distinct();
            self.lemma_view();
        }
        self.find(k).is_some()
    }

    pub fn get(&self, k: &String) -> (r: Option<&V>)
        ensures
            match r {
                Some(v) => self@.contains_key(k@) && *v == self@[k@],
                None => !self@.contains_key(k@),
            },
    {
        proof {
            use_type_invariant(self);
            self.lemma_sorted_distinct();
            self.lemma_view();
        }
        match self.find(k) {
            Some(i) => Some(&self.entries[i].1),
            None => None,
        }
    }

    /// Where `k` belongs: the first position whose key does not come before `k`, and
    /// whether that key is `k`.
    fn locate(&self, k: &String) -> (r: (bool, usize))
        requires
            self.keys_sorted(),
        ensures
            r.1 <= self.entries@.len(),
            forall|i: int| 0 <= i < r.1 ==> text_less(#[trigger] self.entries@[i].0@, k@),
            r.0 ==> r.1 < self.entries@.len() && self.entries@[r.1 as int].0@ == k@,
            !r.0 ==> r.1 == self.entries@.len() || text_less(k@, self.entries@[r.1 as int].0@),
    {
        let mut i: usize = 0;
        while i < self.entries.len()
            invariant
                i <= self.entries@.len(),
                forall|j: int| 0 <= j < i ==> text_less(#[trigger] self.entries@[j].0@, k@),
            decreases self.entries@.len() - i,
        {
            if !text_lt(self.entries[i].0.as_str(), k.as_str()) {
                let same = self.entries[i].0 == *k;
                proof {
                    lemma_text_less_total(self.entries@[i as int].0@, k@);
                }
                return (same, i);
            }
            i = i + 1;
        }
        (false, i)
    }

    /// Sets the value of `k`, adding the key in its place in the order when it is new.
    pub fn insert(&mut self, k: String, v: V)
        ensures
            final(self)@ == old(self)@.insert(k@, v),
    {
        proof {
            use_type_invariant(&*self);
            self.lemma_sorted_distinct();
            self.lemma_view();
        }
        let (found, p) = self.locate(&k);
        let ghost kv = k@;
        let ghost old_entries = self.entries@;
        let mut es: Vec<(String, V)> = Vec::new();
        std::mem::swap(&mut es, &mut self.entries);
        if found {
            es.set(p, (k, v));
        } else {
            es.insert(p, (k, v));
        }
        assert forall|i: int, j: int| 0 <= i < j < es@.len() implies text_less(
            #[trigger] es@[i].0@,
            #[trigger] es@[j].0@,
        ) by {
            if found {
                if i == p {
                    assert(old_entries[i].0@ == kv);
                    assert(text_less(old_entries[i].0@, old_entries[j].0@));
                } else if j == p {
                    assert(old_entries[j].0@ == kv);
                    assert(text_less(old_entries[i].0@, old_entries[j].0@));
                } else {
                    assert(text_less(old_entries[i].0@, old_entries[j].0@));
                }
            } else {
                if j < p {
                    assert(text_less(old_entries[i].0@, old_entries[j].0@));
                } else if j == p {
                    assert(text_less(old_entries[i].0@, kv));
                } else if i < p {
                    assert(es@[j] == old_entries[j - 1]);
                    assert(text_less(old_entries[i].0@, old_entries[j - 1].0@));
                } else if i == p {
                    assert(es@[j] == old_entries[j - 1]);
                    if j - 1 > p {
                        assert(text_less(old_entries[p as int].0@, old_entries[j - 1].0@));
                        lemma_text_less_transitive(kv, old_entries[p as int].0@, old_entries[j - 1].0@);
                    }
                } else {
                    assert(es@[i] == old_entries[i - 1]);
                    assert(es@[j] == old_entries[j - 1]);
                    assert(text_less(old_entries[i - 1].0@, old_entries[j - 1].0@));
                }
            }
        }
        self.entries = es;
        proof {
            self.lemma_sorted_distinct();
            self.lemma_view();
            let m = old(self)@.insert(kv, v);
            assert(self.entries@[p as int].0@ == kv);
            assert forall|key: Seq<char>| #[trigger] self@.contains_key(key) <==> m.contains_key(key) by {
                if self@.contains_key(key) && key != kv {
                    let j = choose|j: int| 0 <= j < self.entries@.len() && self.entries@[j].0@ == key;
                    let j2 = if found || j < p { j } else { j - 1 };
                    assert(self.entries@[j] == old_entries[j2]);
                    assert(old(self)@.contains_key(old_entries[j2].0@));
                }
                if old(self)@.contains_key(key) && key != kv {
                    let j = choose|j: int| 0 <= j < old_entries.len() && old_entries[j].0@ == key;
                    let j2 = if found || j < p { j } else { j + 1 };
                    assert(self.entries@[j2] == old_entries[j]);
                }
            }
            assert forall|key: Seq<char>| #[trigger] self@.contains_key(key) implies self@[key] == m[key] by {
                if key != kv {
                    let j = choose|j: int| 0 <= j < old_entries.len() && old_entries[j].0@ == key;
                    let j2 = if found || j < p { j } else { j + 1 };
                    assert(self.entries@[j2] == old_entries[j]);
                }
            }
            assert(self@ =~= m);
        }
    }

    /// Removes `k`, returning its value when it was present.
    pub fn remove(&mut self, k: &String) -> (r: Option<V>)
        ensures
            final(self)@ == old(self)@.remove(k@),
            match r {
                Some(v) => old(self)@.contains_key(k@) && v == old(self)@[k@],
                None => !old(self)@.contains_key(k@),
            },
    {
        proof {
            use_type_invariant(&*self);
            self.lemma_sorted_distinct();
            self.lemma_view();
        }
        match self.find(k) {
            None => {
                assert(self@ =~= old(self)@.remove(k@));
                None
            },
            Some(i) => {
                let ghost old_entries = self.entries@;
                let mut es: Vec<(String, V)> = Vec::new();
                std::mem::swap(&mut es, &mut self.entries);
                let e = es.remove(i);
                assert forall|a: int, b: int| 0 <= a < b < es@.len() implies text_less(
                    #[trigger] es@[a].0@,
                    #[trigger] es@[b].0@,
                ) by {
                    let a2 = if a < i { a } else { a + 1 };
                    let b2 = if b < i { b } else { b + 1 };
                    assert(es@[a] == old_entries[a2]);
                    assert(es@[b] == old_entries[b2]);
                    assert(text_less(old_entries[a2].0@, old_entries[b2].0@));
                }
                self.entries = es;
                proof {
                    self.lemma_sorted_distinct();
                    self.lemma_view();
                    let m = old(self)@.remove(k@);
                    assert forall|key: Seq<char>| #[trigger] self@.contains_key(key) <==> m.contains_key(key) by {
                        if self@.contains_key(key) {
                            let j = choose|j: int| 0 <= j < self.entries@.len() && self.entries@[j].0@ == key;
                            let j2 = if j < i { j } else { j + 1 };
                            assert(self.entries@[j] == old_entries[j2]);
                            assert(j2 != i);
                        }
                        if m.contains_key(key) {
                            let j = choose|j: int| 0 <= j < old_entries.len() && old_entries[j].0@ == key;
                            assert(j != i);
                            let j2 = if j < i { j } else { j - 1 };
                            assert(self.entries@[j2] == old_entries[j]);
                        }
                    }
                    assert forall|key: Seq<char>| #[trigger] self@.contains_key(key) implies self@[key] == m[key] by {
                        let j = choose|j: int| 0 <= j < old_entries.len() && old_entries[j].0@ == key;
                        assert(j != i);
                        let j2 = if j < i { j } else { j - 1 };
                        assert(self.entries@[j2] == old_entries[j]);
                    }
                    assert(self@ =~= m);
                }
                Some(e.1)
            },
        }
    }
}

impl KeyedStore<String> {
    /// A copy of a text map.
    pub fn copy(&self) -> (r: Self)
        ensures
            r@ == self@,
            r.key_seq() == self.key_seq(),
    {
        proof {
            use_type_invariant(self);
            self.lemma_sorted_distinct();
        }
        let mut es: Vec<(String, String)> = Vec::new();
        let mut i: usize = 0;
        while i < self.entries.len()
            invariant
                i <= self.entries@.len(),
                es@ == self.entries@.subrange(0, i as int),
            decreases self.entries@.len() - i,
        {
            let e = &self.entries[i];
            es.push((e.0.clone(), e.1.clone()));
            assert(es@ =~= self.entries@.subrange(0, i + 1));
            i = i + 1;
        }
        assert(es@ =~= self.entries@);
        let r = KeyedStore { entries: es };
        assert(r@ =~= self@);
        assert(r.key_seq() =~= self.key_seq());
        r
    }
}

} // verus!
