//! A map from strings, kept as entries with distinct keys.
use crate::text::same;
use vstd::prelude::*;

verus! {

/// A map keyed by text. No two entries have the same key.
#[derive(Debug, PartialEq)]
pub struct StrMap<V> {
    entries: Vec<(String, V)>,
}

spec fn find_key<V>(es: Seq<(String, V)>, k: Seq<char>) -> int {
    choose|i: int| 0 <= i < es.len() && (#[trigger] es[i]).0@ == k
}

spec fn has_key<V>(es: Seq<(String, V)>, k: Seq<char>) -> bool {
    exists|i: int| 0 <= i < es.len() && (#[trigger] es[i]).0@ == k
}

spec fn as_map<V>(es: Seq<(String, V)>) -> Map<Seq<char>, V> {
    Map::new(|k: Seq<char>| has_key(es, k), |k: Seq<char>| es[find_key(es, k)].1)
}

spec fn distinct<V>(es: Seq<(String, V)>) -> bool {
    forall|i: int, j: int| 0 <= i < j < es.len() ==> (#[trigger] es[i]).0@ != (#[trigger] es[j]).0@
}

impl<V> View for StrMap<V> {
    type V = Map<Seq<char>, V>;

    closed spec fn view(&self) -> Map<Seq<char>, V> {
        as_map(self.entries@)
    }
}

/// A map is greater than each value it holds, in the order that recursion descends by.
pub broadcast proof fn lemma_value_below<V>(m: StrMap<V>, k: Seq<char>)
    requires
        m@.contains_key(k),
    ensures
        decreases_to!(m => #[trigger] m@[k]),
{
    let i = find_key(m.entries@, k);
    assert(m@[k] == m.entries@[i].1);
    assert(decreases_to!(m => m.entries));
    assert(decreases_to!(m.entries => m.entries@));
    assert(decreases_to!(m.entries@ => m.entries@[i]));
    assert(decreases_to!(m.entries@[i] => m.entries@[i].1));
}

proof fn lemma_lookup<V>(es: Seq<(String, V)>, i: int)
    requires
        distinct(es),
        0 <= i < es.len(),
    ensures
        has_key(es, es[i].0@),
        find_key(es, es[i].0@) == i,
        as_map(es)[es[i].0@] == es[i].1,
        as_map(es).contains_key(es[i].0@),
{
    let k = es[i].0@;
    assert(has_key(es, k));
    let j = find_key(es, k);
    assert(0 <= j < es.len() && es[j].0@ == k);
}

impl<V> StrMap<V> {
    #[verifier::type_invariant]
    spec fn inv(self) -> bool {
        distinct(self.entries@)
    }

    /// The keys, in the order in which they were first put in.
    pub closed spec fn keys(self) -> Seq<Seq<char>> {
        Seq::new(self.entries@.len(), |i: int| self.entries@[i].0@)
    }

    /// The empty map.
    pub fn new() -> (r: Self)
        ensures
            r@ == Map::<Seq<char>, V>::empty(),
            r.keys() == Seq::<Seq<char>>::empty(),
    {
        let r = StrMap { entries: Vec::new() };
        assert(r@ =~= Map::<Seq<char>, V>::empty());
        r
    }

    /// How many entries there are.
    pub fn len(&self) -> (r: usize)
        ensures
            r == self.keys().len(),
            (r == 0) == (self@ =~= Map::<Seq<char>, V>::empty()),
            self.keys().no_duplicates(),
            forall|k: Seq<char>| #[trigger] self@.contains_key(k) <==> self.keys().contains(k),
    {
        proof {
            use_type_invariant(self);
            if self.entries@.len() > 0 {
                lemma_lookup(self.entries@, 0);
            }
            assert forall|k: Seq<char>| #[trigger]
                self@.contains_key(k) implies self.keys().contains(k) by {
                let i = find_key(self.entries@, k);
                assert(self.keys()[i] == k);
            }
            assert forall|k: Seq<char>| self.keys().contains(k) implies #[trigger]
                self@.contains_key(k) by {
                let i = choose|i: int| 0 <= i < self.keys().len() && self.keys()[i] == k;
                lemma_lookup(self.entries@, i);
            }
        }
        self.entries.len()
    }

    /// Whether there is no entry.
    pub fn is_empty(&self) -> (r: bool)
        ensures
            r == (self@ =~= Map::<Seq<char>, V>::empty()),
            r == (self.keys().len() == 0),
    {
        self.len() == 0
    }

    fn position(&self, key: &str) -> (r: Option<usize>)
        ensures
            match r {
                Some(i) => i < self.entries@.len() && self.entries@[i as int].0@ == key@,
                None => !has_key(self.entries@, key@),
            },
    {
        let n: usize = self.entries.len();
        let mut i: usize = 0;
        while i < n
            invariant
                n == self.entries@.len(),
                i <= n,
                forall|k: int| 0 <= k < i ==> (#[trigger] self.entries@[k]).0@ != key@,
            decreases n - i,
        {
            if same(self.entries[i].0.as_str(), key) {
                return Some(i);
            }
            i += 1;
        }
        None
    }

    /// The value under a key.
    pub fn get(&self, key: &str) -> (r: Option<&V>)
        ensures
            match r {
                Some(v) => self@.contains_key(key@) && *v == self@[key@],
                None => !self@.contains_key(key@),
            },
    {
        proof {
            use_type_invariant(self);
        }
        match self.position(key) {
            Some(i) => {
                proof {
                    lemma_lookup(self.entries@, i as int);
                }
                Some(&self.entries[i].1)
            },
            None => None,
        }
    }

    /// Whether there is a value under a key.
    pub fn contains_key(&self, key: &str) -> (r: bool)
        ensures
            r == self@.contains_key(key@),
    {
        self.get(key).is_some()
    }

    /// Put a value under a key, in place of the one that was there.
    pub fn insert(&mut self, key: String, value: V)
        ensures
            final(self)@ == old(self)@.insert(key@, value),
    {
        proof {
            use_type_invariant(&*self);
        }
        let ghost before = self.entries@;
        let found = self.position(key.as_str());
        let mut es: Vec<(String, V)> = Vec::new();
        std::mem::swap(&mut es, &mut self.entries);
        match found {
            Some(i) => {
                proof {
                    lemma_lookup(before, i as int);
                }
                es.set(i, (key, value));
                proof {
                    assert forall|a: int, b: int| 0 <= a < b < es@.len() implies (
                    #[trigger] es@[a]).0@ != (#[trigger] es@[b]).0@ by {
                        assert(before[a].0@ != before[b].0@);
                    }
                    assert(distinct(es@));
                    lemma_map_set(before, i as int, key, value);
                }
            },
            None => {
                es.push((key, value));
                proof {
                    lemma_map_push(before, key, value);
                }
            },
        }
        self.entries = es;
    }

    /// The key and value at a position.
    pub fn entry(&self, i: usize) -> (r: (&String, &V))
        requires
            i < self.keys().len(),
        ensures
            r.0@ == self.keys()[i as int],
            self@.contains_key(r.0@),
            *r.1 == self@[r.0@],
    {
        proof {
            use_type_invariant(self);
            lemma_lookup(self.entries@, i as int);
        }
        (&self.entries[i].0, &self.entries[i].1)
    }
}

proof fn lemma_map_push<V>(es: Seq<(String, V)>, key: String, value: V)
    requires
        distinct(es),
        !has_key(es, key@),
    ensures
        distinct(es.push((key, value))),
        as_map(es.push((key, value))) == as_map(es).insert(key@, value),
{
    let after = es.push((key, value));
    assert(distinct(after));
    lemma_lookup(after, es.len() as int);
    assert forall|k: Seq<char>| has_key(after, k) <==> has_key(es, k) || k == key@ by {
        if has_key(es, k) {
            let i = find_key(es, k);
            assert(after[i].0@ == k);
        }
        if k == key@ {
            assert(after[es.len() as int].0@ == k);
        }
        if has_key(after, k) && k != key@ {
            let i = find_key(after, k);
            assert(es[i].0@ == k);
        }
    }
    assert forall|k: Seq<char>| has_key(es, k) implies as_map(after)[k] == as_map(es)[k] by {
        let i = find_key(es, k);
        assert(after[i].0@ == k);
        lemma_lookup(after, i);
        lemma_lookup(es, i);
    }
    assert(as_map(after) =~= as_map(es).insert(key@, value));
}

proof fn lemma_map_set<V>(es: Seq<(String, V)>, i: int, key: String, value: V)
    requires
        distinct(es),
        0 <= i < es.len(),
        es[i].0@ == key@,
        distinct(es.update(i, (key, value))),
    ensures
        as_map(es.update(i, (key, value))) == as_map(es).insert(key@, value),
{
    let after = es.update(i, (key, value));
    lemma_lookup(after, i);
    lemma_lookup(es, i);
    assert forall|k: Seq<char>| has_key(after, k) <==> has_key(es, k) by {
        if has_key(es, k) {
            let j = find_key(es, k);
            assert(after[j].0@ == k);
        }
        if has_key(after, k) {
            let j = find_key(after, k);
            assert(es[j].0@ == k);
        }
    }
    assert forall|k: Seq<char>| has_key(es, k) && k != key@ implies as_map(after)[k] == as_map(
        es,
    )[k] by {
        let j = find_key(es, k);
        assert(after[j].0@ == k);
        lemma_lookup(after, j);
        lemma_lookup(es, j);
    }
    assert(as_map(after) =~= as_map(es).insert(key@, value));
}

} // verus!
