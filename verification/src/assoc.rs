//! A small association list whose keys are compared by their views.

use vstd::prelude::*;

verus! {

/// A type whose values can be compared by what they stand for.
pub trait Key: View {
    /// Whether the two keys stand for the same thing.
    fn same(&self, other: &Self) -> (r: bool)
        ensures
            r == (self@ == other@),
    ;
}

impl Key for String {
    fn same(&self, other: &Self) -> (r: bool) {
        *self == *other
    }
}

/// Pairs of a key and a value, in no particular order, no key twice.
pub struct AssocList<K: Key, V> {
    entries: Vec<(K, V)>,
}

/// Whether `key` is the key of the pair at index `i`.
pub open spec fn keyed<K: View, V>(entries: Seq<(K, V)>, i: int, key: K::V) -> bool {
    0 <= i < entries.len() && entries[i].0@ == key
}

impl<K: Key, V> View for AssocList<K, V> {
    type V = Map<K::V, V>;

    closed spec fn view(&self) -> Map<K::V, V> {
        Map::new(
            |key: K::V| exists|i: int| keyed(self.entries@, i, key),
            |key: K::V| self.entries@[choose|i: int| keyed(self.entries@, i, key)].1,
        )
    }
}

impl<K: Key, V> AssocList<K, V> {
    /// No key occurs twice.
    pub closed spec fn wf(&self) -> bool {
        forall|i: int, j: int|
            0 <= i < self.entries@.len() && 0 <= j < self.entries@.len() && (
            #[trigger] self.entries@[i]).0@ == (#[trigger] self.entries@[j]).0@ ==> i == j
    }

    /// An empty list.
    pub fn new() -> (r: Self)
        ensures
            r.wf(),
            r@ == Map::<K::V, V>::empty(),
    {
        let r = AssocList { entries: Vec::new() };
        proof {
            assert forall|key: K::V| !r@.contains_key(key) by {
                if r@.contains_key(key) {
                    let i = choose|i: int| keyed(r.entries@, i, key);
                    assert(keyed(r.entries@, i, key));
                }
            }
            assert(r@ =~= Map::<K::V, V>::empty());
        }
        r
    }

    /// The pair at index `i` is what the view says of its key.
    proof fn lemma_entry(&self, i: int)
        requires
            self.wf(),
            0 <= i < self.entries@.len(),
        ensures
            self@.contains_key(self.entries@[i].0@),
            self@[self.entries@[i].0@] == self.entries@[i].1,
    {
        let key = self.entries@[i].0@;
        assert(keyed(self.entries@, i, key));
        let j = choose|j: int| keyed(self.entries@, j, key);
        assert(keyed(self.entries@, j, key));
        assert(self.entries@[i].0@ == self.entries@[j].0@);
    }

    /// The index of the pair with this key, if there is one.
    fn position(&self, key: &K) -> (r: Option<usize>)
        requires
            self.wf(),
        ensures
            r is Some <==> self@.contains_key(key@),
            r matches Some(i) ==> keyed(self.entries@, i as int, key@),
    {
        let mut i: usize = 0;
        while i < self.entries.len()
            invariant
                i <= self.entries@.len(),
                forall|j: int| 0 <= j < i ==> !keyed(self.entries@, j, key@),
            decreases self.entries@.len() - i,
        {
            if self.entries[i].0.same(key) {
                assert(keyed(self.entries@, i as int, key@));
                return Some(i);
            }
            i = i + 1;
        }
        None
    }

    /// Whether the key is in the list.
    pub fn contains_key(&self, key: &K) -> (r: bool)
        requires
            self.wf(),
        ensures
            r == self@.contains_key(key@),
    {
        self.position(key).is_some()
    }

    /// Adds a pair whose key is not in the list yet.
    pub fn insert(&mut self, key: K, value: V)
        requires
            old(self).wf(),
            !old(self)@.contains_key(key@),
        ensures
            final(self).wf(),
            final(self)@ == old(self)@.insert(key@, value),
    {
        let ghost before = *self;
        let ghost k = key@;
        self.entries.push((key, value));
        proof {
            let after = *self;
            assert(after.entries@ == before.entries@.push((key, value)));
            assert forall|i: int, j: int|
                0 <= i < after.entries@.len() && 0 <= j < after.entries@.len() && (
                #[trigger] after.entries@[i]).0@ == (
                #[trigger] after.entries@[j]).0@ implies i == j by {
                let n = before.entries@.len();
                if i < n && j == n {
                    assert(keyed(before.entries@, i, k));
                } else if j < n && i == n {
                    assert(keyed(before.entries@, j, k));
                }
            }
            assert forall|q: K::V| #[trigger]
                after@.contains_key(q) == before@.insert(k, value).contains_key(q) by {
                if after@.contains_key(q) {
                    let i = choose|i: int| keyed(after.entries@, i, q);
                    assert(keyed(after.entries@, i, q));
                    if i < before.entries@.len() {
                        assert(keyed(before.entries@, i, q));
                    }
                }
                if before@.contains_key(q) {
                    let i = choose|i: int| keyed(before.entries@, i, q);
                    assert(keyed(before.entries@, i, q));
                    assert(keyed(after.entries@, i, q));
                }
                if q == k {
                    assert(keyed(after.entries@, before.entries@.len() as int, q));
                }
            }
            assert forall|q: K::V| #[trigger] after@.contains_key(q) implies after@[q]
                == before@.insert(k, value)[q] by {
                let i = choose|i: int| keyed(after.entries@, i, q);
                assert(keyed(after.entries@, i, q));
                after.lemma_entry(i);
                if i < before.entries@.len() {
                    before.lemma_entry(i);
                    assert(before.entries@[i].0@ == q);
                    if q == k {
                        assert(keyed(before.entries@, i, k));
                    }
                }
            }
            assert(after@ =~= before@.insert(k, value));
        }
    }

    /// Takes the pair with this key out, if there is one.
    pub fn remove(&mut self, key: &K) -> (r: Option<V>)
        requires
            old(self).wf(),
        ensures
            final(self).wf(),
            final(self)@ == old(self)@.remove(key@),
            r is Some <==> old(self)@.contains_key(key@),
            r matches Some(value) ==> value == old(self)@[key@],
    {
        match self.position(key) {
            None => {
                assert(self@.remove(key@) =~= self@);
                None
            },
            Some(at) => {
                let ghost before = *self;
                let ghost k = key@;
                let (_, value) = self.entries.remove(at);
                proof {
                    let after = *self;
                    let n = at as int;
                    assert(after.entries@ == before.entries@.remove(n));
                    before.lemma_entry(n);
                    assert forall|i: int| 0 <= i < after.entries@.len() implies
                        after.entries@[i] == before.entries@[if i < n { i } else { i + 1 }] by {}
                    assert forall|i: int, j: int|
                        0 <= i < after.entries@.len() && 0 <= j < after.entries@.len() && (
                        #[trigger] after.entries@[i]).0@ == (
                        #[trigger] after.entries@[j]).0@ implies i == j by {
                        let bi = if i < n { i } else { i + 1 };
                        let bj = if j < n { j } else { j + 1 };
                        assert(before.entries@[bi].0@ == before.entries@[bj].0@);
                    }
                    assert forall|q: K::V| #[trigger]
                        after@.contains_key(q) == before@.remove(k).contains_key(q) by {
                        if after@.contains_key(q) {
                            let i = choose|i: int| keyed(after.entries@, i, q);
                            assert(keyed(after.entries@, i, q));
                            let bi = if i < n { i } else { i + 1 };
                            assert(keyed(before.entries@, bi, q));
                            assert(before.entries@[bi].0@ == q);
                            assert(before.entries@[n].0@ == k);
                            assert(q != k);
                        }
                        if before@.remove(k).contains_key(q) {
                            let i = choose|i: int| keyed(before.entries@, i, q);
                            assert(keyed(before.entries@, i, q));
                            assert(i != n);
                            let ai = if i < n { i } else { i - 1 };
                            assert(keyed(after.entries@, ai, q));
                        }
                    }
                    assert forall|q: K::V| #[trigger] after@.contains_key(q) implies after@[q]
                        == before@.remove(k)[q] by {
                        let i = choose|i: int| keyed(after.entries@, i, q);
                        assert(keyed(after.entries@, i, q));
                        after.lemma_entry(i);
                        let bi = if i < n { i } else { i + 1 };
                        before.lemma_entry(bi);
                        assert(before.entries@[bi].0@ == q);
                        assert(q != k);
                    }
                    assert(after@ =~= before@.remove(k));
                }
                Some(value)
            },
        }
    }
}

} // verus!
