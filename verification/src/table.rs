//! A small map from names to values.

use crate::text::{same, texts};
use vstd::prelude::*;

verus! {

/// A map from names to values, each name at most once.
pub struct NameTable<V> {
    entries: Vec<(String, V)>,
}

impl<V> View for NameTable<V> {
    type V = Map<Seq<char>, V>;

    closed spec fn view(&self) -> Map<Seq<char>, V> {
        Map::new(
            |k: Seq<char>| exists|i: int| 0 <= i < self.entries@.len() && self.entries@[i].0@ == k,
            |k: Seq<char>|
                self.entries@[choose|i: int|
                    0 <= i < self.entries@.len() && self.entries@[i].0@ == k].1,
        )
    }
}

impl<V> NameTable<V> {
    #[verifier::type_invariant]
    spec fn names_differ(self) -> bool {
        forall|i: int, j: int|
            0 <= i < self.entries@.len() && 0 <= j < self.entries@.len() && #[trigger] self.entries@[i].0@
                == #[trigger] self.entries@[j].0@ ==> i == j
    }

    proof fn lemma_at(self, i: int)
        requires
            self.names_differ(),
            0 <= i < self.entries@.len(),
        ensures
            self@.contains_key(self.entries@[i].0@),
            self@[self.entries@[i].0@] == self.entries@[i].1,
    {
    }

    /// The table without entries.
    pub fn new() -> (r: Self)
        ensures
            r@ == Map::<Seq<char>, V>::empty(),
    {
        let r = NameTable { entries: Vec::new() };
        assert(r@ =~= Map::empty());
        r
    }

    /// The value for `name`, if there is one.
    pub fn get(&self, name: &str) -> (r: Option<&V>)
        ensures
            match r {
                Some(v) => self@.contains_key(name@) && *v == self@[name@],
                None => !self@.contains_key(name@),
            },
    {
        proof {
            use_type_invariant(self);
        }
        let n: usize = self.entries.len();
        let mut i: usize = 0;
        while i < n
            invariant
                self.names_differ(),
                n == self.entries@.len(),
                i <= n,
                forall|j: int| 0 <= j < i ==> #[trigger] self.entries@[j].0@ != name@,
            decreases n - i,
        {
            if same(self.entries[i].0.as_str(), name) {
                proof {
                    self.lemma_at(i as int);
                }
                return Some(&self.entries[i].1);
            }
            i = i + 1;
        }
        None
    }

    /// Whether there is a value for `name`.
    pub fn contains_key(&self, name: &str) -> (r: bool)
        ensures
            r == self@.contains_key(name@),
    {
        self.get(name).is_some()
    }

    /// The table with `value` for `name`, in place of what it held for that name.
    pub fn insert(self, name: String, value: V) -> (r: Self)
        ensures
            r@ == self@.insert(name@, value),
    {
        proof {
            use_type_invariant(&self);
        }
        let ghost before = self;
        let mut old_entries = self.entries;
        let mut entries: Vec<(String, V)> = Vec::new();
        let ghost all = old_entries@;
        let ghost mut kept: int = 0;
        while old_entries.len() > 0
            invariant
                before.names_differ(),
                all == before.entries@,
                kept + old_entries@.len() == all.len(),
                0 <= kept,
                old_entries@ == all.take(old_entries@.len() as int),
                forall|i: int| #![trigger entries@[i]]
                    0 <= i < entries@.len() ==> entries@[i].0@ != name@ && exists|j: int|
                        old_entries@.len() <= j < all.len() && entries@[i] == #[trigger] all[j],
                forall|j: int| #![trigger all[j]]
                    old_entries@.len() <= j < all.len() && all[j].0@ != name@ ==> exists|i: int|
                        0 <= i < entries@.len() && #[trigger] entries@[i] == all[j],
                forall|i: int, j: int|
                    0 <= i < entries@.len() && 0 <= j < entries@.len() && #[trigger] entries@[i].0@
                        == #[trigger] entries@[j].0@ ==> i == j,
            decreases old_entries.len(),
        {
            let ghost left = old_entries@;
            let ghost had = entries@;
            let last = old_entries.pop();
            match last {
                Some(e) => {
                    let ghost at = left.len() - 1;
                    assert(e == all[at]);
                    assert(old_entries@ =~= all.take(at));
                    if !same(e.0.as_str(), name.as_str()) {
                        entries.push(e);
                        assert(entries@[had.len() as int] == all[at]);
                        assert forall|j: int| #![trigger all[j]]
                            at <= j < all.len() && all[j].0@ != name@ implies exists|i: int|
                            0 <= i < entries@.len() && #[trigger] entries@[i] == all[j] by {
                            if j > at {
                                let i = choose|i: int|
                                    0 <= i < had.len() && #[trigger] had[i] == all[j];
                                assert(entries@[i] == all[j]);
                            }
                        }
                    }
                    proof {
                        kept = kept + 1;
                    }
                },
                None => {},
            }
        }
        let ghost others = entries@;
        let ghost key = name@;
        entries.push((name, value));
        let r = NameTable { entries };
        proof {
            assert forall|k: Seq<char>| #[trigger] r@.contains_key(k) == before@.insert(
                key,
                value,
            ).contains_key(k) by {
                if k == key {
                    assert(r.entries@[others.len() as int].0@ == k);
                } else if before@.contains_key(k) {
                    let j = choose|j: int| 0 <= j < all.len() && all[j].0@ == k;
                    assert(all[j].0@ != key);
                    let i = choose|i: int| 0 <= i < others.len() && #[trigger] others[i] == all[j];
                    assert(r.entries@[i].0@ == k);
                } else if r@.contains_key(k) {
                    let i = choose|i: int| 0 <= i < r.entries@.len() && r.entries@[i].0@ == k;
                    assert(i < others.len());
                    assert(others[i].0@ == k);
                }
            }
            assert forall|k: Seq<char>| #[trigger] r@.contains_key(k) implies r@[k]
                == before@.insert(key, value)[k] by {
                if k == key {
                    r.lemma_at(others.len() as int);
                } else {
                    let i = choose|i: int| 0 <= i < r.entries@.len() && r.entries@[i].0@ == k;
                    assert(i < others.len());
                    let j = choose|j: int| 0 <= j < all.len() && others[i] == #[trigger] all[j];
                    r.lemma_at(i);
                    before.lemma_at(j);
                }
            }
            assert(r@ =~= before@.insert(key, value));
        }
        r
    }

    /// The names of the table, each once.
    pub fn names(&self) -> (r: Vec<String>)
        ensures
            texts(r@).no_duplicates(),
            forall|k: Seq<char>| texts(r@).contains(k) <==> self@.contains_key(k),
    {
        proof {
            use_type_invariant(self);
        }
        let n: usize = self.entries.len();
        let mut r: Vec<String> = Vec::new();
        let mut i: usize = 0;
        while i < n
            invariant
                n == self.entries@.len(),
                i <= n,
                r@.len() == i,
                forall|j: int| 0 <= j < i ==> #[trigger] r@[j]@ == self.entries@[j].0@,
            decreases n - i,
        {
            r.push(self.entries[i].0.clone());
            i = i + 1;
        }
        proof {
            assert forall|k: Seq<char>| texts(r@).contains(k) <==> self@.contains_key(k) by {
                if texts(r@).contains(k) {
                    let i = choose|i: int| 0 <= i < texts(r@).len() && texts(r@)[i] == k;
                    assert(r@[i]@ == k);
                    assert(self.entries@[i].0@ == k);
                }
                if self@.contains_key(k) {
                    let i = choose|i: int| 0 <= i < self.entries@.len() && self.entries@[i].0@ == k;
                    assert(texts(r@)[i] == r@[i]@);
                }
            }
            assert forall|a: int, b: int|
                0 <= a < texts(r@).len() && 0 <= b < texts(r@).len() && a != b implies texts(r@)[a]
                != texts(r@)[b] by {
                assert(texts(r@)[a] == self.entries@[a].0@);
                assert(texts(r@)[b] == self.entries@[b].0@);
            }
        }
        r
    }
}

} // verus!
