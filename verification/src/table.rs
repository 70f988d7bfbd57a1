//! An ordered table from string keys to values: the model of an ordered map
//! with `String` keys. Entries are kept sorted by key in [`text_lt`] order, so
//! iteration visits keys in the same order as `BTreeMap<String, _>`.

use vstd::prelude::*;
use crate::text::{text_eq, text_less, text_lt, lemma_text_lt_irreflexive,
    lemma_text_lt_transitive, lemma_text_lt_total, lemma_text_lt_asymmetric};

verus! {

/// Keys of `e`, in order.
pub open spec fn keys_of<V>(e: Seq<(String, V)>) -> Seq<Seq<char>> {
    e.map_values(|p: (String, V)| p.0@)
}

/// Whether the keys of `e` are strictly increasing.
pub open spec fn strictly_sorted(keys: Seq<Seq<char>>) -> bool {
    forall|i: int, j: int| 0 <= i < j < keys.len() ==> text_lt(keys[i], keys[j])
}

/// Some index of `e` holding key `k`.
pub open spec fn index_of_key<V>(e: Seq<(String, V)>, k: Seq<char>) -> int {
    choose|i: int| 0 <= i < e.len() && e[i].0@ == k
}

/// The map that the entries `e` describe.
pub open spec fn map_of<V>(e: Seq<(String, V)>) -> Map<Seq<char>, V> {
    Map::new(
        |k: Seq<char>| exists|i: int| 0 <= i < e.len() && e[i].0@ == k,
        |k: Seq<char>| e[index_of_key(e, k)].1,
    )
}

/// In sorted entries, the value stored under the key of entry `i` is entry `i`'s value.
pub proof fn lemma_map_of_at<V>(e: Seq<(String, V)>, i: int)
    requires
        strictly_sorted(keys_of(e)),
        0 <= i < e.len(),
    ensures
        map_of(e).contains_key(e[i].0@),
        map_of(e)[e[i].0@] == e[i].1,
{
    let k = e[i].0@;
    assert(keys_of(e)[i] == k);
    assert(0 <= i < e.len() && e[i].0@ == k);
    let j = index_of_key(e, k);
    assert(keys_of(e)[j] == k);
    if j < i {
        assert(text_lt(keys_of(e)[j], keys_of(e)[i]));
        lemma_text_lt_irreflexive(k);
    } else if i < j {
        assert(text_lt(keys_of(e)[i], keys_of(e)[j]));
        lemma_text_lt_irreflexive(k);
    }
}

/// An ordered table from string keys to values.
pub struct Table<V> {
    entries: Vec<(String, V)>,
}

impl<V> Table<V> {
    #[verifier::type_invariant]
    spec fn sorted_keys(self) -> bool {
        strictly_sorted(keys_of(self.entries@))
    }

    /// The keys, in increasing order.
    pub closed spec fn key_list(&self) -> Seq<Seq<char>> {
        keys_of(self.entries@)
    }

    /// The table as a map.
    pub closed spec fn as_map(&self) -> Map<Seq<char>, V> {
        map_of(self.entries@)
    }

    /// An empty table.
    pub fn new() -> (t: Self)
        ensures
            t@ == Map::<Seq<char>, V>::empty(),
            t.key_list() == Seq::<Seq<char>>::empty(),
    {
        let t = Table { entries: Vec::new() };
        assert(t@ =~= Map::<Seq<char>, V>::empty());
        assert(t.key_list() =~= Seq::<Seq<char>>::empty());
        t
    }

    /// Number of entries. The key list is strictly increasing and holds
    /// exactly the keys of the map.
    pub fn len(&self) -> (n: usize)
        ensures
            n == self.key_list().len(),
            strictly_sorted(self.key_list()),
            forall|k: Seq<char>| self@.contains_key(k) <==> self.key_list().contains(k),
    {
        proof {
            use_type_invariant(self);
            assert forall|k: Seq<char>| self@.contains_key(k) <==> self.key_list().contains(k) by {
                if self@.contains_key(k) {
                    let i = choose|i: int| 0 <= i < self.entries@.len() && self.entries@[i].0@ == k;
                    assert(self.key_list()[i] == k);
                }
                if self.key_list().contains(k) {
                    let i = choose|i: int| 0 <= i < self.key_list().len() && self.key_list()[i] == k;
                    assert(self.entries@[i].0@ == k);
                }
            }
        }
        self.entries.len()
    }

    /// The key and value of the entry at position `i` in key order.
    pub fn entry_at(&self, i: usize) -> (r: (&String, &V))
        requires
            i < self.key_list().len(),
        ensures
            r.0@ == self.key_list()[i as int],
            self@.contains_key(r.0@),
            self@[r.0@] == *r.1,
    {
        proof {
            use_type_invariant(self);
            lemma_map_of_at(self.entries@, i as int);
        }
        let e = &self.entries[i];
        (&e.0, &e.1)
    }

    /// Position of `k`: every earlier key is smaller; the key there, if any,
    /// is `k` exactly when `found`, and larger otherwise.
    fn locate(&self, k: &str) -> (r: (bool, usize))
        ensures
            r.1 <= self.entries@.len(),
            forall|j: int| 0 <= j < r.1 ==> text_lt(#[trigger] self.entries@[j].0@, k@),
            r.0 ==> r.1 < self.entries@.len() && self.entries@[r.1 as int].0@ == k@,
            !r.0 ==> (r.1 < self.entries@.len() ==> text_lt(k@, self.entries@[r.1 as int].0@)),
            r.0 == map_of(self.entries@).contains_key(k@),
    {
        proof { use_type_invariant(self); }
        let mut i: usize = 0;
        while i < self.entries.len()
            invariant
                i <= self.entries@.len(),
                strictly_sorted(keys_of(self.entries@)),
                forall|j: int| 0 <= j < i ==> text_lt(#[trigger] self.entries@[j].0@, k@),
            decreases self.entries@.len() - i,
        {
            if !text_less(self.entries[i].0.as_str(), k) {
                let same = text_eq(self.entries[i].0.as_str(), k);
                if !same {
                    proof {
                        lemma_text_lt_total(k@, self.entries@[i as int].0@);
                        self.lemma_absent(k@, i as int);
                    }
                } else {
                    proof { lemma_map_of_at(self.entries@, i as int); }
                }
                return (same, i);
            }
            i = i + 1;
        }
        proof { self.lemma_absent(k@, i as int); }
        (false, i)
    }

    proof fn lemma_absent(&self, k: Seq<char>, pos: int)
        requires
            strictly_sorted(keys_of(self.entries@)),
            0 <= pos <= self.entries@.len(),
            forall|j: int| 0 <= j < pos ==> text_lt(#[trigger] self.entries@[j].0@, k),
            pos < self.entries@.len() ==> text_lt(k, self.entries@[pos].0@),
        ensures
            !map_of(self.entries@).contains_key(k),
    {
        if map_of(self.entries@).contains_key(k) {
            let i = choose|i: int| 0 <= i < self.entries@.len() && self.entries@[i].0@ == k;
            if i < pos {
                lemma_text_lt_irreflexive(k);
            } else {
                assert(keys_of(self.entries@)[pos] == self.entries@[pos].0@);
                if i > pos {
                    assert(keys_of(self.entries@)[i] == k);
                    lemma_text_lt_asymmetric(k, self.entries@[pos].0@);
                } else {
                    lemma_text_lt_irreflexive(k);
                }
            }
        }
    }

    /// Whether `k` is a key.
    pub fn contains_key(&self, k: &str) -> (r: bool)
        ensures
            r == self@.contains_key(k@),
    {
        let (found, _) = self.locate(k);
        found
    }

    /// The value stored under `k`, if any.
    pub fn get(&self, k: &str) -> (r: Option<&V>)
        ensures
            r is Some <==> self@.contains_key(k@),
            r matches Some(v) ==> *v == self@[k@],
    {
        proof { use_type_invariant(self); }
        let (found, pos) = self.locate(k);
        if found {
            proof { lemma_map_of_at(self.entries@, pos as int); }
            Some(&self.entries[pos].1)
        } else {
            None
        }
    }

    /// The smallest key, if the table is not empty.
    pub fn first_key(&self) -> (r: Option<&String>)
        ensures
            r is None <==> self@.dom().is_empty(),
            r matches Some(k) ==> self@.contains_key(k@)
                && forall|q: Seq<char>| #[trigger] self@.contains_key(q) ==> q == k@ || text_lt(k@, q),
    {
        proof { use_type_invariant(self); }
        if self.entries.len() == 0 {
            assert(self@.dom() =~= Set::<Seq<char>>::empty());
            None
        } else {
            proof {
                lemma_map_of_at(self.entries@, 0);
                assert forall|q: Seq<char>| #[trigger] self@.contains_key(q) implies q == self.entries@[0].0@
                    || text_lt(self.entries@[0].0@, q) by {
                    let i = choose|i: int| 0 <= i < self.entries@.len() && self.entries@[i].0@ == q;
                    if i > 0 {
                        assert(keys_of(self.entries@)[0] == self.entries@[0].0@);
                        assert(keys_of(self.entries@)[i] == q);
                    }
                }
            }
            Some(&self.entries[0].0)
        }
    }

    /// Stores `v` under `k`, replacing any earlier value.
    pub fn insert(&mut self, k: String, v: V)
        ensures
            final(self)@ == old(self)@.insert(k@, v),
    {
        proof { use_type_invariant(&*self); }
        let (found, pos) = self.locate(k.as_str());
        let ghost old_e = self.entries@;
        let ghost kv = k@;
        let mut e: Vec<(String, V)> = Vec::new();
        std::mem::swap(&mut e, &mut self.entries);
        if found {
            e.set(pos, (k, v));
            proof {
                assert(keys_of(e@) =~= keys_of(old_e));
            }
            self.entries = e;
            proof {
                let new_e = self.entries@;
                assert forall|q: Seq<char>| #[trigger] map_of(new_e).contains_key(q) <==> map_of(old_e).insert(kv, v).contains_key(q) by {
                    if map_of(old_e).contains_key(q) {
                        let i = choose|i: int| 0 <= i < old_e.len() && old_e[i].0@ == q;
                        assert(new_e[i].0@ == q);
                    }
                    if map_of(new_e).contains_key(q) {
                        let i = choose|i: int| 0 <= i < new_e.len() && new_e[i].0@ == q;
                        if i != pos {
                            assert(old_e[i].0@ == q);
                        }
                    }
                }
                assert forall|q: Seq<char>| #[trigger] map_of(new_e).contains_key(q) implies map_of(new_e)[q] == map_of(old_e).insert(kv, v)[q] by {
                    let i = choose|i: int| 0 <= i < new_e.len() && new_e[i].0@ == q;
                    lemma_map_of_at(new_e, i);
                    if i != pos {
                        assert(old_e[i] == new_e[i]);
                        lemma_map_of_at(old_e, i);
                        assert(keys_of(old_e)[i] == q);
                        assert(keys_of(old_e)[pos as int] == kv);
                        if q == kv {
                            lemma_text_lt_irreflexive(kv);
                        }
                    }
                }
                assert(map_of(new_e) =~= map_of(old_e).insert(kv, v));
            }
        } else {
            e.insert(pos, (k, v));
            proof {
                let new_e = e@;
                assert forall|i: int, j: int| 0 <= i < j < keys_of(new_e).len() implies text_lt(
                    keys_of(new_e)[i], keys_of(new_e)[j]) by {
                    assert(keys_of(new_e)[i] == new_e[i].0@);
                    assert(keys_of(new_e)[j] == new_e[j].0@);
                    if j < pos {
                        assert(keys_of(old_e)[i] == old_e[i].0@);
                        assert(keys_of(old_e)[j] == old_e[j].0@);
                    } else if j == pos {
                        assert(new_e[i] == old_e[i]);
                    } else if i == pos {
                        assert(new_e[j] == old_e[j - 1]);
                        if j - 1 > pos {
                            assert(keys_of(old_e)[pos as int] == old_e[pos as int].0@);
                            assert(keys_of(old_e)[j - 1] == old_e[j - 1].0@);
                            lemma_text_lt_transitive(kv, old_e[pos as int].0@, old_e[j - 1].0@);
                        }
                    } else if i < pos {
                        assert(new_e[j] == old_e[j - 1]);
                        assert(keys_of(old_e)[i] == old_e[i].0@);
                        assert(keys_of(old_e)[j - 1] == old_e[j - 1].0@);
                    } else {
                        assert(new_e[i] == old_e[i - 1]);
                        assert(new_e[j] == old_e[j - 1]);
                        assert(keys_of(old_e)[i - 1] == old_e[i - 1].0@);
                        assert(keys_of(old_e)[j - 1] == old_e[j - 1].0@);
                    }
                }
            }
            self.entries = e;
            proof {
                let new_e = self.entries@;
                assert forall|q: Seq<char>| #[trigger] map_of(new_e).contains_key(q) <==> map_of(old_e).insert(kv, v).contains_key(q) by {
                    if map_of(old_e).contains_key(q) {
                        let i = choose|i: int| 0 <= i < old_e.len() && old_e[i].0@ == q;
                        if i < pos {
                            assert(new_e[i].0@ == q);
                        } else {
                            assert(new_e[i + 1].0@ == q);
                        }
                    }
                    if q == kv {
                        assert(new_e[pos as int].0@ == q);
                    }
                    if map_of(new_e).contains_key(q) {
                        let i = choose|i: int| 0 <= i < new_e.len() && new_e[i].0@ == q;
                        if i < pos {
                            assert(old_e[i].0@ == q);
                        } else if i > pos {
                            assert(old_e[i - 1].0@ == q);
                        }
                    }
                }
                assert forall|q: Seq<char>| #[trigger] map_of(new_e).contains_key(q) implies map_of(new_e)[q] == map_of(old_e).insert(kv, v)[q] by {
                    let i = choose|i: int| 0 <= i < new_e.len() && new_e[i].0@ == q;
                    assert(strictly_sorted(keys_of(new_e)));
                    lemma_map_of_at(new_e, i);
                    if i < pos {
                        assert(old_e[i] == new_e[i]);
                        lemma_map_of_at(old_e, i);
                        assert(text_lt(old_e[i].0@, kv));
                        if q == kv { lemma_text_lt_irreflexive(kv); }
                        assert(map_of(new_e)[q] == map_of(old_e).insert(kv, v)[q]);
                    } else if i == pos {
                        assert(new_e[i].1 == v);
                        assert(map_of(new_e)[q] == map_of(old_e).insert(kv, v)[q]);
                    } else {
                        assert(old_e[i - 1] == new_e[i]);
                        lemma_map_of_at(old_e, i - 1);
                        if q == kv {
                            assert(keys_of(new_e)[pos as int] == kv);
                            assert(keys_of(new_e)[i] == q);
                            lemma_text_lt_irreflexive(kv);
                        }
                        assert(map_of(new_e)[q] == map_of(old_e).insert(kv, v)[q]);
                    }
                }
                assert(map_of(new_e) =~= map_of(old_e).insert(kv, v));
            }
        }
    }

    /// Removes the entry for `k`, handing back its value if there was one.
    pub fn remove(&mut self, k: &str) -> (r: Option<V>)
        ensures
            final(self)@ == old(self)@.remove(k@),
            r is Some <==> old(self)@.contains_key(k@),
            r matches Some(v) ==> v == old(self)@[k@],
    {
        proof { use_type_invariant(&*self); }
        let (found, pos) = self.locate(k);
        let ghost old_e = self.entries@;
        if found {
            proof { lemma_map_of_at(old_e, pos as int); }
            let mut e: Vec<(String, V)> = Vec::new();
            std::mem::swap(&mut e, &mut self.entries);
            let (_, v) = e.remove(pos);
            proof {
                let new_e = e@;
                assert forall|i: int, j: int| 0 <= i < j < keys_of(new_e).len() implies text_lt(
                    keys_of(new_e)[i], keys_of(new_e)[j]) by {
                    let oi = if i < pos { i } else { i + 1 };
                    let oj = if j < pos { j } else { j + 1 };
                    assert(new_e[i] == old_e[oi]);
                    assert(new_e[j] == old_e[oj]);
                    assert(keys_of(old_e)[oi] == old_e[oi].0@);
                    assert(keys_of(old_e)[oj] == old_e[oj].0@);
                }
            }
            self.entries = e;
            proof {
                let new_e = self.entries@;
                assert forall|q: Seq<char>| #[trigger] map_of(new_e).contains_key(q) <==> map_of(old_e).remove(k@).contains_key(q) by {
                    if map_of(old_e).contains_key(q) && q != k@ {
                        let i = choose|i: int| 0 <= i < old_e.len() && old_e[i].0@ == q;
                        if i < pos {
                            assert(new_e[i].0@ == q);
                        } else {
                            assert(i != pos);
                            assert(new_e[i - 1].0@ == q);
                        }
                    }
                    if map_of(new_e).contains_key(q) {
                        let i = choose|i: int| 0 <= i < new_e.len() && new_e[i].0@ == q;
                        let oi = if i < pos { i } else { i + 1 };
                        assert(old_e[oi].0@ == q);
                        assert(keys_of(old_e)[oi] == q);
                        assert(keys_of(old_e)[pos as int] == k@);
                        if q == k@ { lemma_text_lt_irreflexive(k@); }
                    }
                }
                assert forall|q: Seq<char>| #[trigger] map_of(new_e).contains_key(q) implies map_of(new_e)[q] == map_of(old_e).remove(k@)[q] by {
                    let i = choose|i: int| 0 <= i < new_e.len() && new_e[i].0@ == q;
                    lemma_map_of_at(new_e, i);
                    let oi = if i < pos { i } else { i + 1 };
                    assert(old_e[oi] == new_e[i]);
                    lemma_map_of_at(old_e, oi);
                }
                assert(map_of(new_e) =~= map_of(old_e).remove(k@));
            }
            Some(v)
        } else {
            proof {
                assert(map_of(old_e) =~= map_of(old_e).remove(k@));
            }
            None
        }
    }
}

impl<V> View for Table<V> {
    type V = Map<Seq<char>, V>;

    closed spec fn view(&self) -> Map<Seq<char>, V> {
        self.as_map()
    }
}

} // verus!
