//! An ordered map from labels to values.
//!
//! A `LabelMap` keeps its entries in the order of their labels, so walking
//! it visits the labels in an order that depends on the set of labels
//! alone, never on the order in which they were inserted.

pub mod order;

pub use self::order::{
    compare_labels, label_less, lemma_label_less_irreflexive, lemma_label_less_total,
    lemma_label_less_transitive, lemma_sorted_index_of, lemma_sorted_no_duplicates,
    lemma_sorted_unique, sorted, LabelOrder,
};

use vstd::prelude::*;

verus! {

/// The map that takes each of `keys` to the value at the same position.
pub open spec fn entries_map<V>(keys: Seq<Seq<char>>, values: Seq<V>) -> Map<Seq<char>, V> {
    Map::new(|k: Seq<char>| keys.contains(k), |k: Seq<char>| values[keys.index_of(k)])
}

/// A map from labels to values that keeps its entries in the order of their
/// labels.
pub struct LabelMap<V> {
    entries: Vec<(String, V)>,
}

impl<V> View for LabelMap<V> {
    type V = Map<Seq<char>, V>;

    /// The map as a mathematical map from labels to values.
    closed spec fn view(&self) -> Map<Seq<char>, V> {
        entries_map(self.keys(), self.values())
    }
}

impl<V: DeepView> DeepView for LabelMap<V> {
    type V = Map<Seq<char>, V::V>;

    /// The map from labels to the views of the values.
    open spec fn deep_view(&self) -> Map<Seq<char>, V::V> {
        self@.map_values(|v: V| v.deep_view())
    }
}

impl<V> LabelMap<V> {
    /// The labels of the map in the order in which it is walked.
    pub closed spec fn keys(&self) -> Seq<Seq<char>> {
        self.entries@.map_values(|e: (String, V)| e.0@)
    }

    /// The values of the map, each at the position of its label in `keys`.
    pub closed spec fn values(&self) -> Seq<V> {
        self.entries@.map_values(|e: (String, V)| e.1)
    }

    /// Whether the labels are in strictly ascending order. This holds of
    /// every map that a program can get hold of.
    #[verifier::type_invariant]
    pub closed spec fn wf(&self) -> bool {
        sorted(self.keys())
    }

    /// How the sequences of labels and values relate to the view.
    pub proof fn lemma_entries(&self)
        requires
            self.wf(),
        ensures
            sorted(self.keys()),
            self.keys().no_duplicates(),
            self.keys().len() == self.values().len(),
            self@.dom() == self.keys().to_set(),
            forall|k: Seq<char>| self@.dom().contains(k) <==> self.keys().contains(k),
            forall|i: int|
                0 <= i < self.keys().len() ==> #[trigger] self@[self.keys()[i]] == self.values()[i],
            self@.dom().finite(),
            self@.dom().len() == self.keys().len(),
    {
        let keys = self.keys();
        lemma_sorted_no_duplicates(keys);
        assert(self@.dom() =~= keys.to_set());
        assert forall|i: int| 0 <= i < keys.len() implies #[trigger] self@[keys[i]]
            == self.values()[i] by {
            lemma_sorted_index_of(keys, i);
        }
        keys.unique_seq_to_set();
    }

    /// Two maps with the same view are walked in the same order and give
    /// the same values on the way.
    pub proof fn lemma_order_determined(&self, other: &Self)
        requires
            self.wf(),
            other.wf(),
            self@ == other@,
        ensures
            self.keys() == other.keys(),
            self.values() == other.values(),
    {
        self.lemma_entries();
        other.lemma_entries();
        lemma_sorted_unique(self.keys(), other.keys());
        assert(self.values() =~= other.values()) by {
            assert forall|i: int| 0 <= i < self.values().len() implies self.values()[i]
                == other.values()[i] by {
                assert(self@[self.keys()[i]] == self.values()[i]);
                assert(other@[other.keys()[i]] == other.values()[i]);
            }
        }
    }

    /// An empty map.
    pub fn new() -> (r: Self)
        ensures
            r@ == Map::<Seq<char>, V>::empty(),
            r.keys() == Seq::<Seq<char>>::empty(),
            r.wf(),
    {
        let r = LabelMap { entries: Vec::new() };
        proof {
            assert(r.keys() =~= Seq::<Seq<char>>::empty());
            assert(r@ =~= Map::<Seq<char>, V>::empty());
        }
        r
    }

    /// The number of entries.
    pub fn len(&self) -> (r: usize)
        ensures
            r == self.keys().len(),
            r == self@.dom().len(),
    {
        proof {
            use_type_invariant(self);
            self.lemma_entries();
        }
        self.entries.len()
    }

    /// Whether the map has no entry.
    pub fn is_empty(&self) -> (r: bool)
        ensures
            r == (self.keys().len() == 0),
    {
        self.entries.len() == 0
    }

    /// The label at position `i` of the walk.
    pub fn key_at(&self, i: usize) -> (r: &String)
        requires
            i < self.keys().len(),
        ensures
            r@ == self.keys()[i as int],
    {
        &self.entries[i].0
    }

    /// The value at position `i` of the walk.
    pub fn value_at(&self, i: usize) -> (r: &V)
        requires
            i < self.keys().len(),
        ensures
            *r == self.values()[i as int],
            self.wf(),
            self@.dom().contains(self.keys()[i as int]),
            *r == self@[self.keys()[i as int]],
    {
        proof {
            use_type_invariant(self);
            self.lemma_entries();
            assert(self.keys().contains(self.keys()[i as int]));
        }
        &self.entries[i].1
    }

    /// Where `key` stands, or would stand, in the order of the labels, and
    /// whether it is there.
    fn locate(&self, key: &str) -> (r: (usize, bool))
        ensures
            self.wf(),
            r.0 <= self.keys().len(),
            forall|i: int| 0 <= i < r.0 ==> label_less(#[trigger] self.keys()[i], key@),
            r.1 ==> r.0 < self.keys().len() && self.keys()[r.0 as int] == key@,
            !r.1 ==> forall|i: int|
                r.0 <= i < self.keys().len() ==> label_less(key@, #[trigger] self.keys()[i]),
            r.1 == self@.dom().contains(key@),
    {
        proof {
            use_type_invariant(self);
            self.lemma_entries();
        }
        let ghost keys = self.keys();
        let mut lo: usize = 0;
        let mut hi: usize = self.entries.len();
        while lo < hi
            invariant
                keys == self.keys(),
                sorted(keys),
                0 <= lo <= hi <= keys.len(),
                hi <= self.entries.len(),
                keys.len() == self.entries.len(),
                forall|i: int| 0 <= i < lo ==> label_less(#[trigger] keys[i], key@),
                forall|i: int| hi <= i < keys.len() ==> label_less(key@, #[trigger] keys[i]),
            decreases hi - lo,
        {
            let mid = lo + (hi - lo) / 2;
            let entry = &self.entries[mid];
            assert(entry.0@ == keys[mid as int]);
            match compare_labels(entry.0.as_str(), key) {
                LabelOrder::Before => {
                    proof {
                        assert forall|i: int| 0 <= i < mid + 1 implies label_less(
                            #[trigger] keys[i],
                            key@,
                        ) by {
                            if i < mid {
                                assert(label_less(keys[i], keys[mid as int]));
                                lemma_label_less_transitive(keys[i], keys[mid as int], key@);
                            }
                        }
                    }
                    lo = mid + 1;
                },
                LabelOrder::After => {
                    proof {
                        assert forall|i: int| mid <= i < keys.len() implies label_less(
                            key@,
                            #[trigger] keys[i],
                        ) by {
                            if mid < i {
                                assert(label_less(keys[mid as int], keys[i]));
                                lemma_label_less_transitive(key@, keys[mid as int], keys[i]);
                            }
                        }
                    }
                    hi = mid;
                },
                LabelOrder::Same => {
                    proof {
                        assert(keys.contains(key@));
                    }
                    return (mid, true);
                },
            }
        }
        proof {
            lemma_label_less_irreflexive(key@);
            if keys.contains(key@) {
                let i = choose|i: int| 0 <= i < keys.len() && keys[i] == key@;
                assert(label_less(keys[i], key@) || label_less(key@, keys[i]));
            }
        }
        (lo, false)
    }

    /// Whether the map has an entry for `key`.
    pub fn contains_key(&self, key: &str) -> (r: bool)
        ensures
            r == self@.dom().contains(key@),
    {
        self.locate(key).1
    }

    /// The value that the map holds for `key`, if any.
    pub fn get(&self, key: &str) -> (r: Option<&V>)
        ensures
            r is Some <==> self@.dom().contains(key@),
            r matches Some(v) ==> *v == self@[key@],
    {
        let (i, found) = self.locate(key);
        if found {
            proof {
                self.lemma_entries();
            }
            Some(&self.entries[i].1)
        } else {
            None
        }
    }

    /// Puts `value` under `key`, and returns the value that was there
    /// before, if any.
    pub fn insert(&mut self, key: String, value: V) -> (r: Option<V>)
        ensures
            final(self)@ == old(self)@.insert(key@, value),
            r is Some <==> old(self)@.dom().contains(key@),
            r matches Some(v) ==> v == old(self)@[key@],
            final(self).wf(),
    {
        let (i, found) = self.locate(key.as_str());
        let ghost old_keys = self.keys();
        let ghost old_values = self.values();
        let ghost key_view = key@;
        proof {
            self.lemma_entries();
        }
        let mut entries: Vec<(String, V)> = Vec::new();
        core::mem::swap(&mut self.entries, &mut entries);
        if found {
            let previous = entries.remove(i);
            entries.insert(i, (key, value));
            proof {
                assert(entries@.map_values(|e: (String, V)| e.0@) =~= old_keys);
            }
            self.entries = entries;
            proof {
                assert(self.keys() =~= old_keys);
                assert(self.values() =~= old_values.update(i as int, value));
                lemma_map_after_update(old_keys, old_values, i as int, value);
            }
            Some(previous.1)
        } else {
            entries.insert(i, (key, value));
            proof {
                lemma_map_after_insert(old_keys, old_values, i as int, key_view, value);
                assert(entries@.map_values(|e: (String, V)| e.0@) =~= old_keys.insert(
                    i as int,
                    key_view,
                ));
            }
            self.entries = entries;
            proof {
                assert(self.keys() =~= old_keys.insert(i as int, key_view));
                assert(self.values() =~= old_values.insert(i as int, value));
            }
            None
        }
    }

    /// Takes the entry for `key` out of the map and returns its value, if
    /// there was one.
    pub fn remove(&mut self, key: &str) -> (r: Option<V>)
        ensures
            final(self)@ == old(self)@.remove(key@),
            r is Some <==> old(self)@.dom().contains(key@),
            r matches Some(v) ==> v == old(self)@[key@],
            final(self).wf(),
    {
        let (i, found) = self.locate(key);
        let ghost old_keys = self.keys();
        let ghost old_values = self.values();
        proof {
            self.lemma_entries();
        }
        if found {
            let mut entries: Vec<(String, V)> = Vec::new();
            core::mem::swap(&mut self.entries, &mut entries);
            let previous = entries.remove(i);
            proof {
                lemma_map_after_remove(old_keys, old_values, i as int);
                assert(entries@.map_values(|e: (String, V)| e.0@) =~= old_keys.remove(i as int));
            }
            self.entries = entries;
            proof {
                assert(self.keys() =~= old_keys.remove(i as int));
                assert(self.values() =~= old_values.remove(i as int));
            }
            Some(previous.1)
        } else {
            proof {
                assert(self@ =~= old(self)@.remove(key@));
            }
            None
        }
    }
}

impl<X> LabelMap<Vec<X>> {
    /// Appends `item` to the list under `key`, which is begun where the map
    /// holds none yet.
    pub fn append(&mut self, key: String, item: X)
        ensures
            final(self).wf(),
            final(self)@.dom() == old(self)@.dom().insert(key@),
            final(self)@[key@]@ == (if old(self)@.dom().contains(key@) {
                old(self)@[key@]@
            } else {
                Seq::<X>::empty()
            }).push(item),
            forall|k: Seq<char>|
                k != key@ && old(self)@.dom().contains(k) ==> #[trigger] final(self)@[k] == old(
                    self,
                )@[k],
    {
        let (i, found) = self.locate(key.as_str());
        let ghost old_keys = self.keys();
        let ghost old_values = self.values();
        proof {
            self.lemma_entries();
        }
        if found {
            let mut entries: Vec<(String, Vec<X>)> = Vec::new();
            core::mem::swap(&mut self.entries, &mut entries);
            entries[i].1.push(item);
            proof {
                assert(entries@.map_values(|e: (String, Vec<X>)| e.0@) =~= old_keys);
            }
            self.entries = entries;
            proof {
                assert(self.keys() =~= old_keys);
                self.lemma_entries();
                assert(self.values() =~= old_values.update(i as int, self.values()[i as int]));
                lemma_map_after_update(old_keys, old_values, i as int, self.values()[i as int]);
            }
        } else {
            let mut list = Vec::new();
            list.push(item);
            self.insert(key, list);
        }
    }
}

/// Replacing the value at one position changes the map at that label only.
proof fn lemma_map_after_update<V>(keys: Seq<Seq<char>>, values: Seq<V>, i: int, value: V)
    requires
        sorted(keys),
        keys.len() == values.len(),
        0 <= i < keys.len(),
    ensures
        entries_map(keys, values.update(i, value)) == entries_map(keys, values).insert(
            keys[i],
            value,
        ),
{
    lemma_sorted_no_duplicates(keys);
    lemma_sorted_index_of(keys, i);
    let a = entries_map(keys, values.update(i, value));
    let b = entries_map(keys, values).insert(keys[i], value);
    assert forall|k: Seq<char>| a.dom().contains(k) implies #[trigger] a[k] == b[k] by {
        keys.index_of_first_ensures(k);
    }
    assert(a =~= b);
}

/// Putting a new label in its place in the order adds it to the map and
/// leaves the other entries as they were.
proof fn lemma_map_after_insert<V>(
    keys: Seq<Seq<char>>,
    values: Seq<V>,
    i: int,
    key: Seq<char>,
    value: V,
)
    requires
        sorted(keys),
        keys.len() == values.len(),
        0 <= i <= keys.len(),
        forall|p: int| 0 <= p < i ==> label_less(#[trigger] keys[p], key),
        forall|p: int| i <= p < keys.len() ==> label_less(key, #[trigger] keys[p]),
    ensures
        sorted(keys.insert(i, key)),
        entries_map(keys.insert(i, key), values.insert(i, value)) == entries_map(
            keys,
            values,
        ).insert(key, value),
{
    let keys2 = keys.insert(i, key);
    let values2 = values.insert(i, value);
    assert forall|p: int, q: int| 0 <= p < q < keys2.len() implies label_less(
        #[trigger] keys2[p],
        #[trigger] keys2[q],
    ) by {
        let was = if p < i { p } else { p - 1 };
        let was_q = if q < i { q } else { q - 1 };
        if p == i {
            assert(label_less(key, keys[was_q]));
        } else if q == i {
            assert(label_less(keys[was], key));
        } else {
            assert(label_less(keys[was], keys[was_q]));
        }
    }
    lemma_sorted_no_duplicates(keys);
    lemma_sorted_no_duplicates(keys2);
    let a = entries_map(keys2, values2);
    let b = entries_map(keys, values).insert(key, value);
    assert forall|k: Seq<char>| a.dom().contains(k) <==> b.dom().contains(k) by {
        if keys2.contains(k) {
            let p = choose|p: int| 0 <= p < keys2.len() && keys2[p] == k;
            if p != i {
                let was = if p < i { p } else { p - 1 };
                assert(keys[was] == k);
            }
        }
        if keys.contains(k) {
            let p = choose|p: int| 0 <= p < keys.len() && keys[p] == k;
            let now = if p < i { p } else { p + 1 };
            assert(keys2[now] == k);
        }
        if k == key {
            assert(keys2[i] == k);
        }
    }
    assert forall|k: Seq<char>| a.dom().contains(k) implies #[trigger] a[k] == b[k] by {
        keys2.index_of_first_ensures(k);
        let p = keys2.index_of(k);
        if p == i {
        } else {
            let was = if p < i { p } else { p - 1 };
            assert(keys[was] == k);
            lemma_sorted_index_of(keys, was);
            lemma_label_less_irreflexive(key);
        }
    }
    assert(a =~= b);
}

/// Taking one position out removes its label from the map and leaves the
/// other entries as they were.
proof fn lemma_map_after_remove<V>(keys: Seq<Seq<char>>, values: Seq<V>, i: int)
    requires
        sorted(keys),
        keys.len() == values.len(),
        0 <= i < keys.len(),
    ensures
        sorted(keys.remove(i)),
        entries_map(keys.remove(i), values.remove(i)) == entries_map(keys, values).remove(keys[i]),
{
    let keys2 = keys.remove(i);
    let values2 = values.remove(i);
    assert forall|p: int, q: int| 0 <= p < q < keys2.len() implies label_less(
        #[trigger] keys2[p],
        #[trigger] keys2[q],
    ) by {
        let was = if p < i { p } else { p + 1 };
        let was_q = if q < i { q } else { q + 1 };
        assert(label_less(keys[was], keys[was_q]));
    }
    lemma_sorted_no_duplicates(keys);
    lemma_sorted_no_duplicates(keys2);
    let a = entries_map(keys2, values2);
    let b = entries_map(keys, values).remove(keys[i]);
    assert forall|k: Seq<char>| a.dom().contains(k) <==> b.dom().contains(k) by {
        if keys2.contains(k) {
            let p = choose|p: int| 0 <= p < keys2.len() && keys2[p] == k;
            let was = if p < i { p } else { p + 1 };
            assert(keys[was] == k);
        }
        if keys.contains(k) && k != keys[i] {
            let p = choose|p: int| 0 <= p < keys.len() && keys[p] == k;
            let now = if p < i { p } else { p - 1 };
            assert(keys2[now] == k);
        }
    }
    assert forall|k: Seq<char>| a.dom().contains(k) implies #[trigger] a[k] == b[k] by {
        keys2.index_of_first_ensures(k);
        let p = keys2.index_of(k);
        let was = if p < i { p } else { p + 1 };
        assert(keys[was] == k);
        lemma_sorted_index_of(keys, was);
    }
    assert(a =~= b);
}

} // verus!
