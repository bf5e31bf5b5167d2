//! An ordered map from byte-string keys to values, kept as a vector of entries in
//! ascending key order.

use crate::store::order;
use crate::store::order::KeyOrder;
use vstd::prelude::*;

verus! {

/// The keys stand in strictly ascending order.
pub open spec fn ascending(keys: Seq<Seq<u8>>) -> bool {
    forall|i: int, j: int|
        0 <= i < j < keys.len() ==> order::key_lt(#[trigger] keys[i], #[trigger] keys[j])
}

/// The map that holds `values[i]` under `keys[i]`.
pub open spec fn entries_map<V>(keys: Seq<Seq<u8>>, values: Seq<V>) -> Map<Seq<u8>, V> {
    Map::new(|k: Seq<u8>| keys.contains(k), |k: Seq<u8>| values[keys.index_of(k)])
}

/// `k` is the least key of `keys` that comes after `key`.
pub open spec fn least_above(keys: Set<Seq<u8>>, key: Seq<u8>, k: Seq<u8>) -> bool {
    &&& keys.contains(k)
    &&& order::key_lt(key, k)
    &&& forall|j: Seq<u8>| keys.contains(j) && order::key_lt(key, j) ==> order::key_le(k, j)
}

/// No key of `keys` comes after `key`.
pub open spec fn none_above(keys: Set<Seq<u8>>, key: Seq<u8>) -> bool {
    forall|j: Seq<u8>| keys.contains(j) ==> !order::key_lt(key, j)
}

/// `k` comes before the bound; every key comes before a missing bound.
pub open spec fn below(k: Seq<u8>, bound: Option<Seq<u8>>) -> bool {
    match bound {
        Some(b) => order::key_lt(k, b),
        None => true,
    }
}

/// `k` is the greatest key of `keys` that comes before `bound`; without a bound, the
/// greatest key of all.
pub open spec fn greatest_below(keys: Set<Seq<u8>>, bound: Option<Seq<u8>>, k: Seq<u8>) -> bool {
    &&& keys.contains(k)
    &&& below(k, bound)
    &&& forall|j: Seq<u8>| keys.contains(j) && below(j, bound) ==> order::key_le(j, k)
}

/// No key of `keys` comes before `bound`; without a bound, there is no key at all.
pub open spec fn none_below(keys: Set<Seq<u8>>, bound: Option<Seq<u8>>) -> bool {
    forall|j: Seq<u8>| keys.contains(j) ==> !below(j, bound)
}

/// In an ascending sequence each key stands at one place only.
pub proof fn lemma_ascending_distinct(keys: Seq<Seq<u8>>, i: int, j: int)
    requires
        ascending(keys),
        0 <= i < keys.len(),
        0 <= j < keys.len(),
        keys[i] == keys[j],
    ensures
        i == j,
{
    if i < j {
        order::lemma_lt_asymmetric(keys[i], keys[j]);
    } else if j < i {
        order::lemma_lt_asymmetric(keys[j], keys[i]);
    }
}

/// What the map of ascending entries holds under the key at place `i`.
pub proof fn lemma_entries_map_at<V>(keys: Seq<Seq<u8>>, values: Seq<V>, i: int)
    requires
        ascending(keys),
        0 <= i < keys.len(),
    ensures
        entries_map(keys, values).contains_key(keys[i]),
        entries_map(keys, values)[keys[i]] == values[i],
{
    assert(keys.contains(keys[i]));
    lemma_ascending_distinct(keys, i, keys.index_of(keys[i]));
}

/// An ordered map from byte strings to values of type `V`.
pub struct OrderedMap<V> {
    entries: Vec<(Vec<u8>, V)>,
}

/// The keys of a vector of entries, in the vector's order.
pub open spec fn keys_of<V>(entries: Seq<(Vec<u8>, V)>) -> Seq<Seq<u8>> {
    Seq::new(entries.len(), |i: int| entries[i].0@)
}

/// The values of a vector of entries, in the vector's order.
pub open spec fn values_of<V>(entries: Seq<(Vec<u8>, V)>) -> Seq<V> {
    Seq::new(entries.len(), |i: int| entries[i].1)
}

/// Finds the place of `key` among ascending entries: the index of the first entry whose
/// key is not before `key`, and whether that entry holds `key` itself.
fn locate<V>(entries: &Vec<(Vec<u8>, V)>, key: &[u8]) -> (r: (usize, bool))
    requires
        ascending(keys_of(entries@)),
    ensures
        r.0 <= entries.len(),
        forall|i: int| 0 <= i < r.0 ==> order::key_lt(#[trigger] keys_of(entries@)[i], key@),
        r.1 ==> r.0 < entries.len() && keys_of(entries@)[r.0 as int] == key@,
        !r.1 ==> forall|i: int|
            r.0 <= i < entries.len() ==> order::key_lt(key@, #[trigger] keys_of(entries@)[i]),
{
    let ghost keys = keys_of(entries@);
    let mut lo: usize = 0;
    let mut hi: usize = entries.len();
    while lo < hi
        invariant
            keys == keys_of(entries@),
            ascending(keys),
            lo <= hi <= entries.len(),
            forall|i: int| 0 <= i < lo ==> order::key_lt(#[trigger] keys[i], key@),
            forall|i: int| hi <= i < entries.len() ==> order::key_lt(key@, #[trigger] keys[i]),
        decreases hi - lo,
    {
        let mid = lo + (hi - lo) / 2;
        assert(keys[mid as int] == entries@[mid as int].0@);
        match order::compare(entries[mid].0.as_slice(), key) {
            KeyOrder::Before => {
                assert forall|i: int| 0 <= i < mid + 1 implies order::key_lt(
                    #[trigger] keys[i],
                    key@,
                ) by {
                    if i < mid {
                        order::lemma_lt_transitive(keys[i], keys[mid as int], key@);
                    }
                }
                lo = mid + 1;
            },
            KeyOrder::Same => {
                assert forall|i: int| 0 <= i < mid implies order::key_lt(
                    #[trigger] keys[i],
                    key@,
                ) by {}
                return (mid, true);
            },
            KeyOrder::After => {
                assert forall|i: int| mid <= i < entries.len() implies order::key_lt(
                    key@,
                    #[trigger] keys[i],
                ) by {
                    if mid < i {
                        order::lemma_lt_transitive(key@, keys[mid as int], keys[i]);
                    }
                }
                hi = mid;
            },
        }
    }
    (lo, false)
}

/// With `key` absent, placing it at `idx` keeps the entries ascending and adds it to the map.
proof fn lemma_insert_new<V>(keys: Seq<Seq<u8>>, values: Seq<V>, idx: int, key: Seq<u8>, value: V)
    requires
        ascending(keys),
        keys.len() == values.len(),
        0 <= idx <= keys.len(),
        forall|i: int| 0 <= i < idx ==> order::key_lt(#[trigger] keys[i], key),
        forall|i: int| idx <= i < keys.len() ==> order::key_lt(key, #[trigger] keys[i]),
    ensures
        ascending(keys.insert(idx, key)),
        entries_map(keys.insert(idx, key), values.insert(idx, value)) == entries_map(
            keys,
            values,
        ).insert(key, value),
{
    let nk = keys.insert(idx, key);
    let nv = values.insert(idx, value);
    assert forall|i: int, j: int| 0 <= i < j < nk.len() implies order::key_lt(
        #[trigger] nk[i],
        #[trigger] nk[j],
    ) by {
        if j < idx {
        } else if j == idx {
        } else if i < idx {
            order::lemma_lt_transitive(keys[i], key, keys[j - 1]);
        } else if i == idx {
        } else {
        }
    }
    let lhs = entries_map(nk, nv);
    let rhs = entries_map(keys, values).insert(key, value);
    assert forall|k: Seq<u8>| lhs.contains_key(k) <==> rhs.contains_key(k) by {
        if nk.contains(k) {
            let i = nk.index_of(k);
            if i < idx {
                assert(keys[i] == k);
            } else if i > idx {
                assert(keys[i - 1] == k);
            }
        }
        if keys.contains(k) {
            let i = keys.index_of(k);
            if i < idx {
                assert(nk[i] == k);
            } else {
                assert(nk[i + 1] == k);
            }
        }
        if k == key {
            assert(nk[idx] == k);
        }
    }
    assert forall|k: Seq<u8>| lhs.contains_key(k) implies lhs[k] == rhs[k] by {
        let i = nk.index_of(k);
        lemma_entries_map_at(nk, nv, i);
        if i < idx {
            lemma_entries_map_at(keys, values, i);
            order::lemma_lt_asymmetric(keys[i], key);
        } else if i > idx {
            lemma_entries_map_at(keys, values, i - 1);
            order::lemma_lt_asymmetric(key, keys[i - 1]);
        }
    }
    assert(lhs =~= rhs);
}

/// With `key` at `idx`, a new value there keeps the keys and changes the map at `key` only.
proof fn lemma_insert_found<V>(keys: Seq<Seq<u8>>, values: Seq<V>, idx: int, value: V)
    requires
        ascending(keys),
        keys.len() == values.len(),
        0 <= idx < keys.len(),
    ensures
        entries_map(keys, values.update(idx, value)) == entries_map(keys, values).insert(
            keys[idx],
            value,
        ),
{
    let nv = values.update(idx, value);
    let lhs = entries_map(keys, nv);
    let rhs = entries_map(keys, values).insert(keys[idx], value);
    assert(keys.contains(keys[idx]));
    assert forall|k: Seq<u8>| lhs.contains_key(k) implies lhs[k] == rhs[k] by {
        let i = keys.index_of(k);
        lemma_entries_map_at(keys, nv, i);
        lemma_entries_map_at(keys, values, i);
        if i != idx {
            if keys[i] == keys[idx] {
                lemma_ascending_distinct(keys, i, idx);
            }
        }
    }
    assert(lhs =~= rhs);
}

/// Taking out the entry at `idx` keeps the rest ascending and removes its key from the map.
proof fn lemma_remove_found<V>(keys: Seq<Seq<u8>>, values: Seq<V>, idx: int)
    requires
        ascending(keys),
        keys.len() == values.len(),
        0 <= idx < keys.len(),
    ensures
        ascending(keys.remove(idx)),
        entries_map(keys.remove(idx), values.remove(idx)) == entries_map(keys, values).remove(
            keys[idx],
        ),
{
    let nk = keys.remove(idx);
    let nv = values.remove(idx);
    assert forall|i: int, j: int| 0 <= i < j < nk.len() implies order::key_lt(
        #[trigger] nk[i],
        #[trigger] nk[j],
    ) by {
        let i0 = if i < idx { i } else { i + 1 };
        let j0 = if j < idx { j } else { j + 1 };
        assert(order::key_lt(keys[i0], keys[j0]));
    }
    let lhs = entries_map(nk, nv);
    let rhs = entries_map(keys, values).remove(keys[idx]);
    assert forall|k: Seq<u8>| lhs.contains_key(k) <==> rhs.contains_key(k) by {
        if nk.contains(k) {
            let i = nk.index_of(k);
            let i0 = if i < idx { i } else { i + 1 };
            assert(keys[i0] == k);
            if k == keys[idx] {
                lemma_ascending_distinct(keys, i0, idx);
            }
        }
        if keys.contains(k) && k != keys[idx] {
            let i = keys.index_of(k);
            if i < idx {
                assert(nk[i] == k);
            } else {
                assert(nk[i - 1] == k);
            }
        }
    }
    assert forall|k: Seq<u8>| lhs.contains_key(k) implies lhs[k] == rhs[k] by {
        let i = nk.index_of(k);
        let i0 = if i < idx { i } else { i + 1 };
        lemma_entries_map_at(nk, nv, i);
        lemma_entries_map_at(keys, values, i0);
    }
    assert(lhs =~= rhs);
}

impl<V> OrderedMap<V> {
    #[verifier::type_invariant]
    spec fn in_order(self) -> bool {
        ascending(keys_of(self.entries@))
    }

    /// The keys of the map, in ascending order.
    pub closed spec fn keys(self) -> Seq<Seq<u8>> {
        keys_of(self.entries@)
    }

    /// The values of the map, each at the place of its key in `keys`.
    pub closed spec fn values(self) -> Seq<V> {
        values_of(self.entries@)
    }

    /// The map as a mathematical map.
    pub open spec fn view(self) -> Map<Seq<u8>, V> {
        entries_map(self.keys(), self.values())
    }

    /// An empty map.
    pub fn new() -> (m: Self)
        ensures
            m@ == Map::<Seq<u8>, V>::empty(),
            m.keys().len() == 0,
    {
        let m = OrderedMap { entries: Vec::new() };
        assert(m@ =~= Map::<Seq<u8>, V>::empty());
        m
    }

    /// The number of entries. The keys are known to be ascending, so the map holds exactly
    /// one entry for each place in `keys`.
    pub fn len(&self) -> (n: usize)
        ensures
            n == self.keys().len(),
            n == self.values().len(),
            n == self@.len(),
            self@.dom().finite(),
            ascending(self.keys()),
    {
        proof {
            use_type_invariant(self);
            lemma_entries_len(self.keys(), self.values());
        }
        self.entries.len()
    }

    /// Whether the map holds no entry.
    pub fn is_empty(&self) -> (r: bool)
        ensures
            r == (self@.len() == 0),
            r == (self.keys().len() == 0),
            self@.dom().finite(),
    {
        self.len() == 0
    }

    /// The entry at place `i` in ascending key order.
    pub fn entry(&self, i: usize) -> (r: (&Vec<u8>, &V))
        requires
            i < self.keys().len(),
        ensures
            r.0@ == self.keys()[i as int],
            *r.1 == self.values()[i as int],
            self@.contains_key(r.0@),
            self@[r.0@] == *r.1,
    {
        proof {
            use_type_invariant(self);
            lemma_entries_map_at(self.keys(), self.values(), i as int);
        }
        let e = &self.entries[i];
        (&e.0, &e.1)
    }

    /// The number of keys that do not come after `key`: the place of the first key after it.
    pub fn first_after(&self, key: &[u8]) -> (at: usize)
        ensures
            at <= self.keys().len(),
            ascending(self.keys()),
            forall|i: int| 0 <= i < at ==> !order::key_lt(key@, #[trigger] self.keys()[i]),
            forall|i: int|
                at <= i < self.keys().len() ==> order::key_lt(key@, #[trigger] self.keys()[i]),
    {
        proof {
            use_type_invariant(self);
        }
        let ghost keys = self.keys();
        let (idx, found) = locate(&self.entries, key);
        let at = if found {
            idx + 1
        } else {
            idx
        };
        proof {
            assert forall|i: int| 0 <= i < at implies !order::key_lt(key@, #[trigger] keys[i]) by {
                if i < idx {
                    order::lemma_lt_asymmetric(keys[i], key@);
                } else {
                    order::lemma_lt_irreflexive(key@);
                }
            }
            assert forall|i: int| at <= i < keys.len() implies order::key_lt(
                key@,
                #[trigger] keys[i],
            ) by {}
        }
        at
    }

    /// The number of keys that come before `key`: the place of the first key not before it.
    pub fn first_not_before(&self, key: &[u8]) -> (at: usize)
        ensures
            at <= self.keys().len(),
            ascending(self.keys()),
            forall|i: int| 0 <= i < at ==> order::key_lt(#[trigger] self.keys()[i], key@),
            forall|i: int|
                at <= i < self.keys().len() ==> !order::key_lt(#[trigger] self.keys()[i], key@),
    {
        proof {
            use_type_invariant(self);
        }
        let ghost keys = self.keys();
        let (idx, found) = locate(&self.entries, key);
        proof {
            assert forall|i: int| idx <= i < keys.len() implies !order::key_lt(
                #[trigger] keys[i],
                key@,
            ) by {
                if found {
                    if idx < i {
                        order::lemma_lt_asymmetric(keys[idx as int], keys[i]);
                    } else {
                        order::lemma_lt_irreflexive(key@);
                    }
                } else {
                    order::lemma_lt_asymmetric(key@, keys[i]);
                }
            }
        }
        idx
    }

    /// The value under `key`, if there is one.
    pub fn get(&self, key: &[u8]) -> (r: Option<&V>)
        ensures
            match r {
                Some(v) => self@.contains_key(key@) && *v == self@[key@],
                None => !self@.contains_key(key@),
            },
    {
        proof {
            use_type_invariant(self);
        }
        let (idx, found) = locate(&self.entries, key);
        if found {
            proof {
                lemma_entries_map_at(self.keys(), self.values(), idx as int);
            }
            Some(&self.entries[idx].1)
        } else {
            proof {
                if self.keys().contains(key@) {
                    let i = self.keys().index_of(key@);
                    if i < idx {
                        order::lemma_lt_irreflexive(key@);
                    } else {
                        order::lemma_lt_irreflexive(key@);
                    }
                }
            }
            None
        }
    }

    /// Whether the map holds `key`.
    pub fn contains_key(&self, key: &[u8]) -> (r: bool)
        ensures
            r == self@.contains_key(key@),
    {
        self.get(key).is_some()
    }

    /// Puts `value` under `key`, in place of what was there.
    pub fn insert(&mut self, key: Vec<u8>, value: V)
        ensures
            final(self)@ == old(self)@.insert(key@, value),
    {
        proof {
            use_type_invariant(&*self);
        }
        let ghost keys = self.keys();
        let ghost values = self.values();
        let mut entries: Vec<(Vec<u8>, V)> = Vec::new();
        std::mem::swap(&mut entries, &mut self.entries);
        let (idx, found) = locate(&entries, key.as_slice());
        if found {
            proof {
                lemma_insert_found(keys, values, idx as int, value);
            }
            entries.set(idx, (key, value));
            assert(keys_of(entries@) =~= keys);
            assert(values_of(entries@) =~= values.update(idx as int, value));
        } else {
            proof {
                lemma_insert_new(keys, values, idx as int, key@, value);
            }
            entries.insert(idx, (key, value));
            assert(keys_of(entries@) =~= keys.insert(idx as int, key@));
            assert(values_of(entries@) =~= values.insert(idx as int, value));
        }
        self.entries = entries;
    }

    /// Takes out `key` and what it holds, if it is there.
    pub fn remove(&mut self, key: &[u8])
        ensures
            final(self)@ == old(self)@.remove(key@),
    {
        proof {
            use_type_invariant(&*self);
        }
        let ghost keys = self.keys();
        let ghost values = self.values();
        let mut entries: Vec<(Vec<u8>, V)> = Vec::new();
        std::mem::swap(&mut entries, &mut self.entries);
        let (idx, found) = locate(&entries, key);
        if found {
            proof {
                lemma_remove_found(keys, values, idx as int);
            }
            entries.remove(idx);
            assert(keys_of(entries@) =~= keys.remove(idx as int));
            assert(values_of(entries@) =~= values.remove(idx as int));
        } else {
            proof {
                if keys.contains(key@) {
                    order::lemma_lt_irreflexive(key@);
                }
                assert(entries_map(keys, values).remove(key@) =~= entries_map(keys, values));
            }
        }
        self.entries = entries;
    }

    /// The entry with the least key after `key`, if there is one.
    pub fn next_after(&self, key: &[u8]) -> (r: Option<(&Vec<u8>, &V)>)
        ensures
            match r {
                Some((k, v)) => least_above(self@.dom(), key@, k@) && *v == self@[k@],
                None => none_above(self@.dom(), key@),
            },
    {
        proof {
            use_type_invariant(self);
        }
        let ghost keys = self.keys();
        let (idx, found) = locate(&self.entries, key);
        let at = if found {
            idx + 1
        } else {
            idx
        };
        proof {
            assert forall|i: int| 0 <= i < at implies !order::key_lt(key@, #[trigger] keys[i]) by {
                if i < idx {
                    order::lemma_lt_asymmetric(keys[i], key@);
                } else {
                    order::lemma_lt_irreflexive(key@);
                }
            }
            assert forall|i: int| at <= i < keys.len() implies order::key_lt(
                key@,
                #[trigger] keys[i],
            ) by {}
        }
        if at < self.entries.len() {
            proof {
                lemma_entries_map_at(keys, self.values(), at as int);
                assert forall|j: Seq<u8>|
                    self@.dom().contains(j) && order::key_lt(key@, j) implies order::key_le(
                    keys[at as int],
                    j,
                ) by {
                    let i = keys.index_of(j);
                    assert(keys[i] == j);
                }
            }
            let e = &self.entries[at];
            Some((&e.0, &e.1))
        } else {
            proof {
                assert forall|j: Seq<u8>| self@.dom().contains(j) implies !order::key_lt(
                    key@,
                    j,
                ) by {
                    let i = keys.index_of(j);
                    assert(keys[i] == j);
                }
            }
            None
        }
    }

    /// The entry with the greatest key before `bound`, if there is one; without a bound,
    /// the entry with the greatest key of all.
    pub fn prev_before(&self, bound: Option<&[u8]>) -> (r: Option<(&Vec<u8>, &V)>)
        ensures
            match r {
                Some((k, v)) => greatest_below(self@.dom(), bound_view(bound), k@) && *v
                    == self@[k@],
                None => none_below(self@.dom(), bound_view(bound)),
            },
    {
        proof {
            use_type_invariant(self);
        }
        let ghost keys = self.keys();
        let end = match bound {
            Some(b) => {
                let (idx, _found) = locate(&self.entries, b);
                proof {
                    assert forall|i: int| idx <= i < keys.len() implies !order::key_lt(
                        #[trigger] keys[i],
                        b@,
                    ) by {
                        if order::key_lt(keys[i], b@) {
                            if keys[idx as int] == b@ {
                                if idx < i {
                                    order::lemma_lt_asymmetric(keys[idx as int], keys[i]);
                                } else {
                                    order::lemma_lt_irreflexive(b@);
                                }
                            } else {
                                order::lemma_lt_asymmetric(keys[i], b@);
                            }
                        }
                    }
                }
                idx
            },
            None => self.entries.len(),
        };
        if end > 0 {
            proof {
                lemma_entries_map_at(keys, self.values(), end - 1);
                assert forall|j: Seq<u8>|
                    self@.dom().contains(j) && below(j, bound_view(bound)) implies order::key_le(
                    j,
                    keys[end - 1],
                ) by {
                    let i = keys.index_of(j);
                    assert(keys[i] == j);
                }
            }
            let e = &self.entries[end - 1];
            Some((&e.0, &e.1))
        } else {
            proof {
                assert forall|j: Seq<u8>| self@.dom().contains(j) implies !below(
                    j,
                    bound_view(bound),
                ) by {
                    let i = keys.index_of(j);
                    assert(keys[i] == j);
                }
            }
            None
        }
    }
}

impl<V> Default for OrderedMap<V> {
    /// An empty map.
    fn default() -> (m: Self)
        ensures
            m@ == Map::<Seq<u8>, V>::empty(),
            m.keys().len() == 0,
    {
        OrderedMap::new()
    }
}

/// The bound of a backward search as a mathematical value.
pub open spec fn bound_view(bound: Option<&[u8]>) -> Option<Seq<u8>> {
    match bound {
        Some(b) => Some(b@),
        None => None,
    }
}

/// An owned bound of a backward search as a mathematical value.
pub open spec fn bound_view_owned(bound: Option<Vec<u8>>) -> Option<Seq<u8>> {
    match bound {
        Some(b) => Some(b@),
        None => None,
    }
}

/// The map of ascending entries has as many keys as there are entries.
pub proof fn lemma_entries_len<V>(keys: Seq<Seq<u8>>, values: Seq<V>)
    requires
        ascending(keys),
    ensures
        entries_map(keys, values).dom().finite(),
        entries_map(keys, values).len() == keys.len(),
    decreases keys.len(),
{
    let m = entries_map(keys, values);
    if keys.len() == 0 {
        assert(m.dom() =~= Set::<Seq<u8>>::empty());
    } else {
        let last = keys.len() - 1;
        let k1 = keys.drop_last();
        let v1 = values.drop_last();
        lemma_entries_len(k1, v1);
        let m1 = entries_map(k1, v1);
        assert(!k1.contains(keys[last])) by {
            if k1.contains(keys[last]) {
                let i = k1.index_of(keys[last]);
                lemma_ascending_distinct(keys, i, last);
            }
        }
        assert(m.dom() =~= m1.dom().insert(keys[last])) by {
            assert forall|k: Seq<u8>| m.dom().contains(k) <==> m1.dom().insert(
                keys[last],
            ).contains(k) by {
                if keys.contains(k) {
                    let i = keys.index_of(k);
                    if i < last {
                        assert(k1[i] == k);
                    }
                }
                if k1.contains(k) {
                    let i = k1.index_of(k);
                    assert(keys[i] == k);
                }
                if k == keys[last] {
                    assert(keys[last] == k);
                }
            }
        }
    }
}

} // verus!
