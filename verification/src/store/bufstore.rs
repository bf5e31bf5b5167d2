//! Write buffers: a store that records writes and deletions over a parent store until
//! they are flushed into it.

use crate::error::Error;
use crate::store::mapstore::copy_bytes;
use crate::store::order;
use crate::store::order::KeyOrder;
use crate::store::ordered_map;
use crate::store::ordered_map::OrderedMap;
use crate::store::{Read, Write, KV};
use vstd::prelude::*;
use vstd::slice::slice_to_vec;

verus! {

/// The pending writes of a buffer: under each key the value to store, or `None` where the
/// key is to be deleted.
pub type BufStoreMap = OrderedMap<Option<Vec<u8>>>;

/// A pending write as a mathematical value.
pub open spec fn pending_value(v: Option<Vec<u8>>) -> Option<Seq<u8>> {
    match v {
        Some(bytes) => Some(bytes@),
        None => None,
    }
}

/// The pending writes of a buffer map as a mathematical map.
pub open spec fn pending(m: Map<Seq<u8>, Option<Vec<u8>>>) -> Map<Seq<u8>, Option<Seq<u8>>> {
    m.map_values(|v: Option<Vec<u8>>| pending_value(v))
}

/// What a store that holds `base` shows through the pending writes `writes`: a written key
/// has the written value, a deleted key is absent, any other key is as in `base`.
pub open spec fn overlay(
    writes: Map<Seq<u8>, Option<Seq<u8>>>,
    base: Map<Seq<u8>, Seq<u8>>,
) -> Map<Seq<u8>, Seq<u8>> {
    Map::new(
        |k: Seq<u8>|
            if writes.contains_key(k) {
                writes[k] is Some
            } else {
                base.contains_key(k)
            },
        |k: Seq<u8>|
            if writes.contains_key(k) {
                writes[k]->0
            } else {
                base[k]
            },
    )
}

/// The pending writes `outer` after those of `inner` were written over them.
pub open spec fn merged(
    outer: Map<Seq<u8>, Option<Seq<u8>>>,
    inner: Map<Seq<u8>, Option<Seq<u8>>>,
) -> Map<Seq<u8>, Option<Seq<u8>>> {
    outer.union_prefer_right(inner)
}

/// One write to a store.
pub enum Op {
    /// Store a value under a key.
    Put(Seq<u8>, Seq<u8>),
    /// Remove a key.
    Delete(Seq<u8>),
}

/// The store `base` after the writes `ops`, applied in order.
pub open spec fn apply_ops(base: Map<Seq<u8>, Seq<u8>>, ops: Seq<Op>) -> Map<Seq<u8>, Seq<u8>>
    decreases ops.len(),
{
    if ops.len() == 0 {
        base
    } else {
        let before = apply_ops(base, ops.drop_last());
        match ops.last() {
            Op::Put(k, v) => before.insert(k, v),
            Op::Delete(k) => before.remove(k),
        }
    }
}

/// The pending writes of a buffer that held `writes` and then took the writes `ops`, in
/// order.
pub open spec fn record_ops(
    writes: Map<Seq<u8>, Option<Seq<u8>>>,
    ops: Seq<Op>,
) -> Map<Seq<u8>, Option<Seq<u8>>>
    decreases ops.len(),
{
    if ops.len() == 0 {
        writes
    } else {
        let before = record_ops(writes, ops.drop_last());
        match ops.last() {
            Op::Put(k, v) => before.insert(k, Some(v)),
            Op::Delete(k) => before.insert(k, None),
        }
    }
}

/// Recording a value in a buffer shows as storing it.
pub proof fn lemma_overlay_put(
    writes: Map<Seq<u8>, Option<Seq<u8>>>,
    base: Map<Seq<u8>, Seq<u8>>,
    key: Seq<u8>,
    value: Seq<u8>,
)
    ensures
        overlay(writes.insert(key, Some(value)), base) == overlay(writes, base).insert(key, value),
{
    assert(overlay(writes.insert(key, Some(value)), base) =~= overlay(writes, base).insert(
        key,
        value,
    ));
}

/// Recording a deletion in a buffer shows as removing the key.
pub proof fn lemma_overlay_delete(
    writes: Map<Seq<u8>, Option<Seq<u8>>>,
    base: Map<Seq<u8>, Seq<u8>>,
    key: Seq<u8>,
)
    ensures
        overlay(writes.insert(key, None), base) == overlay(writes, base).remove(key),
{
    assert(overlay(writes.insert(key, None), base) =~= overlay(writes, base).remove(key));
}

/// An empty buffer shows its parent as it is.
pub proof fn lemma_overlay_empty(base: Map<Seq<u8>, Seq<u8>>)
    ensures
        overlay(Map::empty(), base) == base,
{
    assert(overlay(Map::empty(), base) =~= base);
}

/// A buffer over a buffer shows what one buffer with the merged writes shows.
pub proof fn lemma_overlay_merged(
    inner: Map<Seq<u8>, Option<Seq<u8>>>,
    outer: Map<Seq<u8>, Option<Seq<u8>>>,
    base: Map<Seq<u8>, Seq<u8>>,
)
    ensures
        overlay(inner, overlay(outer, base)) == overlay(merged(outer, inner), base),
{
    assert(overlay(inner, overlay(outer, base)) =~= overlay(merged(outer, inner), base));
}

/// Flushing a buffer gives the store that the same writes give when they are applied to
/// the parent directly, in the same order: whatever the keys, and however puts and
/// deletions follow one another.
pub proof fn lemma_flush_is_direct_application(base: Map<Seq<u8>, Seq<u8>>, ops: Seq<Op>)
    ensures
        overlay(record_ops(Map::empty(), ops), base) == apply_ops(base, ops),
    decreases ops.len(),
{
    if ops.len() == 0 {
        lemma_overlay_empty(base);
    } else {
        lemma_flush_is_direct_application(base, ops.drop_last());
        let before = record_ops(Map::empty(), ops.drop_last());
        match ops.last() {
            Op::Put(k, v) => lemma_overlay_put(before, base, k, v),
            Op::Delete(k) => lemma_overlay_delete(before, base, k),
        }
    }
}

/// Whether `k` is visible through two buffers over a store: the inner buffer decides
/// where it has written the key, then the outer one, then the store.
pub open spec fn live_through(
    inner: Map<Seq<u8>, Option<Seq<u8>>>,
    outer: Map<Seq<u8>, Option<Seq<u8>>>,
    base: Map<Seq<u8>, Seq<u8>>,
    k: Seq<u8>,
) -> bool {
    if inner.contains_key(k) {
        inner[k] is Some
    } else if outer.contains_key(k) {
        outer[k] is Some
    } else {
        base.contains_key(k)
    }
}

/// The value of a visible key `k` through two buffers over a store: that of the
/// innermost level that has written the key.
pub open spec fn value_through(
    inner: Map<Seq<u8>, Option<Seq<u8>>>,
    outer: Map<Seq<u8>, Option<Seq<u8>>>,
    base: Map<Seq<u8>, Seq<u8>>,
    k: Seq<u8>,
) -> Seq<u8> {
    if inner.contains_key(k) {
        inner[k]->0
    } else if outer.contains_key(k) {
        outer[k]->0
    } else {
        base[k]
    }
}

/// A forward read through two buffers returns the least key after `key` that no level
/// hides, with the value of the innermost level that has written it; it returns nothing
/// only where no such key exists.
pub proof fn lemma_two_level_next(
    inner: Map<Seq<u8>, Option<Seq<u8>>>,
    outer: Map<Seq<u8>, Option<Seq<u8>>>,
    base: Map<Seq<u8>, Seq<u8>>,
    key: Seq<u8>,
    r: Option<KV>,
)
    requires
        crate::store::next_entry(overlay(inner, overlay(outer, base)), key, r),
    ensures
        match r {
            Some((k, v)) => {
                &&& order::key_lt(key, k@)
                &&& live_through(inner, outer, base, k@)
                &&& v@ == value_through(inner, outer, base, k@)
                &&& forall|j: Seq<u8>|
                    live_through(inner, outer, base, j) && order::key_lt(key, j)
                        ==> order::key_le(k@, j)
            },
            None => forall|j: Seq<u8>|
                live_through(inner, outer, base, j) ==> !order::key_lt(key, j),
        },
{
    let m = overlay(inner, overlay(outer, base));
    assert forall|j: Seq<u8>| live_through(inner, outer, base, j) == m.dom().contains(j) by {}
}

/// Where `key` itself is not visible, the forward read returns the least visible key
/// that is `key` or comes after it.
pub proof fn lemma_two_level_next_from_gap(
    inner: Map<Seq<u8>, Option<Seq<u8>>>,
    outer: Map<Seq<u8>, Option<Seq<u8>>>,
    base: Map<Seq<u8>, Seq<u8>>,
    key: Seq<u8>,
    r: Option<KV>,
)
    requires
        crate::store::next_entry(overlay(inner, overlay(outer, base)), key, r),
        !live_through(inner, outer, base, key),
    ensures
        match r {
            Some((k, v)) => {
                &&& order::key_le(key, k@)
                &&& live_through(inner, outer, base, k@)
                &&& v@ == value_through(inner, outer, base, k@)
                &&& forall|j: Seq<u8>|
                    live_through(inner, outer, base, j) && order::key_le(key, j)
                        ==> order::key_le(k@, j)
            },
            None => forall|j: Seq<u8>|
                live_through(inner, outer, base, j) ==> !order::key_le(key, j),
        },
{
    lemma_two_level_next(inner, outer, base, key, r);
}

/// A store that buffers writes over a parent store. Reads see the buffered writes first
/// and the parent behind them; the parent changes only when the buffer is flushed.
pub struct BufStore<S> {
    map: BufStoreMap,
    store: S,
}

impl<S> BufStore<S> {
    /// The writes that are buffered and not yet flushed.
    pub closed spec fn writes(&self) -> Map<Seq<u8>, Option<Seq<u8>>> {
        pending(self.map@)
    }

    /// The parent store.
    pub closed spec fn parent(&self) -> S {
        self.store
    }

    /// A buffer over `store` with no pending write.
    pub fn wrap(store: S) -> (b: Self)
        ensures
            b.writes() == Map::<Seq<u8>, Option<Seq<u8>>>::empty(),
            b.parent() == store,
    {
        let b = BufStore { map: OrderedMap::new(), store };
        assert(b.writes() =~= Map::<Seq<u8>, Option<Seq<u8>>>::empty());
        b
    }

    /// A buffer over `store` that starts with the pending writes `map`.
    pub fn wrap_with_map(store: S, map: BufStoreMap) -> (b: Self)
        ensures
            b.writes() == pending(map@),
            b.parent() == store,
    {
        BufStore { map, store }
    }

    /// Detaches the pending writes from the parent.
    pub fn into_map(self) -> (map: BufStoreMap)
        ensures
            pending(map@) == self.writes(),
    {
        self.map
    }

    /// Takes the buffer apart: its pending writes and its parent.
    pub fn into_parts(self) -> (parts: (BufStoreMap, S))
        ensures
            pending(parts.0@) == self.writes(),
            parts.1 == self.parent(),
    {
        (self.map, self.store)
    }
}

/// Writes the pending writes `map` into `dest`, in ascending key order.
pub fn flush_map<W: Write>(map: &BufStoreMap, dest: &mut W) -> (r: Result<(), Error>)
    ensures
        (*old(dest)).reliable() ==> r is Ok,
        (*final(dest)).reliable() == (*old(dest)).reliable(),
        r is Ok ==> (*final(dest))@ == overlay(pending(map@), (*old(dest))@),
{
    let ghost base = (*dest)@;
    let ghost keys = map.keys();
    let ghost values = map.values();
    let n = map.len();
    let mut i: usize = 0;
    proof {
        assert(pending(ordered_map::entries_map(keys.take(0), values.take(0))) =~= Map::empty());
        lemma_overlay_empty(base);
    }
    while i < n
        invariant
            i <= n,
            n == keys.len(),
            n == values.len(),
            keys == map.keys(),
            values == map.values(),
            ordered_map::ascending(keys),
            (*dest).reliable() == (*old(dest)).reliable(),
            (*dest)@ == overlay(
                pending(ordered_map::entries_map(keys.take(i as int), values.take(i as int))),
                base,
            ),
        decreases n - i,
    {
        let (k, v) = map.entry(i);
        let ghost done = ordered_map::entries_map(keys.take(i as int), values.take(i as int));
        proof {
            lemma_take_next(keys, values, i as int);
            assert(pending(done.insert(keys[i as int], values[i as int])) =~= pending(done).insert(
                keys[i as int],
                pending_value(values[i as int]),
            ));
        }
        match v {
            Some(bytes) => {
                proof {
                    lemma_overlay_put(pending(done), base, k@, bytes@);
                }
                match dest.put(copy_bytes(k), copy_bytes(bytes)) {
                    Ok(()) => {},
                    Err(e) => {
                        return Err(e);
                    },
                }
            },
            None => {
                proof {
                    lemma_overlay_delete(pending(done), base, k@);
                }
                match dest.delete(k.as_slice()) {
                    Ok(()) => {},
                    Err(e) => {
                        return Err(e);
                    },
                }
            },
        }
        i = i + 1;
    }
    proof {
        assert(keys.take(n as int) =~= keys);
        assert(values.take(n as int) =~= values);
    }
    Ok(())
}

/// The first `i + 1` entries of an ascending map are its first `i` entries and the entry
/// at place `i`.
proof fn lemma_take_next<V>(keys: Seq<Seq<u8>>, values: Seq<V>, i: int)
    requires
        ordered_map::ascending(keys),
        keys.len() == values.len(),
        0 <= i < keys.len(),
    ensures
        ordered_map::entries_map(keys.take(i + 1), values.take(i + 1)) == ordered_map::entries_map(
            keys.take(i),
            values.take(i),
        ).insert(keys[i], values[i]),
{
    let k0 = keys.take(i);
    let v0 = values.take(i);
    let k1 = keys.take(i + 1);
    let v1 = values.take(i + 1);
    let lhs = ordered_map::entries_map(k1, v1);
    let rhs = ordered_map::entries_map(k0, v0).insert(keys[i], values[i]);
    assert(ordered_map::ascending(k0));
    assert(ordered_map::ascending(k1));
    assert forall|k: Seq<u8>| lhs.contains_key(k) <==> rhs.contains_key(k) by {
        if k1.contains(k) {
            let x = k1.index_of(k);
            if x < i {
                assert(k0[x] == k);
            }
        }
        if k0.contains(k) {
            let x = k0.index_of(k);
            assert(k1[x] == k);
        }
        if k == keys[i] {
            assert(k1[i] == k);
        }
    }
    assert forall|k: Seq<u8>| lhs.contains_key(k) implies lhs[k] == rhs[k] by {
        let x = k1.index_of(k);
        ordered_map::lemma_entries_map_at(k1, v1, x);
        if x < i {
            ordered_map::lemma_entries_map_at(k0, v0, x);
            order::lemma_lt_asymmetric(keys[x], keys[i]);
        }
    }
    assert(lhs =~= rhs);
}

/// Writes the pending writes `inner` over the pending writes `outer`.
pub fn merge_writes(outer: &mut BufStoreMap, inner: &BufStoreMap)
    ensures
        pending(final(outer)@) == merged(pending(old(outer)@), pending(inner@)),
{
    let ghost before = pending(outer@);
    let ghost keys = inner.keys();
    let ghost values = inner.values();
    let n = inner.len();
    let mut i: usize = 0;
    proof {
        assert(pending(ordered_map::entries_map(keys.take(0), values.take(0))) =~= Map::empty());
        assert(merged(before, Map::empty()) =~= before);
    }
    while i < n
        invariant
            i <= n,
            n == keys.len(),
            n == values.len(),
            keys == inner.keys(),
            values == inner.values(),
            ordered_map::ascending(keys),
            pending(outer@) == merged(
                before,
                pending(ordered_map::entries_map(keys.take(i as int), values.take(i as int))),
            ),
        decreases n - i,
    {
        let (k, v) = inner.entry(i);
        let ghost done = ordered_map::entries_map(keys.take(i as int), values.take(i as int));
        let ghost so_far = outer@;
        proof {
            lemma_take_next(keys, values, i as int);
        }
        let copy = match v {
            Some(bytes) => Some(copy_bytes(bytes)),
            None => None,
        };
        outer.insert(copy_bytes(k), copy);
        proof {
            assert(pending(so_far.insert(k@, copy)) =~= pending(so_far).insert(
                k@,
                pending_value(copy),
            ));
            assert(pending(done.insert(keys[i as int], values[i as int])) =~= pending(done).insert(
                keys[i as int],
                pending_value(values[i as int]),
            ));
            assert(merged(before, pending(done)).insert(k@, pending_value(copy)) =~= merged(
                before,
                pending(done).insert(k@, pending_value(copy)),
            ));
        }
        i = i + 1;
    }
    proof {
        assert(keys.take(n as int) =~= keys);
        assert(values.take(n as int) =~= values);
    }
}

impl<S: Write> BufStore<S> {
    /// Writes the pending writes into the parent, in ascending key order, and forgets
    /// them.
    pub fn flush(&mut self) -> (r: Result<(), Error>)
        ensures
            (*old(self)).reliable() ==> r is Ok,
            (*final(self)).reliable() == (*old(self)).reliable(),
            r is Ok ==> (*final(self)).parent()@ == (*old(self))@,
            r is Ok ==> (*final(self)).writes() == Map::<Seq<u8>, Option<Seq<u8>>>::empty(),
            r is Ok ==> (*final(self))@ == (*old(self))@,
    {
        let mut map: BufStoreMap = OrderedMap::new();
        std::mem::swap(&mut map, &mut self.map);
        assert(self.writes() =~= Map::<Seq<u8>, Option<Seq<u8>>>::empty());
        let r = flush_map(&map, &mut self.store);
        proof {
            lemma_overlay_empty(self.store@);
        }
        r
    }
}

impl<S: Read> BufStore<S> {
    /// What the buffered write under `key` is, if the buffer has one.
    fn buffered(&self, key: &[u8]) -> (r: Option<Option<Vec<u8>>>)
        ensures
            match r {
                Some(w) => self.writes().contains_key(key@) && self.writes()[key@]
                    == pending_value(w),
                None => !self.writes().contains_key(key@),
            },
    {
        match self.map.get(key) {
            Some(Some(bytes)) => Some(Some(copy_bytes(bytes))),
            Some(None) => Some(None),
            None => None,
        }
    }
}

impl<S: Read> Read for BufStore<S> {
    open spec fn view(&self) -> Map<Seq<u8>, Seq<u8>> {
        overlay(self.writes(), self.parent()@)
    }

    open spec fn reliable(&self) -> bool {
        self.parent().reliable()
    }

    fn get(&self, key: &[u8]) -> (r: Result<Option<Vec<u8>>, Error>) {
        match self.buffered(key) {
            Some(w) => Ok(w),
            None => self.store.get(key),
        }
    }

    fn get_next(&self, key: &[u8]) -> (r: Result<Option<KV>, Error>) {
        let ghost keys = self.map.keys();
        let ghost writes = self.writes();
        let ghost base = self.store@;
        let n = self.map.len();
        let mut i = self.map.first_after(key);
        let mut cursor: Vec<u8> = slice_to_vec(key);
        loop
            invariant
                i <= n,
                n == keys.len(),
                keys == self.map.keys(),
                writes == self.writes(),
                base == self.store@,
                ordered_map::ascending(keys),
                order::key_le(key@, cursor@),
                forall|j: Seq<u8>|
                    self@.contains_key(j) && order::key_lt(key@, j) ==> order::key_lt(cursor@, j),
                forall|x: int| 0 <= x < i ==> !order::key_lt(cursor@, #[trigger] keys[x]),
                forall|x: int| i <= x < n ==> order::key_lt(cursor@, #[trigger] keys[x]),
            decreases n - i,
        {
            let below = match self.store.get_next(cursor.as_slice()) {
                Ok(e) => e,
                Err(e) => {
                    return Err(e);
                },
            };
            if i < n {
                let (k, v) = self.map.entry(i);
                let parent_first = match &below {
                    Some(kv) => match order::compare(kv.0.as_slice(), k.as_slice()) {
                        KeyOrder::Before => true,
                        _ => false,
                    },
                    None => false,
                };
                if parent_first {
                    proof {
                        let pk = below.unwrap().0@;
                        order::lemma_le_lt(key@, cursor@, pk);
                        assert(!writes.contains_key(pk)) by {
                            if keys.contains(pk) {
                                let x = keys.index_of(pk);
                                if x > i {
                                    order::lemma_lt_transitive(pk, keys[i as int], keys[x]);
                                    order::lemma_lt_irreflexive(pk);
                                } else if x == i {
                                    order::lemma_lt_irreflexive(pk);
                                }
                            }
                        }
                        assert forall|j: Seq<u8>|
                            self@.dom().contains(j) && order::key_lt(key@, j)
                            implies order::key_le(pk, j) by {
                            if writes.contains_key(j) {
                                let x = keys.index_of(j);
                                assert(keys[x] == j);
                                if x > i {
                                    order::lemma_lt_transitive(pk, keys[i as int], j);
                                }
                            }
                        }
                    }
                    return Ok(below);
                }
                proof {
                    // No key of the parent lies between the cursor and `k`.
                    assert forall|j: Seq<u8>|
                        base.contains_key(j) && order::key_lt(cursor@, j)
                        implies order::key_le(k@, j) by {
                        let pk = below.unwrap().0@;
                        order::lemma_lt_total(pk, k@);
                        if pk != j {
                            if k@ != pk {
                                order::lemma_lt_transitive(k@, pk, j);
                            }
                        }
                    }
                    assert forall|j: Seq<u8>|
                        writes.contains_key(j) && order::key_lt(cursor@, j)
                        implies order::key_le(k@, j) by {
                        let x = keys.index_of(j);
                        assert(keys[x] == j);
                    }
                    order::lemma_le_lt(key@, cursor@, k@);
                }
                match v {
                    Some(bytes) => {
                        return Ok(Some((copy_bytes(k), copy_bytes(bytes))));
                    },
                    None => {
                        proof {
                            assert forall|j: Seq<u8>|
                                self@.contains_key(j) && order::key_lt(
                                    key@,
                                    j,
                                ) implies order::key_lt(k@, j) by {
                                assert(order::key_le(k@, j));
                            }
                            assert forall|x: int| 0 <= x < i + 1 implies !order::key_lt(
                                k@,
                                #[trigger] keys[x],
                            ) by {
                                if x < i {
                                    order::lemma_lt_asymmetric(keys[x], keys[i as int]);
                                } else {
                                    order::lemma_lt_irreflexive(k@);
                                }
                            }
                        }
                        cursor = copy_bytes(k);
                        i = i + 1;
                    },
                }
            } else {
                proof {
                    assert forall|j: Seq<u8>|
                        self@.dom().contains(j) && order::key_lt(key@, j)
                        implies !writes.contains_key(j) by {
                        if writes.contains_key(j) {
                            let x = keys.index_of(j);
                            assert(keys[x] == j);
                        }
                    }
                    if below is Some {
                        let pk = below.unwrap().0@;
                        order::lemma_le_lt(key@, cursor@, pk);
                        assert(!writes.contains_key(pk)) by {
                            if keys.contains(pk) {
                                let x = keys.index_of(pk);
                                assert(keys[x] == pk);
                            }
                        }
                    }
                }
                return Ok(below);
            }
        }
    }

    fn get_prev(&self, key: Option<&[u8]>) -> (r: Result<Option<KV>, Error>) {
        let ghost keys = self.map.keys();
        let ghost writes = self.writes();
        let ghost base = self.store@;
        let ghost bound = ordered_map::bound_view(key);
        let n = self.map.len();
        let mut i = match key {
            Some(b) => self.map.first_not_before(b),
            None => n,
        };
        let mut cursor: Option<Vec<u8>> = match key {
            Some(b) => Some(slice_to_vec(b)),
            None => None,
        };
        loop
            invariant
                i <= n,
                n == keys.len(),
                keys == self.map.keys(),
                writes == self.writes(),
                base == self.store@,
                bound == ordered_map::bound_view(key),
                ordered_map::ascending(keys),
                bound_within(ordered_map::bound_view_owned(cursor), bound),
                forall|j: Seq<u8>|
                    self@.contains_key(j) && ordered_map::below(j, bound) ==> ordered_map::below(
                        j,
                        ordered_map::bound_view_owned(cursor),
                    ),
                forall|x: int|
                    0 <= x < i ==> ordered_map::below(
                        #[trigger] keys[x],
                        ordered_map::bound_view_owned(cursor),
                    ),
                forall|x: int|
                    i <= x < n ==> !ordered_map::below(
                        #[trigger] keys[x],
                        ordered_map::bound_view_owned(cursor),
                    ),
            decreases i,
        {
            let ghost cur = ordered_map::bound_view_owned(cursor);
            let above = match &cursor {
                Some(c) => self.store.get_prev(Some(c.as_slice())),
                None => self.store.get_prev(None),
            };
            let above = match above {
                Ok(e) => e,
                Err(e) => {
                    return Err(e);
                },
            };
            assert(crate::store::prev_entry(base, cur, above));
            if i > 0 {
                let (k, v) = self.map.entry(i - 1);
                let parent_first = match &above {
                    Some(kv) => match order::compare(kv.0.as_slice(), k.as_slice()) {
                        KeyOrder::After => true,
                        _ => false,
                    },
                    None => false,
                };
                if parent_first {
                    proof {
                        let pk = above.unwrap().0@;
                        lemma_below_bound(pk, ordered_map::bound_view_owned(cursor), cursor, bound);
                        assert(!writes.contains_key(pk)) by {
                            if keys.contains(pk) {
                                let x = keys.index_of(pk);
                                if x < i - 1 {
                                    order::lemma_lt_transitive(keys[x], keys[i - 1], pk);
                                    order::lemma_lt_irreflexive(pk);
                                } else if x == i - 1 {
                                    order::lemma_lt_irreflexive(pk);
                                }
                            }
                        }
                        assert forall|j: Seq<u8>|
                            self@.dom().contains(j) && ordered_map::below(j, bound)
                            implies order::key_le(j, pk) by {
                            if writes.contains_key(j) {
                                let x = keys.index_of(j);
                                assert(keys[x] == j);
                                if x < i - 1 {
                                    order::lemma_lt_transitive(j, keys[i - 1], pk);
                                }
                            }
                        }
                    }
                    return Ok(above);
                }
                proof {
                    assert forall|j: Seq<u8>|
                        base.contains_key(j) && ordered_map::below(j, cur)
                        implies order::key_le(j, k@) by {
                        let pk = above.unwrap().0@;
                        order::lemma_lt_total(pk, k@);
                        if pk != j {
                            if k@ != pk {
                                order::lemma_lt_transitive(j, pk, k@);
                            }
                        }
                    }
                    assert forall|j: Seq<u8>|
                        writes.contains_key(j) && ordered_map::below(j, cur)
                        implies order::key_le(j, k@) by {
                        let x = keys.index_of(j);
                        assert(keys[x] == j);
                    }
                    lemma_below_bound(k@, cur, cursor, bound);
                    assert forall|j: Seq<u8>|
                        self@.dom().contains(j) && ordered_map::below(j, bound)
                        implies order::key_le(j, k@) by {
                        assert(ordered_map::below(j, cur));
                        if !writes.contains_key(j) {
                            assert(base.contains_key(j));
                        }
                    }
                }
                match v {
                    Some(bytes) => {
                        proof {
                            assert(self@.dom().contains(k@));
                            assert(ordered_map::greatest_below(self@.dom(), bound, k@));
                        }
                        return Ok(Some((copy_bytes(k), copy_bytes(bytes))));
                    },
                    None => {
                        proof {
                            assert forall|j: Seq<u8>|
                                self@.contains_key(j) && ordered_map::below(j, bound)
                                implies ordered_map::below(j, Some(k@)) by {
                                assert(self@.dom().contains(j));
                                assert(order::key_le(j, k@));
                            }
                            assert forall|x: int| i - 1 <= x < n implies !order::key_lt(
                                #[trigger] keys[x],
                                k@,
                            ) by {
                                if x > i - 1 {
                                    order::lemma_lt_asymmetric(keys[i - 1], keys[x]);
                                } else {
                                    order::lemma_lt_irreflexive(k@);
                                }
                            }
                        }
                        cursor = Some(copy_bytes(k));
                        i = i - 1;
                    },
                }
            } else {
                proof {
                    assert forall|j: Seq<u8>|
                        self@.dom().contains(j) && ordered_map::below(j, bound)
                        implies !writes.contains_key(j) by {
                        if writes.contains_key(j) {
                            let x = keys.index_of(j);
                            assert(keys[x] == j);
                        }
                    }
                    if above is Some {
                        let pk = above.unwrap().0@;
                        lemma_below_bound(pk, cur, cursor, bound);
                        assert(!writes.contains_key(pk)) by {
                            if keys.contains(pk) {
                                let x = keys.index_of(pk);
                                assert(keys[x] == pk);
                            }
                        }
                        assert forall|j: Seq<u8>|
                            self@.dom().contains(j) && ordered_map::below(j, bound)
                            implies order::key_le(j, pk) by {
                            assert(ordered_map::below(j, cur));
                            assert(base.dom().contains(j));
                        }
                        assert(ordered_map::greatest_below(self@.dom(), bound, pk));
                    } else {
                        assert forall|j: Seq<u8>| self@.dom().contains(j)
                        implies !ordered_map::below(j, bound) by {
                            if ordered_map::below(j, bound) {
                                assert(ordered_map::below(j, cur));
                                assert(base.dom().contains(j));
                            }
                        }
                        assert(ordered_map::none_below(self@.dom(), bound));
                    }
                }
                return Ok(above);
            }
        }
    }
}

/// The moving bound `cur` of a backward search has not passed the bound that the search
/// started from.
pub open spec fn bound_within(cur: Option<Seq<u8>>, bound: Option<Seq<u8>>) -> bool {
    match (cur, bound) {
        (Some(c), Some(b)) => order::key_le(c, b),
        (None, Some(_)) => false,
        _ => true,
    }
}

/// A key below the moving bound is below the bound that the search started from.
proof fn lemma_below_bound(
    k: Seq<u8>,
    cur: Option<Seq<u8>>,
    cursor: Option<Vec<u8>>,
    bound: Option<Seq<u8>>,
)
    requires
        cur == ordered_map::bound_view_owned(cursor),
        ordered_map::below(k, cur),
        bound_within(cur, bound),
    ensures
        ordered_map::below(k, bound),
{
    if bound is Some && cur is Some {
        order::lemma_lt_le(k, cur.unwrap(), bound.unwrap());
    }
}

impl<S: Read> Write for BufStore<S> {
    fn put(&mut self, key: Vec<u8>, value: Vec<u8>) -> (r: Result<(), Error>)
        ensures
            r is Ok,
            (*final(self)).writes() == (*old(self)).writes().insert(key@, Some(value@)),
            (*final(self)).parent() == (*old(self)).parent(),
    {
        proof {
            lemma_overlay_put(self.writes(), self.store@, key@, value@);
        }
        self.map.insert(key, Some(value));
        assert(self.writes() =~= (*old(self)).writes().insert(key@, Some(value@)));
        Ok(())
    }

    fn delete(&mut self, key: &[u8]) -> (r: Result<(), Error>)
        ensures
            r is Ok,
            (*final(self)).writes() == (*old(self)).writes().insert(key@, None),
            (*final(self)).parent() == (*old(self)).parent(),
    {
        proof {
            lemma_overlay_delete(self.writes(), self.store@, key@);
        }
        self.map.insert(slice_to_vec(key), None);
        assert(self.writes() =~= (*old(self)).writes().insert(key@, None));
        Ok(())
    }
}

} // verus!
