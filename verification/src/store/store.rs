//! A view of a store under a prefix: every key that goes in or comes out is read with the
//! prefix in front of it.

use crate::error::Error;
use crate::store::mapstore::copy_bytes;
use crate::store::order;
use crate::store::ordered_map;
use crate::store::{Read, Write, KV};
use vstd::prelude::*;
use vstd::slice::{slice_subrange, slice_to_vec};

verus! {

/// What a store that holds `base` shows under `prefix`: the entries whose keys begin with
/// the prefix, each under the rest of its key.
pub open spec fn scoped(prefix: Seq<u8>, base: Map<Seq<u8>, Seq<u8>>) -> Map<Seq<u8>, Seq<u8>> {
    Map::new(|k: Seq<u8>| base.contains_key(prefix + k), |k: Seq<u8>| base[prefix + k])
}

/// The least key that comes after every key that begins with `prefix`; there is none for
/// the empty prefix or one made of bytes 255 only.
pub open spec fn prefix_end(prefix: Seq<u8>) -> Option<Seq<u8>>
    decreases prefix.len(),
{
    if prefix.len() == 0 {
        None
    } else if prefix.last() == 255 {
        prefix_end(prefix.drop_last())
    } else {
        Some(prefix.drop_last().push((prefix.last() + 1) as u8))
    }
}

/// Joins two byte strings: the bytes of `a` followed by the bytes of `b`.
pub fn concat(a: &[u8], b: &[u8]) -> (value: Vec<u8>)
    ensures
        value@ == a@ + b@,
{
    let mut value: Vec<u8> = Vec::new();
    let mut i: usize = 0;
    while i < a.len()
        invariant
            i <= a.len(),
            value@ == a@.subrange(0, i as int),
        decreases a.len() - i,
    {
        value.push(a[i]);
        i = i + 1;
    }
    assert(a@.subrange(0, a@.len() as int) =~= a@);
    let mut j: usize = 0;
    while j < b.len()
        invariant
            j <= b.len(),
            value@ == a@ + b@.subrange(0, j as int),
        decreases b.len() - j,
    {
        value.push(b[j]);
        j = j + 1;
    }
    assert(b@.subrange(0, b@.len() as int) =~= b@);
    value
}

/// The bytes of `key` from place `n` on.
fn tail(key: &[u8], n: usize) -> (r: Vec<u8>)
    requires
        n <= key.len(),
    ensures
        r@ == key@.skip(n as int),
{
    let r = slice_to_vec(slice_subrange(key, n, key.len()));
    assert(r@ =~= key@.skip(n as int));
    r
}

/// Computes the end of the range of keys that begin with `prefix`.
pub fn end_of_prefix(prefix: &[u8]) -> (r: Option<Vec<u8>>)
    ensures
        ordered_map::bound_view_owned(r) == prefix_end(prefix@),
{
    let mut n: usize = prefix.len();
    assert(prefix@.take(n as int) =~= prefix@);
    while n > 0 && prefix[n - 1] == 255
        invariant
            n <= prefix.len(),
            prefix_end(prefix@) == prefix_end(prefix@.take(n as int)),
        decreases n,
    {
        assert(prefix@.take(n as int).drop_last() =~= prefix@.take(n - 1));
        n = n - 1;
    }
    if n == 0 {
        assert(prefix@.take(0).len() == 0);
        None
    } else {
        let mut end = slice_to_vec(slice_subrange(prefix, 0, n - 1));
        end.push(prefix[n - 1] + 1);
        proof {
            let p = prefix@.take(n as int);
            assert(p.last() == prefix@[n - 1]);
            assert(end@ =~= p.drop_last().push((p.last() + 1) as u8));
        }
        Some(end)
    }
}

/// A prefix comes before every key that begins with it, or is that key.
pub proof fn lemma_prefix_le(p: Seq<u8>, rest: Seq<u8>)
    ensures
        order::key_le(p, p + rest),
{
    order::lemma_lt_prefix(p, Seq::<u8>::empty(), rest);
    assert(p + Seq::<u8>::empty() =~= p);
    if rest.len() == 0 {
        assert(p + rest =~= p);
    }
}

/// A key that begins with `p` is `p` followed by the rest of the key.
pub proof fn lemma_has_prefix_split(k: Seq<u8>, p: Seq<u8>)
    requires
        order::has_prefix(k, p),
    ensures
        k == p + k.skip(p.len() as int),
{
    assert(k =~= p + k.skip(p.len() as int));
}

/// Two keys with the same prefix are the same where their rests are.
pub proof fn lemma_concat_injective(p: Seq<u8>, a: Seq<u8>, b: Seq<u8>)
    requires
        p + a == p + b,
    ensures
        a == b,
{
    assert((p + a).skip(p.len() as int) =~= a);
    assert((p + b).skip(p.len() as int) =~= b);
}

/// A common prefix does not change whether one key comes before or is another.
pub proof fn lemma_le_prefix(p: Seq<u8>, a: Seq<u8>, b: Seq<u8>)
    ensures
        order::key_le(p + a, p + b) == order::key_le(a, b),
{
    order::lemma_lt_prefix(p, a, b);
    if p + a == p + b {
        lemma_concat_injective(p, a, b);
    }
}

/// Every key that begins with `p` comes before the end of `p`'s range.
pub proof fn lemma_prefix_end_above(p: Seq<u8>, x: Seq<u8>)
    requires
        order::has_prefix(x, p),
    ensures
        ordered_map::below(x, prefix_end(p)),
    decreases p.len(),
{
    if p.len() == 0 {
    } else if p.last() == 255 {
        let stem = p.drop_last();
        assert(x.subrange(0, stem.len() as int) =~= x.subrange(0, p.len() as int).drop_last());
        lemma_prefix_end_above(stem, x);
    } else {
        let m = p.len() as int;
        let e = p.drop_last().push((p.last() + 1) as u8);
        assert forall|j: int| 0 <= j < m - 1 implies x[j] == e[j] by {
            assert(x.subrange(0, m)[j] == p[j]);
        }
        order::lemma_lt_skip(x, e, m - 1);
        assert(x.skip(m - 1)[0] == p[m - 1]) by {
            assert(x.subrange(0, m)[m - 1] == p[m - 1]);
        }
        assert(e.skip(m - 1)[0] == p[m - 1] + 1);
    }
}

/// A key that is not before `p` and comes before the end of `p`'s range begins with `p`.
pub proof fn lemma_prefix_end_tight(p: Seq<u8>, k: Seq<u8>)
    requires
        order::key_le(p, k),
        ordered_map::below(k, prefix_end(p)),
    ensures
        order::has_prefix(k, p),
    decreases p.len(),
{
    if p.len() == 0 {
        assert(k.subrange(0, 0) =~= p);
    } else {
        let stem = p.drop_last();
        let c = p.last();
        assert(p =~= stem + seq![c]);
        lemma_prefix_le(stem, seq![c]);
        if stem != p {
            order::lemma_lt_le(stem, p, k);
        }
        if c == 255 {
            lemma_prefix_end_tight(stem, k);
        } else {
            let e = stem.push((c + 1) as u8);
            assert(e =~= stem + seq![(c + 1) as u8]);
            assert(order::has_prefix(e, stem)) by {
                assert(e.subrange(0, stem.len() as int) =~= stem);
            }
            assert(order::has_prefix(stem, stem)) by {
                assert(stem.subrange(0, stem.len() as int) =~= stem);
            }
            order::lemma_prefix_convex(stem, stem, k, e);
        }
        lemma_has_prefix_split(k, stem);
        let rest = k.skip(stem.len() as int);
        lemma_le_prefix(stem, seq![c], rest);
        assert(rest.len() > 0 && rest[0] >= c) by {
            if seq![c] != rest {
                assert(order::key_lt(seq![c], rest));
            }
        }
        if c != 255 {
            order::lemma_lt_prefix(stem, rest, seq![(c + 1) as u8]);
            assert(order::key_lt(rest, seq![(c + 1) as u8]));
            assert(rest[0] != c + 1) by {
                reveal_with_fuel(order::key_lt, 2);
                assert(seq![(c + 1) as u8].drop_first().len() == 0);
            }
        }
        assert(rest[0] == c);
        assert(k.subrange(0, p.len() as int) =~= p);
    }
}

/// A view of the store `S` under a prefix. The view holds the entries of the store
/// whose keys begin with the prefix, and shows each under the rest of its key.
pub struct Store<S> {
    prefix: Vec<u8>,
    store: S,
}

impl<S> Store<S> {
    /// The prefix of the view.
    pub closed spec fn prefix(&self) -> Seq<u8> {
        self.prefix@
    }

    /// The store that the view reads and writes.
    pub closed spec fn backing(&self) -> S {
        self.store
    }

    /// A view of the whole of `inner`: one with the empty prefix.
    pub fn new(inner: S) -> (s: Self)
        ensures
            s.prefix() == Seq::<u8>::empty(),
            s.backing() == inner,
    {
        Store { prefix: Vec::new(), store: inner }
    }

    /// The view under this view's prefix followed by `key`.
    pub fn sub(self, key: &[u8]) -> (s: Self)
        ensures
            s.prefix() == self.prefix() + key@,
            s.backing() == self.backing(),
    {
        Store { prefix: concat(self.prefix.as_slice(), key), store: self.store }
    }

    /// Gives the backing store back.
    pub fn into_inner(self) -> (inner: S)
        ensures
            inner == self.backing(),
    {
        self.store
    }
}

impl<S: Clone> Clone for Store<S> {
    /// A view with the same prefix over a copy of the backing store.
    fn clone(&self) -> (s: Self)
        ensures
            s.prefix() == self.prefix(),
            cloned(self.backing(), s.backing()),
    {
        Store { prefix: copy_bytes(&self.prefix), store: self.store.clone() }
    }
}

impl<S: Read> Store<S> {
    /// Turns an entry of the backing store into one of the view: `None` unless its key
    /// begins with the prefix, else the entry under the rest of its key.
    fn scope_entry(&self, entry: Option<KV>) -> (r: Option<KV>)
        ensures
            match entry {
                Some((k, v)) => if order::has_prefix(k@, self.prefix()) {
                    r matches Some((k2, v2)) && self.prefix() + k2@ == k@ && v2@ == v@
                } else {
                    r is None
                },
                None => r is None,
            },
    {
        match entry {
            Some((k, v)) => {
                if order::starts_with(k.as_slice(), self.prefix.as_slice()) {
                    proof {
                        lemma_has_prefix_split(k@, self.prefix@);
                    }
                    Some((tail(k.as_slice(), self.prefix.len()), v))
                } else {
                    None
                }
            },
            None => None,
        }
    }
}

impl<S: Read> Read for Store<S> {
    open spec fn view(&self) -> Map<Seq<u8>, Seq<u8>> {
        scoped(self.prefix(), self.backing()@)
    }

    open spec fn reliable(&self) -> bool {
        self.backing().reliable()
    }

    fn get(&self, key: &[u8]) -> (r: Result<Option<Vec<u8>>, Error>) {
        let prefixed = concat(self.prefix.as_slice(), key);
        self.store.get(prefixed.as_slice())
    }

    fn get_next(&self, key: &[u8]) -> (r: Result<Option<KV>, Error>) {
        let ghost p = self.prefix@;
        let ghost base = self.store@;
        let prefixed = concat(self.prefix.as_slice(), key);
        let found = match self.store.get_next(prefixed.as_slice()) {
            Ok(e) => e,
            Err(e) => {
                return Err(e);
            },
        };
        let r = self.scope_entry(found);
        proof {
            match &r {
                Some(kv) => {
                    let k = kv.0;
                    order::lemma_lt_prefix(p, key@, k@);
                    assert forall|j: Seq<u8>|
                        self@.dom().contains(j) && order::key_lt(key@, j) implies order::key_le(
                        k@,
                        j,
                    ) by {
                        order::lemma_lt_prefix(p, key@, j);
                        assert(base.dom().contains(p + j));
                        lemma_le_prefix(p, k@, j);
                    }
                },
                None => {
                    assert forall|j: Seq<u8>| self@.dom().contains(j) implies !order::key_lt(
                        key@,
                        j,
                    ) by {
                        if order::key_lt(key@, j) {
                            order::lemma_lt_prefix(p, key@, j);
                            assert(base.dom().contains(p + j));
                            let k1 = found.unwrap().0@;
                            assert(order::has_prefix(p + key@, p)) by {
                                assert((p + key@).subrange(0, p.len() as int) =~= p);
                            }
                            assert(order::has_prefix(p + j, p)) by {
                                assert((p + j).subrange(0, p.len() as int) =~= p);
                            }
                            order::lemma_prefix_convex(p, p + key@, k1, p + j);
                        }
                    }
                },
            }
        }
        Ok(r)
    }

    fn get_prev(&self, key: Option<&[u8]>) -> (r: Result<Option<KV>, Error>) {
        let ghost p = self.prefix@;
        let ghost base = self.store@;
        let ghost bound = ordered_map::bound_view(key);
        let end = match key {
            Some(k) => Some(concat(self.prefix.as_slice(), k)),
            None => end_of_prefix(self.prefix.as_slice()),
        };
        let ghost end_view = ordered_map::bound_view_owned(end);
        let found = match &end {
            Some(e) => self.store.get_prev(Some(e.as_slice())),
            None => self.store.get_prev(None),
        };
        let found = match found {
            Ok(e) => e,
            Err(e) => {
                return Err(e);
            },
        };
        assert(crate::store::prev_entry(base, end_view, found));
        let r = self.scope_entry(found);
        proof {
            // A key of the view lies below the bound of the view exactly where its full
            // key lies below the bound handed to the backing store.
            assert forall|j: Seq<u8>| ordered_map::below(j, bound) == ordered_map::below(
                p + j,
                end_view,
            ) by {
                match key {
                    Some(k) => {
                        order::lemma_lt_prefix(p, j, k@);
                    },
                    None => {
                        assert(order::has_prefix(p + j, p)) by {
                            assert((p + j).subrange(0, p.len() as int) =~= p);
                        }
                        lemma_prefix_end_above(p, p + j);
                    },
                }
            }
            match &r {
                Some(kv) => {
                    let k = kv.0;
                    assert(ordered_map::below(k@, bound));
                    assert forall|j: Seq<u8>|
                        self@.dom().contains(j) && ordered_map::below(
                            j,
                            bound,
                        ) implies order::key_le(j, k@) by {
                        assert(ordered_map::below(p + j, end_view));
                        assert(base.dom().contains(p + j));
                        lemma_le_prefix(p, j, k@);
                    }
                },
                None => {
                    assert forall|j: Seq<u8>| self@.dom().contains(j) implies !ordered_map::below(
                        j,
                        bound,
                    ) by {
                        if ordered_map::below(j, bound) {
                            assert(ordered_map::below(p + j, end_view));
                            assert(base.dom().contains(p + j));
                            let k1 = found.unwrap().0@;
                            assert(order::key_le(p + j, k1));
                            lemma_prefix_le(p, j);
                            if p != p + j {
                                if p + j != k1 {
                                    order::lemma_lt_transitive(p, p + j, k1);
                                }
                            }
                            match key {
                                Some(k) => {
                                    assert(order::has_prefix(p + k@, p)) by {
                                        assert((p + k@).subrange(0, p.len() as int) =~= p);
                                    }
                                    assert(order::has_prefix(p + j, p)) by {
                                        assert((p + j).subrange(0, p.len() as int) =~= p);
                                    }
                                    order::lemma_prefix_convex(p, p + j, k1, p + k@);
                                },
                                None => {
                                    lemma_prefix_end_tight(p, k1);
                                },
                            }
                        }
                    }
                },
            }
        }
        Ok(r)
    }
}

impl<S: Write> Write for Store<S> {
    /// Stores `value` in the backing store, under the prefix followed by `key`; no other
    /// key of the backing store changes.
    fn put(&mut self, key: Vec<u8>, value: Vec<u8>) -> (r: Result<(), Error>)
        ensures
            (*final(self)).prefix() == (*old(self)).prefix(),
            r is Ok ==> (*final(self)).backing()@ == (*old(self)).backing()@.insert(
                (*old(self)).prefix() + key@,
                value@,
            ),
    {
        let ghost p = self.prefix@;
        let ghost base = self.store@;
        let prefixed = concat(self.prefix.as_slice(), key.as_slice());
        let r = self.store.put(prefixed, value);
        proof {
            if r is Ok {
                assert forall|k: Seq<u8>| k != key@ implies #[trigger] (p + k) != p + key@ by {
                    if p + k == p + key@ {
                        lemma_concat_injective(p, k, key@);
                    }
                }
                assert(scoped(p, base.insert(p + key@, value@)) =~= scoped(p, base).insert(
                    key@,
                    value@,
                ));
            }
        }
        r
    }

    /// Removes the prefix followed by `key` from the backing store; no other key of the
    /// backing store changes.
    fn delete(&mut self, key: &[u8]) -> (r: Result<(), Error>)
        ensures
            (*final(self)).prefix() == (*old(self)).prefix(),
            r is Ok ==> (*final(self)).backing()@ == (*old(self)).backing()@.remove(
                (*old(self)).prefix() + key@,
            ),
    {
        let ghost p = self.prefix@;
        let ghost base = self.store@;
        let prefixed = concat(self.prefix.as_slice(), key);
        let r = self.store.delete(prefixed.as_slice());
        proof {
            if r is Ok {
                assert forall|k: Seq<u8>| k != key@ implies #[trigger] (p + k) != p + key@ by {
                    if p + k == p + key@ {
                        lemma_concat_injective(p, k, key@);
                    }
                }
                assert(scoped(p, base.remove(p + key@)) =~= scoped(p, base).remove(key@));
            }
        }
        r
    }
}

} // verus!
