//! Key/value stores: what can be read and written, and the stores built on one another.

pub mod bufstore;
pub mod mapstore;
pub mod order;
pub mod ordered_map;
pub mod store;

pub use bufstore::{BufStore, BufStoreMap};
pub use mapstore::MapStore;
pub use ordered_map::OrderedMap;
pub use store::Store;

use crate::error::Error;
use vstd::prelude::*;

verus! {

/// A key with the value stored under it.
pub type KV = (Vec<u8>, Vec<u8>);

/// What a read that looks forward from `key` must return from a store that holds `m`.
pub open spec fn next_entry(m: Map<Seq<u8>, Seq<u8>>, key: Seq<u8>, r: Option<KV>) -> bool {
    match r {
        Some((k, v)) => ordered_map::least_above(m.dom(), key, k@) && v@ == m[k@],
        None => ordered_map::none_above(m.dom(), key),
    }
}

/// What a read that looks backward from `bound` must return from a store that holds `m`.
pub open spec fn prev_entry(
    m: Map<Seq<u8>, Seq<u8>>,
    bound: Option<Seq<u8>>,
    r: Option<KV>,
) -> bool {
    match r {
        Some((k, v)) => ordered_map::greatest_below(m.dom(), bound, k@) && v@ == m[k@],
        None => ordered_map::none_below(m.dom(), bound),
    }
}

/// What a read of `key` must return from a store that holds `m`.
pub open spec fn value_at(m: Map<Seq<u8>, Seq<u8>>, key: Seq<u8>, r: Option<Vec<u8>>) -> bool {
    match r {
        Some(v) => m.contains_key(key) && v@ == m[key],
        None => !m.contains_key(key),
    }
}

/// A store that can be read: by key, and in key order from a given key.
pub trait Read {
    /// The entries that the store holds.
    spec fn view(&self) -> Map<Seq<u8>, Seq<u8>>;

    /// Whether every operation on this store succeeds.
    spec fn reliable(&self) -> bool;

    /// The value under `key`, if there is one.
    fn get(&self, key: &[u8]) -> (r: Result<Option<Vec<u8>>, Error>)
        ensures
            self.reliable() ==> r is Ok,
            r matches Ok(v) ==> value_at(self@, key@, v),
    ;

    /// The entry with the least key that comes strictly after `key`, if there is one.
    fn get_next(&self, key: &[u8]) -> (r: Result<Option<KV>, Error>)
        ensures
            self.reliable() ==> r is Ok,
            r matches Ok(e) ==> next_entry(self@, key@, e),
    ;

    /// The entry with the greatest key that comes strictly before `key`, if there is one;
    /// without a key, the last entry of the store.
    fn get_prev(&self, key: Option<&[u8]>) -> (r: Result<Option<KV>, Error>)
        ensures
            self.reliable() ==> r is Ok,
            r matches Ok(e) ==> prev_entry(self@, ordered_map::bound_view(key), e),
    ;
}

/// A store that can be written.
pub trait Write: Read {
    /// Stores `value` under `key`, in place of what was there.
    fn put(&mut self, key: Vec<u8>, value: Vec<u8>) -> (r: Result<(), Error>)
        ensures
            old(self).reliable() ==> r is Ok,
            final(self).reliable() == old(self).reliable(),
            r is Ok ==> final(self)@ == old(self)@.insert(key@, value@),
    ;

    /// Removes `key` and its value, if it is there.
    fn delete(&mut self, key: &[u8]) -> (r: Result<(), Error>)
        ensures
            old(self).reliable() ==> r is Ok,
            final(self).reliable() == old(self).reliable(),
            r is Ok ==> final(self)@ == old(self)@.remove(key@),
    ;
}

impl<'a, T: Read> Read for &'a T {
    open spec fn view(&self) -> Map<Seq<u8>, Seq<u8>> {
        (**self)@
    }

    open spec fn reliable(&self) -> bool {
        (**self).reliable()
    }

    fn get(&self, key: &[u8]) -> (r: Result<Option<Vec<u8>>, Error>) {
        (**self).get(key)
    }

    fn get_next(&self, key: &[u8]) -> (r: Result<Option<KV>, Error>) {
        (**self).get_next(key)
    }

    fn get_prev(&self, key: Option<&[u8]>) -> (r: Result<Option<KV>, Error>) {
        (**self).get_prev(key)
    }
}

impl<'a, T: Read> Read for &'a mut T {
    open spec fn view(&self) -> Map<Seq<u8>, Seq<u8>> {
        (**self)@
    }

    open spec fn reliable(&self) -> bool {
        (**self).reliable()
    }

    fn get(&self, key: &[u8]) -> (r: Result<Option<Vec<u8>>, Error>) {
        (**self).get(key)
    }

    fn get_next(&self, key: &[u8]) -> (r: Result<Option<KV>, Error>) {
        (**self).get_next(key)
    }

    fn get_prev(&self, key: Option<&[u8]>) -> (r: Result<Option<KV>, Error>) {
        (**self).get_prev(key)
    }
}

impl<'a, T: Write> Write for &'a mut T {
    fn put(&mut self, key: Vec<u8>, value: Vec<u8>) -> (r: Result<(), Error>) {
        (**self).put(key, value)
    }

    fn delete(&mut self, key: &[u8]) -> (r: Result<(), Error>) {
        (**self).delete(key)
    }
}

} // verus!
