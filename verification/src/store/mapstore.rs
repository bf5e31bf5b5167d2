//! A store that keeps its entries in memory.

use crate::error::Error;
use crate::store::ordered_map::OrderedMap;
use crate::store::{Read, Write, KV};
use vstd::prelude::*;
use vstd::slice::slice_to_vec;

verus! {

/// The entries of an ordered map of byte vectors, each value as the bytes it holds.
pub open spec fn bytes_map(m: Map<Seq<u8>, Vec<u8>>) -> Map<Seq<u8>, Seq<u8>> {
    m.map_values(|v: Vec<u8>| v@)
}

/// A copy of a byte vector.
pub fn copy_bytes(bytes: &Vec<u8>) -> (r: Vec<u8>)
    ensures
        r@ == bytes@,
{
    slice_to_vec(bytes.as_slice())
}

/// A store that keeps its entries in memory, in key order.
pub struct MapStore {
    map: OrderedMap<Vec<u8>>,
}

impl MapStore {
    /// An empty store.
    pub fn new() -> (s: Self)
        ensures
            s@ == Map::<Seq<u8>, Seq<u8>>::empty(),
            s.reliable(),
    {
        let s = MapStore { map: OrderedMap::new() };
        assert(s@ =~= Map::<Seq<u8>, Seq<u8>>::empty());
        s
    }

    /// The number of entries.
    pub fn len(&self) -> (n: usize)
        ensures
            n == self@.len(),
    {
        let n = self.map.len();
        proof {
            assert(self@.dom() =~= self.map@.dom());
        }
        n
    }
}

impl Read for MapStore {
    closed spec fn view(&self) -> Map<Seq<u8>, Seq<u8>> {
        bytes_map(self.map@)
    }

    open spec fn reliable(&self) -> bool {
        true
    }

    fn get(&self, key: &[u8]) -> (r: Result<Option<Vec<u8>>, Error>) {
        match self.map.get(key) {
            Some(v) => Ok(Some(copy_bytes(v))),
            None => Ok(None),
        }
    }

    fn get_next(&self, key: &[u8]) -> (r: Result<Option<KV>, Error>) {
        proof {
            assert(self@.dom() =~= self.map@.dom());
        }
        match self.map.next_after(key) {
            Some((k, v)) => Ok(Some((copy_bytes(k), copy_bytes(v)))),
            None => Ok(None),
        }
    }

    fn get_prev(&self, key: Option<&[u8]>) -> (r: Result<Option<KV>, Error>) {
        proof {
            assert(self@.dom() =~= self.map@.dom());
        }
        match self.map.prev_before(key) {
            Some((k, v)) => Ok(Some((copy_bytes(k), copy_bytes(v)))),
            None => Ok(None),
        }
    }
}

impl Write for MapStore {
    fn put(&mut self, key: Vec<u8>, value: Vec<u8>) -> (r: Result<(), Error>) {
        self.map.insert(key, value);
        proof {
            assert(self@ =~= old(self)@.insert(key@, value@));
        }
        Ok(())
    }

    fn delete(&mut self, key: &[u8]) -> (r: Result<(), Error>) {
        self.map.remove(key);
        proof {
            assert(self@ =~= old(self)@.remove(key@));
        }
        Ok(())
    }
}

} // verus!
