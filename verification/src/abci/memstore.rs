//! A store for the state machine that keeps everything in memory.

use crate::abci::messages::{
    Header, RequestApplySnapshotChunk, RequestLoadSnapshotChunk, RequestOfferSnapshot,
    ResponseOfferSnapshot, Snapshot,
};
use crate::abci::ABCIStore;
use crate::error::Error;
use crate::store::mapstore::MapStore;
use crate::store::{Read, Write, KV};
use vstd::prelude::*;

verus! {

/// A store that keeps its entries and the height of the last block in memory. It has no
/// snapshots to offer and takes none.
pub struct MemStore {
    height: u64,
    store: MapStore,
}

impl MemStore {
    /// An empty store at height 0.
    pub fn new() -> (s: Self)
        ensures
            s@ == Map::<Seq<u8>, Seq<u8>>::empty(),
            s.committed_height() == 0,
            s.reliable(),
    {
        MemStore { height: 0, store: MapStore::new() }
    }
}

impl Default for MemStore {
    fn default() -> (s: Self)
        ensures
            s@ == Map::<Seq<u8>, Seq<u8>>::empty(),
            s.committed_height() == 0,
    {
        MemStore::new()
    }
}

impl Read for MemStore {
    closed spec fn view(&self) -> Map<Seq<u8>, Seq<u8>> {
        self.store@
    }

    open spec fn reliable(&self) -> bool {
        true
    }

    fn get(&self, key: &[u8]) -> (r: Result<Option<Vec<u8>>, Error>) {
        self.store.get(key)
    }

    fn get_next(&self, key: &[u8]) -> (r: Result<Option<KV>, Error>) {
        self.store.get_next(key)
    }

    fn get_prev(&self, key: Option<&[u8]>) -> (r: Result<Option<KV>, Error>) {
        self.store.get_prev(key)
    }
}

impl Write for MemStore {
    fn put(&mut self, key: Vec<u8>, value: Vec<u8>) -> (r: Result<(), Error>)
        ensures
            (*final(self)).committed_height() == (*old(self)).committed_height(),
    {
        self.store.put(key, value)
    }

    fn delete(&mut self, key: &[u8]) -> (r: Result<(), Error>)
        ensures
            (*final(self)).committed_height() == (*old(self)).committed_height(),
    {
        self.store.delete(key)
    }
}

impl ABCIStore for MemStore {
    closed spec fn committed_height(&self) -> u64 {
        self.height
    }

    open spec fn root(&self) -> Seq<u8> {
        Seq::empty()
    }

    fn height(&self) -> (r: Result<u64, Error>) {
        Ok(self.height)
    }

    fn root_hash(&self) -> (r: Result<Vec<u8>, Error>) {
        Ok(Vec::new())
    }

    fn commit(&mut self, header: &Header) -> (r: Result<(), Error>) {
        self.height = #[verifier::truncate]
        (header.height as u64);
        Ok(())
    }

    fn list_snapshots(&self) -> (r: Result<Vec<Snapshot>, Error>)
        ensures
            r matches Ok(list) && list@.len() == 0,
    {
        Ok(Vec::new())
    }

    /// This store keeps no snapshots: there is no chunk to load, whatever is asked for.
    fn load_snapshot_chunk(&self, req: RequestLoadSnapshotChunk) -> (r: Result<Vec<u8>, Error>)
        ensures
            r is Err,
            r->Err_0 is Store,
            r->Err_0.detail() == "This store keeps no snapshots"@,
    {
        Err(Error::Store(String::from_str("This store keeps no snapshots")))
    }

    fn offer_snapshot(&mut self, req: RequestOfferSnapshot) -> (r: Result<
        ResponseOfferSnapshot,
        Error,
    >)
        ensures
            r matches Ok(res) && res.is_empty(),
            *final(self) == *old(self),
    {
        Ok(ResponseOfferSnapshot::default())
    }

    /// This store takes no snapshots: every chunk is refused, and the store stays as it is.
    fn apply_snapshot_chunk(&mut self, req: RequestApplySnapshotChunk) -> (r: Result<(), Error>)
        ensures
            r is Err,
            r->Err_0 is Store,
            r->Err_0.detail() == "This store takes no snapshots"@,
            *final(self) == *old(self),
    {
        Err(Error::Store(String::from_str("This store takes no snapshots")))
    }
}

} // verus!
