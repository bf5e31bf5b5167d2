//! The state machine that serves the requests of the consensus engine.
//!
//! The machine owns the backing store and two sets of pending writes. The writes of the
//! block in progress wait in the consensus overlay until they are flushed into the store;
//! the writes of transaction checks wait in the mempool overlay, which the store never
//! sees. A handler of the application works on a buffer of its own over one of the two:
//! its writes join the overlay when it succeeds and are dropped when it fails.

pub mod executor;
pub mod hooks;
pub mod memstore;
pub mod messages;

pub use hooks::{AbciQuery, App, BeginBlock, EndBlock, InitChain};
pub use memstore::MemStore;

use crate::abci::messages::{
    Header, Req, Request, RequestApplySnapshotChunk, RequestBeginBlock, RequestCheckTx,
    RequestDeliverTx, RequestEndBlock, RequestInitChain, RequestLoadSnapshotChunk,
    RequestOfferSnapshot, RequestQuery, Res, ResponseApplySnapshotChunk, ResponseBeginBlock,
    ResponseCheckTx, ResponseCommit, ResponseDeliverTx, ResponseEcho, ResponseEndBlock,
    ResponseInfo, ResponseInitChain, ResponseListSnapshots, ResponseLoadSnapshotChunk,
    ResponseOfferSnapshot, ResponseQuery, ResponseSetOption, Snapshot,
};
use crate::error::Error;
use crate::store::bufstore;
use crate::store::bufstore::{BufStore, BufStoreMap};
use crate::store::ordered_map::OrderedMap;
use crate::store::{Read, Write};
use crate::text;
use vstd::prelude::*;

verus! {

/// The height of a block as the store counts it: the header's height as an unsigned
/// number.
pub open spec fn header_height(header: Header) -> u64 {
    header.height as u64
}

/// Computes the height of a block as the store counts it.
pub fn committed_height_of(header: &Header) -> (h: u64)
    ensures
        h == header_height(*header),
{
    #[verifier::truncate]
    (header.height as u64)
}

/// The handlers of an application over the store `S`. Each has a default that does
/// nothing and answers with an empty reply.
///
/// A handler that writes gets a buffer of its own over the overlay of its kind over the
/// store: its writes stay in that buffer. A query gets the store itself, to read.
pub trait Application<S: Read> {
    /// The start of the chain.
    fn init_chain(&self, store: &mut BufStore<&BufStore<&S>>, req: &RequestInitChain) -> (r:
        Result<ResponseInitChain, Error>)
        default_ensures
            r is Ok && r.unwrap().is_empty(),
            *final(store) == *old(store),
    {
        Ok(ResponseInitChain::default())
    }

    /// The start of a block.
    fn begin_block(&self, store: &mut BufStore<&BufStore<&S>>, req: &RequestBeginBlock) -> (r:
        Result<ResponseBeginBlock, Error>)
        default_ensures
            r is Ok && r.unwrap().is_empty(),
            *final(store) == *old(store),
    {
        Ok(ResponseBeginBlock::default())
    }

    /// A transaction of the block in progress.
    fn deliver_tx(&self, store: &mut BufStore<&BufStore<&S>>, req: &RequestDeliverTx) -> (r:
        Result<ResponseDeliverTx, Error>)
        default_ensures
            r is Ok && r.unwrap().is_empty(),
            *final(store) == *old(store),
    {
        Ok(ResponseDeliverTx::default())
    }

    /// The end of a block.
    fn end_block(&self, store: &mut BufStore<&BufStore<&S>>, req: &RequestEndBlock) -> (r:
        Result<ResponseEndBlock, Error>)
        default_ensures
            r is Ok && r.unwrap().is_empty(),
            *final(store) == *old(store),
    {
        Ok(ResponseEndBlock::default())
    }

    /// A transaction that asks to be taken into a later block.
    fn check_tx(&self, store: &mut BufStore<&BufStore<&S>>, req: &RequestCheckTx) -> (r: Result<
        ResponseCheckTx,
        Error,
    >)
        default_ensures
            r is Ok && r.unwrap().is_empty(),
            *final(store) == *old(store),
    {
        Ok(ResponseCheckTx::default())
    }

    /// A question about the state as it was last flushed into the store.
    fn query(&self, store: &S, req: &RequestQuery) -> (r: Result<ResponseQuery, Error>)
        default_ensures
            r is Ok && r.unwrap().is_empty(),
    {
        Ok(ResponseQuery::default())
    }
}

/// A store that keeps the state of an application from block to block.
pub trait ABCIStore: Read + Write {
    /// The height of the last block that was committed.
    spec fn committed_height(&self) -> u64;

    /// The hash that commits to the state of the store.
    spec fn root(&self) -> Seq<u8>;

    /// The height of the last block that was committed.
    fn height(&self) -> (r: Result<u64, Error>)
        ensures
            self.reliable() ==> r is Ok,
            r matches Ok(h) ==> h == self.committed_height(),
    ;

    /// The hash that commits to the state of the store.
    fn root_hash(&self) -> (r: Result<Vec<u8>, Error>)
        ensures
            self.reliable() ==> r is Ok,
            r matches Ok(h) ==> h@ == self.root(),
    ;

    /// Makes the state as it stands the state of the block with the header `header`.
    fn commit(&mut self, header: &Header) -> (r: Result<(), Error>)
        ensures
            old(self).reliable() ==> r is Ok,
            final(self).reliable() == old(self).reliable(),
            r is Ok ==> final(self)@ == old(self)@,
            r is Ok ==> final(self).committed_height() == header_height(*header),
    ;

    /// The snapshots that the store can hand to a node that joins.
    fn list_snapshots(&self) -> (r: Result<Vec<Snapshot>, Error>);

    /// One chunk of a snapshot of the store.
    fn load_snapshot_chunk(&self, req: RequestLoadSnapshotChunk) -> (r: Result<Vec<u8>, Error>);

    /// Offers the store a snapshot to restore itself from.
    fn offer_snapshot(&mut self, req: RequestOfferSnapshot) -> (r: Result<
        ResponseOfferSnapshot,
        Error,
    >);

    /// Hands the store one chunk of the snapshot that it restores itself from.
    fn apply_snapshot_chunk(&mut self, req: RequestApplySnapshotChunk) -> (r: Result<(), Error>);
}

/// The text of the error that says that the stop height `stop` was reached.
pub open spec fn stop_text(stop: u64) -> Seq<char> {
    "Reached stop height ("@ + text::decimal_digits(stop as nat) + ")"@
}

/// Whether a block with the header `header` lies beyond the height `stop` at which the
/// machine is to stop.
pub open spec fn beyond_stop(stop: Option<u64>, header: Option<Header>) -> bool {
    stop is Some && header is Some && header.unwrap().height > stop.unwrap()
}

/// `r` is an error of the state machine itself that carries `text`.
pub open spec fn refuses(r: Result<Res, Error>, text: Seq<char>) -> bool {
    r is Err && r.unwrap_err() is ABCI && r.unwrap_err().detail() == text
}

/// What `Info` answers for a store at `height` with the root hash `root`.
pub open spec fn info_reply(height: u64, root: Seq<u8>, info: ResponseInfo) -> bool {
    &&& info.data@ == "Rust ABCI State Machine"@
    &&& info.version@ == "X"@
    &&& info.app_version == 0
    &&& info.last_block_height == height as i64
    &&& info.last_block_app_hash@ == if height == 0 {
        Seq::<u8>::empty()
    } else {
        root
    }
}

/// The error that says that the stop height `stop` was reached.
pub fn stop_error(stop: u64) -> (e: Error)
    ensures
        e is ABCI,
        e.detail() == stop_text(stop),
{
    let mut message = String::from_str("Reached stop height (");
    message.append(text::decimal(stop).as_str());
    message.append(")");
    Error::ABCI(message)
}

/// The reply to a query: what the application answered, or the report of its error with
/// the height `height` of the machine.
pub fn query_reply(outcome: Result<ResponseQuery, Error>, height: u64) -> (res: ResponseQuery)
    ensures
        match outcome {
            Ok(answer) => res == answer,
            Err(e) => res.reports(e.text(), height as i64),
        },
{
    match outcome {
        Ok(answer) => answer,
        Err(e) => ResponseQuery {
            code: messages::CODE_ERROR,
            log: e.to_string(),
            info: e.to_string(),
            index: 0,
            key: Vec::new(),
            value: Vec::new(),
            proof_ops: None,
            height: #[verifier::truncate]
            (height as i64),
            codespace: String::new(),
        },
    }
}

/// The reply to a transaction that the application refused with `e`.
pub fn failed_deliver_tx(e: &Error) -> (res: ResponseDeliverTx)
    ensures
        res.reports_code(messages::CODE_ERROR, e.text()),
{
    ResponseDeliverTx {
        code: messages::CODE_ERROR,
        data: Vec::new(),
        log: e.to_string(),
        info: String::new(),
        gas_wanted: 0,
        gas_used: 0,
        events: Vec::new(),
        codespace: String::new(),
    }
}

/// The reply to the check of a transaction that the application refused with `e`.
pub fn failed_check_tx(e: &Error) -> (res: ResponseCheckTx)
    ensures
        res.reports_code(messages::CODE_ERROR, e.text()),
{
    ResponseCheckTx {
        code: messages::CODE_ERROR,
        data: Vec::new(),
        log: e.to_string(),
        info: String::new(),
        gas_wanted: 0,
        gas_used: 0,
        events: Vec::new(),
        codespace: String::new(),
        sender: String::new(),
        priority: 0,
        mempool_error: String::new(),
    }
}

/// The reply to a snapshot chunk, given what the store made of it: the chunk is accepted
/// where the store took it; else chunk `index` is to be fetched again and the peer
/// `sender` is rejected.
pub fn chunk_reply(outcome: Result<(), Error>, index: u32, sender: String) -> (res:
    ResponseApplySnapshotChunk)
    ensures
        match outcome {
            Ok(_) => res.accepts(),
            Err(_) => res.retries(index, sender@),
        },
{
    let mut res = ResponseApplySnapshotChunk::default();
    match outcome {
        Ok(_) => {
            res.result = messages::CHUNK_ACCEPT;
        },
        Err(_) => {
            res.result = messages::CHUNK_RETRY;
            let mut refetch: Vec<u32> = Vec::new();
            refetch.push(index);
            let mut reject: Vec<String> = Vec::new();
            reject.push(sender);
            res.refetch_chunks = refetch;
            res.reject_senders = reject;
            assert(res.refetch_chunks@ =~= seq![index]);
        },
    }
    res
}

/// The state machine that serves the requests of the consensus engine for the
/// application `A` over the store `S`.
pub struct ABCIStateMachine<A: Application<S>, S: ABCIStore> {
    app: A,
    store: S,
    mempool_state: BufStoreMap,
    consensus_state: BufStoreMap,
    height: u64,
    skip_init_chain: bool,
    header: Option<Header>,
    stop_height: Option<u64>,
}

impl<A: Application<S>, S: ABCIStore> ABCIStateMachine<A, S> {
    /// The application.
    pub closed spec fn app(self) -> A {
        self.app
    }

    /// The backing store.
    pub closed spec fn store(self) -> S {
        self.store
    }

    /// The writes of transaction checks since the last commit.
    pub closed spec fn mempool(self) -> Map<Seq<u8>, Option<Seq<u8>>> {
        bufstore::pending(self.mempool_state@)
    }

    /// The writes of the block in progress that the store has not seen yet.
    pub closed spec fn consensus(self) -> Map<Seq<u8>, Option<Seq<u8>>> {
        bufstore::pending(self.consensus_state@)
    }

    /// The height that the last `EndBlock` reported.
    pub closed spec fn block_height(self) -> u64 {
        self.height
    }

    /// The header that the last `BeginBlock` brought.
    pub closed spec fn block_header(self) -> Option<Header> {
        self.header
    }

    /// Whether `InitChain` is answered without calling the application.
    pub closed spec fn skips_init_chain(self) -> bool {
        self.skip_init_chain
    }

    /// The height at which the machine stops, if one is set.
    pub closed spec fn stop_height(self) -> Option<u64> {
        self.stop_height
    }

    /// `post` has the application and the settings of `self`.
    pub open spec fn same_setup(self, post: Self) -> bool {
        &&& post.app() == self.app()
        &&& post.skips_init_chain() == self.skips_init_chain()
        &&& post.stop_height() == self.stop_height()
    }

    /// `post` has the block height and the header of `self`.
    pub open spec fn same_block(self, post: Self) -> bool {
        &&& post.block_height() == self.block_height()
        &&& post.block_header() == self.block_header()
    }

    /// `post` is in every part the state `self`.
    pub open spec fn unchanged(self, post: Self) -> bool {
        &&& self.same_setup(post)
        &&& self.same_block(post)
        &&& post.store() == self.store()
        &&& post.mempool() == self.mempool()
        &&& post.consensus() == self.consensus()
    }

    /// What the store of `post` holds after the pending writes `writes` were flushed into
    /// the store of `self`.
    pub open spec fn flushed(self, writes: Map<Seq<u8>, Option<Seq<u8>>>, post: Self) -> bool {
        &&& post.store()@ == bufstore::overlay(writes, self.store()@)
        &&& post.store().reliable() == self.store().reliable()
    }

    /// `Info`: the height of the store and, above height 0, its root hash.
    pub open spec fn informed(self, r: Result<Res, Error>) -> bool {
        &&& self.store().reliable() ==> r is Ok
        &&& r is Ok ==> r.unwrap() is Info && info_reply(
            self.store().committed_height(),
            self.store().root(),
            r.unwrap()->Info_0,
        )
    }

    /// `InitChain` where it is skipped: the reply is empty and nothing changes.
    pub open spec fn init_chain_skipped(self, post: Self, r: Result<Res, Error>) -> bool {
        &&& r is Ok
        &&& r.unwrap() is InitChain
        &&& r.unwrap()->InitChain_0.is_empty()
        &&& self.unchanged(post)
    }

    /// `InitChain`, where the application answered `outcome` and left the writes `writes`:
    /// on success the writes and the consensus overlay are flushed into the store; an
    /// error of the application is the error of the machine.
    pub open spec fn initialized(
        self,
        outcome: Result<ResponseInitChain, Error>,
        writes: Map<Seq<u8>, Option<Seq<u8>>>,
        post: Self,
        r: Result<Res, Error>,
    ) -> bool {
        if self.skips_init_chain() {
            self.init_chain_skipped(post, r)
        } else {
            match outcome {
                Ok(res) => {
                    &&& self.store().reliable() ==> r is Ok
                    &&& r is Ok ==> {
                        &&& r == Ok::<Res, Error>(Res::InitChain(res))
                        &&& self.same_setup(post)
                        &&& self.same_block(post)
                        &&& post.mempool() == self.mempool()
                        &&& post.consensus() == Map::<Seq<u8>, Option<Seq<u8>>>::empty()
                        &&& self.flushed(bufstore::merged(self.consensus(), writes), post)
                    }
                },
                Err(e) => r == Err::<Res, Error>(e) && self.unchanged(post),
            }
        }
    }

    /// Whether `BeginBlock` with the request `req` is refused before the application is
    /// asked: a stop height is set, and the block has no header or lies beyond it.
    pub open spec fn refuses_block(self, req: RequestBeginBlock) -> bool {
        (self.stop_height() is Some && req.header is None) || beyond_stop(
            self.stop_height(),
            req.header,
        )
    }

    /// `BeginBlock` with a request `req` that is refused: the error says why, and nothing
    /// changes.
    pub open spec fn block_refused(
        self,
        req: RequestBeginBlock,
        post: Self,
        r: Result<Res, Error>,
    ) -> bool {
        &&& self.unchanged(post)
        &&& if req.header is None {
            refuses(r, "Block header is missing"@)
        } else {
            refuses(r, stop_text(self.stop_height().unwrap()))
        }
    }

    /// `BeginBlock` with the request `req`, where the application answered `outcome` and
    /// left the writes `writes`: refused beyond the stop height; else the header is kept,
    /// and on success the writes join the consensus overlay. The store is not written.
    pub open spec fn began(
        self,
        req: RequestBeginBlock,
        outcome: Result<ResponseBeginBlock, Error>,
        writes: Map<Seq<u8>, Option<Seq<u8>>>,
        post: Self,
        r: Result<Res, Error>,
    ) -> bool {
        if self.refuses_block(req) {
            self.block_refused(req, post, r)
        } else {
            &&& self.same_setup(post)
            &&& post.store() == self.store()
            &&& post.mempool() == self.mempool()
            &&& post.block_height() == self.block_height()
            &&& post.block_header() == req.header
            &&& match outcome {
                Ok(res) => {
                    &&& r == Ok::<Res, Error>(Res::BeginBlock(res))
                    &&& post.consensus() == bufstore::merged(self.consensus(), writes)
                },
                Err(e) => r == Err::<Res, Error>(e) && post.consensus() == self.consensus(),
            }
        }
    }

    /// `DeliverTx`, where the application answered `outcome` and left the writes
    /// `writes`: on success the writes and the consensus overlay are flushed into the
    /// store; on failure the writes are dropped, nothing changes, and the reply carries
    /// the error.
    pub open spec fn delivered(
        self,
        outcome: Result<ResponseDeliverTx, Error>,
        writes: Map<Seq<u8>, Option<Seq<u8>>>,
        post: Self,
        r: Result<Res, Error>,
    ) -> bool {
        match outcome {
            Ok(res) => {
                &&& self.store().reliable() ==> r is Ok
                &&& r is Ok ==> {
                    &&& r == Ok::<Res, Error>(Res::DeliverTx(res))
                    &&& self.same_setup(post)
                    &&& self.same_block(post)
                    &&& post.mempool() == self.mempool()
                    &&& post.consensus() == Map::<Seq<u8>, Option<Seq<u8>>>::empty()
                    &&& self.flushed(bufstore::merged(self.consensus(), writes), post)
                }
            },
            Err(e) => {
                &&& r is Ok
                &&& r.unwrap() is DeliverTx
                &&& r.unwrap()->DeliverTx_0.reports_code(messages::CODE_ERROR, e.text())
                &&& self.unchanged(post)
            },
        }
    }

    /// `EndBlock` with the request `req`, where the application answered `outcome` and
    /// left the writes `writes`: the height is kept, and on success the writes join the
    /// consensus overlay. The store is not written.
    pub open spec fn ended(
        self,
        req: RequestEndBlock,
        outcome: Result<ResponseEndBlock, Error>,
        writes: Map<Seq<u8>, Option<Seq<u8>>>,
        post: Self,
        r: Result<Res, Error>,
    ) -> bool {
        &&& self.same_setup(post)
        &&& post.store() == self.store()
        &&& post.mempool() == self.mempool()
        &&& post.block_height() == req.height as u64
        &&& post.block_header() == self.block_header()
        &&& match outcome {
            Ok(res) => {
                &&& r == Ok::<Res, Error>(Res::EndBlock(res))
                &&& post.consensus() == bufstore::merged(self.consensus(), writes)
            },
            Err(e) => r == Err::<Res, Error>(e) && post.consensus() == self.consensus(),
        }
    }

    /// `Commit`: the consensus overlay is flushed into the store, the store commits the
    /// block of the header that `BeginBlock` brought, both overlays are emptied, and the
    /// reply carries the new root hash.
    pub open spec fn committed(self, post: Self, r: Result<Res, Error>) -> bool {
        match self.block_header() {
            None => refuses(r, "Commit without a block header"@) && self.unchanged(post),
            Some(header) => {
                &&& self.store().reliable() ==> r is Ok
                &&& r is Ok ==> {
                    &&& r.unwrap() is Commit
                    &&& r.unwrap()->Commit_0.data@ == post.store().root()
                    &&& r.unwrap()->Commit_0.retain_height == 0
                    &&& self.same_setup(post)
                    &&& self.same_block(post)
                    &&& post.mempool() == Map::<Seq<u8>, Option<Seq<u8>>>::empty()
                    &&& post.consensus() == Map::<Seq<u8>, Option<Seq<u8>>>::empty()
                    &&& self.flushed(self.consensus(), post)
                    &&& post.store().committed_height() == header_height(header)
                }
            },
        }
    }

    /// `CheckTx`, where the application answered `outcome` and left the writes `writes`:
    /// on success the writes join the mempool overlay; on failure they are dropped and
    /// the reply carries the error. Nothing else changes.
    pub open spec fn checked(
        self,
        outcome: Result<ResponseCheckTx, Error>,
        writes: Map<Seq<u8>, Option<Seq<u8>>>,
        post: Self,
        r: Result<Res, Error>,
    ) -> bool {
        &&& self.same_setup(post)
        &&& self.same_block(post)
        &&& post.store() == self.store()
        &&& post.consensus() == self.consensus()
        &&& match outcome {
            Ok(res) => {
                &&& r == Ok::<Res, Error>(Res::CheckTx(res))
                &&& post.mempool() == bufstore::merged(self.mempool(), writes)
            },
            Err(e) => {
                &&& r is Ok
                &&& r.unwrap() is CheckTx
                &&& r.unwrap()->CheckTx_0.reports_code(messages::CODE_ERROR, e.text())
                &&& post.mempool() == self.mempool()
            },
        }
    }

    /// `Query`, where the application answered `outcome`: the reply is the answer, or the
    /// report of the error with the height of the machine.
    pub open spec fn queried(self, outcome: Result<ResponseQuery, Error>, r: Res) -> bool {
        &&& r is Query
        &&& match outcome {
            Ok(answer) => r->Query_0 == answer,
            Err(e) => r->Query_0.reports(e.text(), self.block_height() as i64),
        }
    }

    /// `ListSnapshots`, where the store answered `outcome`.
    pub open spec fn listed(outcome: Result<Vec<Snapshot>, Error>, r: Result<Res, Error>) -> bool {
        match outcome {
            Ok(snapshots) => r == Ok::<Res, Error>(
                Res::ListSnapshots(ResponseListSnapshots { snapshots }),
            ),
            Err(e) => r == Err::<Res, Error>(e),
        }
    }

    /// `OfferSnapshot`, where the store answered `outcome`.
    pub open spec fn offered(
        outcome: Result<ResponseOfferSnapshot, Error>,
        r: Result<Res, Error>,
    ) -> bool {
        match outcome {
            Ok(res) => r == Ok::<Res, Error>(Res::OfferSnapshot(res)),
            Err(e) => r == Err::<Res, Error>(e),
        }
    }

    /// `LoadSnapshotChunk`, where the store answered `outcome`.
    pub open spec fn loaded(outcome: Result<Vec<u8>, Error>, r: Result<Res, Error>) -> bool {
        match outcome {
            Ok(chunk) => r == Ok::<Res, Error>(
                Res::LoadSnapshotChunk(ResponseLoadSnapshotChunk { chunk }),
            ),
            Err(e) => r == Err::<Res, Error>(e),
        }
    }

    /// A request about snapshots that is passed to the store: whatever the store does, the
    /// overlays, the block and the settings stay.
    pub open spec fn store_served(self, post: Self) -> bool {
        &&& self.same_setup(post)
        &&& self.same_block(post)
        &&& post.mempool() == self.mempool()
        &&& post.consensus() == self.consensus()
    }

    /// `ApplySnapshotChunk` with the request `req`: the chunk is accepted, or it is to be
    /// fetched again and its sender is rejected.
    pub open spec fn chunk_applied(
        self,
        req: RequestApplySnapshotChunk,
        post: Self,
        r: Result<Res, Error>,
    ) -> bool {
        &&& self.store_served(post)
        &&& r is Ok
        &&& r.unwrap() is ApplySnapshotChunk
        &&& {
            let res = r.unwrap()->ApplySnapshotChunk_0;
            res.accepts() || res.retries(req.index, req.sender@)
        }
    }

    /// `ApplySnapshotChunk` with the request `req`, where the store answered `outcome`:
    /// the chunk is accepted where the store took it; else it is to be fetched again and
    /// its sender is rejected.
    pub open spec fn chunk_answered(
        req: RequestApplySnapshotChunk,
        outcome: Result<(), Error>,
        r: Result<Res, Error>,
    ) -> bool {
        &&& r is Ok
        &&& r.unwrap() is ApplySnapshotChunk
        &&& match outcome {
            Ok(_) => r.unwrap()->ApplySnapshotChunk_0.accepts(),
            Err(_) => r.unwrap()->ApplySnapshotChunk_0.retries(req.index, req.sender@),
        }
    }

    /// Whether `buffer` is what a handler of a block is handed: a buffer of its own, with
    /// no write in it yet, over the consensus overlay over the store.
    pub open spec fn block_buffer(self, buffer: BufStore<&BufStore<&S>>) -> bool {
        &&& buffer.writes() == Map::<Seq<u8>, Option<Seq<u8>>>::empty()
        &&& buffer.parent().writes() == self.consensus()
        &&& *buffer.parent().parent() == self.store()
    }

    /// Whether `buffer` is what the check of a transaction is handed: a buffer of its own,
    /// with no write in it yet, over the mempool overlay over the store.
    pub open spec fn check_buffer(self, buffer: BufStore<&BufStore<&S>>) -> bool {
        &&& buffer.writes() == Map::<Seq<u8>, Option<Seq<u8>>>::empty()
        &&& buffer.parent().writes() == self.mempool()
        &&& *buffer.parent().parent() == self.store()
    }

    /// What `run` does with the request `req`: the state `post` that it leaves and the
    /// result `r` that it returns, from the state `self`. A request that only reads is
    /// answered with what the application or the store has returned for it. Of a
    /// request that a handler may answer with writes, and of one that changes the store,
    /// this says what holds whatever the handler or the store has returned.
    pub open spec fn handled(self, req: Request, post: Self, r: Result<Res, Error>) -> bool {
        match req.value {
            None => refuses(r, "Received empty request"@) && self.unchanged(post),
            Some(Req::Info(_)) => self.informed(r) && self.unchanged(post),
            Some(Req::Flush) => r == Ok::<Res, Error>(Res::Flush) && self.unchanged(post),
            Some(Req::Echo(_)) => {
                &&& r is Ok
                &&& r.unwrap() is Echo
                &&& r.unwrap()->Echo_0.is_empty()
                &&& self.unchanged(post)
            },
            Some(Req::SetOption(_)) => {
                &&& r is Ok
                &&& r.unwrap() is SetOption
                &&& r.unwrap()->SetOption_0.is_empty()
                &&& self.unchanged(post)
            },
            Some(Req::Query(q)) => {
                &&& r is Ok
                &&& exists|outcome: Result<ResponseQuery, Error>|
                    #[trigger] call_ensures(A::query, (&self.app(), &self.store(), &q), outcome)
                        && self.queried(outcome, r.unwrap())
                &&& self.unchanged(post)
            },
            Some(Req::InitChain(_)) => exists|
                outcome: Result<ResponseInitChain, Error>,
                writes: Map<Seq<u8>, Option<Seq<u8>>>,
            | self.initialized(outcome, writes, post, r),
            Some(Req::BeginBlock(b)) => exists|
                outcome: Result<ResponseBeginBlock, Error>,
                writes: Map<Seq<u8>, Option<Seq<u8>>>,
            | self.began(b, outcome, writes, post, r),
            Some(Req::DeliverTx(_)) => exists|
                outcome: Result<ResponseDeliverTx, Error>,
                writes: Map<Seq<u8>, Option<Seq<u8>>>,
            | self.delivered(outcome, writes, post, r),
            Some(Req::EndBlock(e)) => exists|
                outcome: Result<ResponseEndBlock, Error>,
                writes: Map<Seq<u8>, Option<Seq<u8>>>,
            | self.ended(e, outcome, writes, post, r),
            Some(Req::Commit) => self.committed(post, r),
            Some(Req::CheckTx(_)) => exists|
                outcome: Result<ResponseCheckTx, Error>,
                writes: Map<Seq<u8>, Option<Seq<u8>>>,
            | self.checked(outcome, writes, post, r),
            Some(Req::ListSnapshots) => {
                &&& self.unchanged(post)
                &&& exists|outcome: Result<Vec<Snapshot>, Error>|
                    #[trigger] call_ensures(S::list_snapshots, (&self.store(),), outcome)
                        && Self::listed(outcome, r)
            },
            Some(Req::OfferSnapshot(_)) => {
                &&& self.store_served(post)
                &&& exists|outcome: Result<ResponseOfferSnapshot, Error>| Self::offered(outcome, r)
            },
            Some(Req::LoadSnapshotChunk(l)) => {
                &&& self.unchanged(post)
                &&& exists|outcome: Result<Vec<u8>, Error>|
                    #[trigger] call_ensures(S::load_snapshot_chunk, (&self.store(), l), outcome)
                        && Self::loaded(outcome, r)
            },
            Some(Req::ApplySnapshotChunk(a)) => self.chunk_applied(a, post, r),
        }
    }

    /// What the handlers of a block read: the store through the consensus overlay.
    pub open spec fn seen_by_block(self) -> Map<Seq<u8>, Seq<u8>> {
        bufstore::overlay(self.consensus(), self.store()@)
    }

    /// What the checks of transactions read: the store through the mempool overlay.
    pub open spec fn seen_by_checks(self) -> Map<Seq<u8>, Seq<u8>> {
        bufstore::overlay(self.mempool(), self.store()@)
    }

    /// After every `Commit` that succeeds both overlays are empty, and the height of the
    /// store is the height of the header that the block began with.
    pub proof fn lemma_commit_resets(self, req: Request, post: Self, r: Result<Res, Error>)
        requires
            self.handled(req, post, r),
            req.value == Some(Req::Commit),
            r is Ok,
        ensures
            post.mempool() == Map::<Seq<u8>, Option<Seq<u8>>>::empty(),
            post.consensus() == Map::<Seq<u8>, Option<Seq<u8>>>::empty(),
            self.block_header() is Some,
            post.store().committed_height() == header_height(self.block_header().unwrap()),
            self.block_header().unwrap().height >= 0 ==> post.store().committed_height()
                == self.block_header().unwrap().height,
            post.store()@ == self.seen_by_block(),
    {
    }

    /// A query changes nothing: the store is the same store, and so is its root hash.
    pub proof fn lemma_query_keeps_root(self, req: Request, post: Self, r: Result<Res, Error>)
        requires
            self.handled(req, post, r),
            req.value is Some,
            req.value.unwrap() is Query,
        ensures
            post.store() == self.store(),
            post.store().root() == self.store().root(),
            self.unchanged(post),
    {
    }

    /// The check of a transaction changes nothing that the handlers of a block can see:
    /// neither the store nor the consensus overlay nor the block.
    pub proof fn lemma_check_tx_is_hidden_from_blocks(
        self,
        req: Request,
        post: Self,
        r: Result<Res, Error>,
    )
        requires
            self.handled(req, post, r),
            req.value is Some,
            req.value.unwrap() is CheckTx,
        ensures
            r is Ok,
            post.store() == self.store(),
            post.consensus() == self.consensus(),
            post.seen_by_block() == self.seen_by_block(),
            self.same_block(post),
    {
    }

    /// A transaction that was delivered leaves the mempool overlay as it was.
    pub proof fn lemma_deliver_tx_keeps_mempool(
        self,
        req: Request,
        post: Self,
        r: Result<Res, Error>,
    )
        requires
            self.handled(req, post, r),
            req.value is Some,
            req.value.unwrap() is DeliverTx,
            r is Ok,
        ensures
            post.mempool() == self.mempool(),
            r.unwrap() is DeliverTx,
    {
    }

    /// A transaction that the application refused is rolled back: whatever the
    /// application had written, the state is as it was, and the reply carries the error.
    pub proof fn lemma_refused_tx_is_rolled_back(
        self,
        e: Error,
        writes: Map<Seq<u8>, Option<Seq<u8>>>,
        post: Self,
        r: Result<Res, Error>,
    )
        requires
            self.delivered(Err(e), writes, post, r),
        ensures
            self.unchanged(post),
            post.seen_by_block() == self.seen_by_block(),
            r is Ok,
            r.unwrap() is DeliverTx,
            r.unwrap()->DeliverTx_0.code == messages::CODE_ERROR,
            r.unwrap()->DeliverTx_0.log@ == e.text(),
    {
    }

    /// A machine for `app` over `store`, with empty overlays and no block in progress.
    pub fn new(app: A, store: S, skip_init_chain: bool, stop_height: Option<u64>) -> (m: Self)
        ensures
            m.app() == app,
            m.store() == store,
            m.mempool() == Map::<Seq<u8>, Option<Seq<u8>>>::empty(),
            m.consensus() == Map::<Seq<u8>, Option<Seq<u8>>>::empty(),
            m.block_height() == 0,
            m.block_header() is None,
            m.skips_init_chain() == skip_init_chain,
            m.stop_height() == stop_height,
    {
        let m = ABCIStateMachine {
            app,
            store,
            mempool_state: OrderedMap::new(),
            consensus_state: OrderedMap::new(),
            height: 0,
            skip_init_chain,
            header: None,
            stop_height,
        };
        assert(m.mempool() =~= Map::<Seq<u8>, Option<Seq<u8>>>::empty());
        assert(m.consensus() =~= Map::<Seq<u8>, Option<Seq<u8>>>::empty());
        m
    }

    /// The height that the last `EndBlock` reported.
    pub fn height(&self) -> (h: u64)
        ensures
            h == self.block_height(),
    {
        self.height
    }

    /// The backing store, to read.
    pub fn store_ref(&self) -> (s: &S)
        ensures
            *s == self.store(),
    {
        &self.store
    }

    /// Answers `Info`.
    pub fn info(&self) -> (r: Result<Res, Error>)
        ensures
            self.informed(r),
    {
        let start_height = match self.store.height() {
            Ok(h) => h,
            Err(e) => {
                return Err(e);
            },
        };
        let app_hash = if start_height == 0 {
            Vec::new()
        } else {
            match self.store.root_hash() {
                Ok(h) => h,
                Err(e) => {
                    return Err(e);
                },
            }
        };
        Ok(
            Res::Info(
                ResponseInfo {
                    data: String::from_str("Rust ABCI State Machine"),
                    version: String::from_str("X"),
                    app_version: 0,
                    last_block_height: #[verifier::truncate]
                    (start_height as i64),
                    last_block_app_hash: app_hash,
                },
            ),
        )
    }

    /// Answers `Query`: the application reads the store as it was last flushed.
    pub fn query(&self, req: &RequestQuery) -> (r: Res)
        ensures
            exists|outcome: Result<ResponseQuery, Error>|
                #[trigger] call_ensures(A::query, (&self.app(), &self.store(), req), outcome)
                    && self.queried(outcome, r),
    {
        let outcome = self.app.query(&self.store, req);
        let r = Res::Query(query_reply(outcome, self.height));
        assert(self.queried(outcome, r));
        r
    }

    /// Moves the consensus overlay out of the machine and leaves an empty one.
    fn take_consensus(&mut self) -> (map: BufStoreMap)
        ensures
            bufstore::pending(map@) == (*old(self)).consensus(),
            (*old(self)).same_setup(*final(self)),
            (*old(self)).same_block(*final(self)),
            (*final(self)).store() == (*old(self)).store(),
            (*final(self)).mempool() == (*old(self)).mempool(),
    {
        let mut map: BufStoreMap = OrderedMap::new();
        std::mem::swap(&mut map, &mut self.consensus_state);
        map
    }

    /// Moves the mempool overlay out of the machine and leaves an empty one.
    fn take_mempool(&mut self) -> (map: BufStoreMap)
        ensures
            bufstore::pending(map@) == (*old(self)).mempool(),
            (*old(self)).same_setup(*final(self)),
            (*old(self)).same_block(*final(self)),
            (*final(self)).store() == (*old(self)).store(),
            (*final(self)).consensus() == (*old(self)).consensus(),
    {
        let mut map: BufStoreMap = OrderedMap::new();
        std::mem::swap(&mut map, &mut self.mempool_state);
        map
    }

    /// Joins the writes `writes` to `overlay`, flushes the whole into the store, and
    /// leaves the consensus overlay empty.
    fn flush_block(&mut self, overlay: BufStoreMap, writes: &BufStoreMap) -> (r: Result<(), Error>)
        ensures
            (*old(self)).store().reliable() ==> r is Ok,
            r is Ok ==> {
                &&& (*old(self)).same_setup(*final(self))
                &&& (*old(self)).same_block(*final(self))
                &&& (*final(self)).mempool() == (*old(self)).mempool()
                &&& (*final(self)).consensus() == Map::<Seq<u8>, Option<Seq<u8>>>::empty()
                &&& (*old(self)).flushed(
                    bufstore::merged(bufstore::pending(overlay@), bufstore::pending(writes@)),
                    *final(self),
                )
            },
    {
        let mut overlay = overlay;
        bufstore::merge_writes(&mut overlay, writes);
        let r = bufstore::flush_map(&overlay, &mut self.store);
        self.consensus_state = OrderedMap::new();
        assert(self.consensus() =~= Map::<Seq<u8>, Option<Seq<u8>>>::empty());
        r
    }

    /// Finishes `InitChain` with what the application answered and the writes that it
    /// left. Where `InitChain` is skipped, neither counts.
    pub fn settle_init_chain(
        &mut self,
        outcome: Result<ResponseInitChain, Error>,
        writes: BufStoreMap,
    ) -> (r: Result<Res, Error>)
        ensures
            (*old(self)).initialized(outcome, bufstore::pending(writes@), *final(self), r),
    {
        if self.skip_init_chain {
            return Ok(Res::InitChain(ResponseInitChain::default()));
        }
        match outcome {
            Ok(res) => {
                let overlay = self.take_consensus();
                match self.flush_block(overlay, &writes) {
                    Ok(()) => Ok(Res::InitChain(res)),
                    Err(e) => Err(e),
                }
            },
            Err(e) => Err(e),
        }
    }

    /// Answers `InitChain`.
    pub fn init_chain(&mut self, req: RequestInitChain) -> (r: Result<Res, Error>)
        ensures
            (*old(self)).skips_init_chain() ==> (*old(self)).init_chain_skipped(*final(self), r),
            !(*old(self)).skips_init_chain() ==> exists|inner: &mut BufStore<&BufStore<&S>>, outcome: Result<ResponseInitChain, Error>|
                    #![trigger call_ensures(
                        A::init_chain,
                        (&(*old(self)).app(), inner, &req),
                        outcome,
                    )]
                    (*old(self)).block_buffer(mut_ref_current(inner)) && call_ensures(
                        A::init_chain,
                        (&(*old(self)).app(), inner, &req),
                        outcome,
                    ) && (*old(self)).initialized(
                    outcome,
                    mut_ref_future(inner).writes(),
                    *final(self),
                    r,
                ),
    {
        if self.skip_init_chain {
            let r = self.settle_init_chain(Ok(ResponseInitChain::default()), OrderedMap::new());
            return r;
        }
        let overlay = self.take_consensus();
        let outer = BufStore::wrap_with_map(&self.store, overlay);
        let mut inner = BufStore::wrap(&outer);
        let outcome = self.app.init_chain(&mut inner, &req);
        let writes = inner.into_map();
        self.consensus_state = outer.into_map();
        let r = self.settle_init_chain(outcome, writes);
        assert((*old(self)).initialized(outcome, bufstore::pending(writes@), *self, r));
        r
    }

    /// Finishes `BeginBlock` with what the application answered and the writes that it
    /// left: the block's header is kept, and the writes join the consensus overlay where
    /// the application succeeded.
    pub fn settle_begin_block(
        &mut self,
        header: Option<Header>,
        outcome: Result<ResponseBeginBlock, Error>,
        writes: BufStoreMap,
    ) -> (r: Result<Res, Error>)
        ensures
            (*old(self)).same_setup(*final(self)),
            (*final(self)).store() == (*old(self)).store(),
            (*final(self)).mempool() == (*old(self)).mempool(),
            (*final(self)).block_height() == (*old(self)).block_height(),
            (*final(self)).block_header() == header,
            match outcome {
                Ok(res) => {
                    &&& r == Ok::<Res, Error>(Res::BeginBlock(res))
                    &&& (*final(self)).consensus() == bufstore::merged(
                        (*old(self)).consensus(),
                        bufstore::pending(writes@),
                    )
                },
                Err(e) => r == Err::<Res, Error>(e) && (*final(self)).consensus() == (*old(
                    self,
                )).consensus(),
            },
    {
        self.header = header;
        match outcome {
            Ok(res) => {
                bufstore::merge_writes(&mut self.consensus_state, &writes);
                Ok(Res::BeginBlock(res))
            },
            Err(e) => Err(e),
        }
    }

    /// Answers `BeginBlock`.
    pub fn begin_block(&mut self, req: RequestBeginBlock) -> (r: Result<Res, Error>)
        ensures
            (*old(self)).refuses_block(req) ==> (*old(self)).block_refused(req, *final(self), r),
            !(*old(self)).refuses_block(req) ==> exists|inner: &mut BufStore<&BufStore<&S>>, outcome: Result<ResponseBeginBlock, Error>|
                    #![trigger call_ensures(
                        A::begin_block,
                        (&(*old(self)).app(), inner, &req),
                        outcome,
                    )]
                    (*old(self)).block_buffer(mut_ref_current(inner)) && call_ensures(
                        A::begin_block,
                        (&(*old(self)).app(), inner, &req),
                        outcome,
                    ) && (*old(self)).began(
                    req,
                    outcome,
                    mut_ref_future(inner).writes(),
                    *final(self),
                    r,
                ),
    {
        match self.stop_height {
            Some(stop) => match &req.header {
                None => {
                    let e = Error::ABCI(String::from_str("Block header is missing"));
                    let ghost outcome = Err::<ResponseBeginBlock, Error>(e);
                    let r = Err(e);
                    assert((*old(self)).began(req, outcome, Map::empty(), *self, r));
                    return r;
                },
                Some(h) => {
                    if h.height >= 0 && h.height as u64 > stop {
                        let e = stop_error(stop);
                        let ghost outcome = Err::<ResponseBeginBlock, Error>(e);
                        let r = Err(e);
                        assert((*old(self)).began(req, outcome, Map::empty(), *self, r));
                        return r;
                    }
                },
            },
            None => {},
        }
        let overlay = self.take_consensus();
        let outer = BufStore::wrap_with_map(&self.store, overlay);
        let mut inner = BufStore::wrap(&outer);
        let outcome = self.app.begin_block(&mut inner, &req);
        let writes = inner.into_map();
        self.consensus_state = outer.into_map();
        let r = self.settle_begin_block(req.header, outcome, writes);
        assert((*old(self)).began(req, outcome, bufstore::pending(writes@), *self, r));
        r
    }

    /// Finishes `DeliverTx` with what the application answered and the writes that it
    /// left.
    pub fn settle_deliver_tx(
        &mut self,
        outcome: Result<ResponseDeliverTx, Error>,
        writes: BufStoreMap,
    ) -> (r: Result<Res, Error>)
        ensures
            (*old(self)).delivered(outcome, bufstore::pending(writes@), *final(self), r),
    {
        match outcome {
            Ok(res) => {
                let overlay = self.take_consensus();
                match self.flush_block(overlay, &writes) {
                    Ok(()) => Ok(Res::DeliverTx(res)),
                    Err(e) => Err(e),
                }
            },
            Err(e) => Ok(Res::DeliverTx(failed_deliver_tx(&e))),
        }
    }

    /// Answers `DeliverTx`.
    pub fn deliver_tx(&mut self, req: RequestDeliverTx) -> (r: Result<Res, Error>)
        ensures
            exists|inner: &mut BufStore<&BufStore<&S>>, outcome: Result<ResponseDeliverTx, Error>|
                #![trigger call_ensures(
                    A::deliver_tx,
                    (&(*old(self)).app(), inner, &req),
                    outcome,
                )]
                (*old(self)).block_buffer(mut_ref_current(inner)) && call_ensures(
                    A::deliver_tx,
                    (&(*old(self)).app(), inner, &req),
                    outcome,
                ) && (*old(self)).delivered(
                    outcome,
                    mut_ref_future(inner).writes(),
                    *final(self),
                    r,
                ),
    {
        let overlay = self.take_consensus();
        let outer = BufStore::wrap_with_map(&self.store, overlay);
        let mut inner = BufStore::wrap(&outer);
        let outcome = self.app.deliver_tx(&mut inner, &req);
        let writes = inner.into_map();
        self.consensus_state = outer.into_map();
        let r = self.settle_deliver_tx(outcome, writes);
        assert((*old(self)).delivered(outcome, bufstore::pending(writes@), *self, r));
        r
    }

    /// Finishes `EndBlock` with what the application answered and the writes that it
    /// left: the block's height is kept, and the writes join the consensus overlay where
    /// the application succeeded.
    pub fn settle_end_block(
        &mut self,
        req: &RequestEndBlock,
        outcome: Result<ResponseEndBlock, Error>,
        writes: BufStoreMap,
    ) -> (r: Result<Res, Error>)
        ensures
            (*old(self)).ended(*req, outcome, bufstore::pending(writes@), *final(self), r),
    {
        self.height = #[verifier::truncate]
        (req.height as u64);
        match outcome {
            Ok(res) => {
                bufstore::merge_writes(&mut self.consensus_state, &writes);
                Ok(Res::EndBlock(res))
            },
            Err(e) => Err(e),
        }
    }

    /// Answers `EndBlock`.
    pub fn end_block(&mut self, req: RequestEndBlock) -> (r: Result<Res, Error>)
        ensures
            exists|inner: &mut BufStore<&BufStore<&S>>, outcome: Result<ResponseEndBlock, Error>|
                #![trigger call_ensures(
                    A::end_block,
                    (&(*old(self)).app(), inner, &req),
                    outcome,
                )]
                (*old(self)).block_buffer(mut_ref_current(inner)) && call_ensures(
                    A::end_block,
                    (&(*old(self)).app(), inner, &req),
                    outcome,
                ) && (*old(self)).ended(
                req,
                outcome,
                mut_ref_future(inner).writes(),
                *final(self),
                r,
            ),
    {
        let overlay = self.take_consensus();
        let outer = BufStore::wrap_with_map(&self.store, overlay);
        let mut inner = BufStore::wrap(&outer);
        let outcome = self.app.end_block(&mut inner, &req);
        let writes = inner.into_map();
        self.consensus_state = outer.into_map();
        let r = self.settle_end_block(&req, outcome, writes);
        assert((*old(self)).ended(req, outcome, bufstore::pending(writes@), *self, r));
        r
    }

    /// Answers `Commit`.
    pub fn commit(&mut self) -> (r: Result<Res, Error>)
        ensures
            (*old(self)).committed(*final(self), r),
    {
        if self.header.is_none() {
            return Err(Error::ABCI(String::from_str("Commit without a block header")));
        }
        let overlay = self.take_consensus();
        let nothing: BufStoreMap = OrderedMap::new();
        proof {
            assert(bufstore::merged(bufstore::pending(overlay@), bufstore::pending(nothing@))
                =~= bufstore::pending(overlay@));
        }
        match self.flush_block(overlay, &nothing) {
            Ok(()) => {},
            Err(e) => {
                return Err(e);
            },
        }
        let committed = match &self.header {
            Some(header) => self.store.commit(header),
            None => Ok(()),
        };
        match committed {
            Ok(()) => {},
            Err(e) => {
                return Err(e);
            },
        }
        self.mempool_state = OrderedMap::new();
        assert(self.mempool() =~= Map::<Seq<u8>, Option<Seq<u8>>>::empty());
        let mut res_commit = ResponseCommit::default();
        match self.store.root_hash() {
            Ok(hash) => {
                res_commit.data = hash;
            },
            Err(e) => {
                return Err(e);
            },
        }
        Ok(Res::Commit(res_commit))
    }

    /// Finishes `CheckTx` with what the application answered and the writes that it left.
    pub fn settle_check_tx(
        &mut self,
        outcome: Result<ResponseCheckTx, Error>,
        writes: BufStoreMap,
    ) -> (r: Result<Res, Error>)
        ensures
            (*old(self)).checked(outcome, bufstore::pending(writes@), *final(self), r),
    {
        match outcome {
            Ok(res) => {
                bufstore::merge_writes(&mut self.mempool_state, &writes);
                Ok(Res::CheckTx(res))
            },
            Err(e) => Ok(Res::CheckTx(failed_check_tx(&e))),
        }
    }

    /// Answers `CheckTx`.
    pub fn check_tx(&mut self, req: RequestCheckTx) -> (r: Result<Res, Error>)
        ensures
            exists|inner: &mut BufStore<&BufStore<&S>>, outcome: Result<ResponseCheckTx, Error>|
                #![trigger call_ensures(
                    A::check_tx,
                    (&(*old(self)).app(), inner, &req),
                    outcome,
                )]
                (*old(self)).check_buffer(mut_ref_current(inner)) && call_ensures(
                    A::check_tx,
                    (&(*old(self)).app(), inner, &req),
                    outcome,
                ) && (*old(self)).checked(
                outcome,
                mut_ref_future(inner).writes(),
                *final(self),
                r,
            ),
    {
        let overlay = self.take_mempool();
        let outer = BufStore::wrap_with_map(&self.store, overlay);
        let mut inner = BufStore::wrap(&outer);
        let outcome = self.app.check_tx(&mut inner, &req);
        let writes = inner.into_map();
        self.mempool_state = outer.into_map();
        let r = self.settle_check_tx(outcome, writes);
        assert((*old(self)).checked(outcome, bufstore::pending(writes@), *self, r));
        r
    }

    /// Answers `ListSnapshots`.
    pub fn list_snapshots(&self) -> (r: Result<Res, Error>)
        ensures
            exists|outcome: Result<Vec<Snapshot>, Error>|
                #[trigger] call_ensures(S::list_snapshots, (&self.store(),), outcome)
                    && Self::listed(outcome, r),
    {
        let outcome = self.store.list_snapshots();
        assert(call_ensures(S::list_snapshots, (&self.store(),), outcome));
        let r = match outcome {
            Ok(snapshots) => Ok(Res::ListSnapshots(ResponseListSnapshots { snapshots })),
            Err(e) => Err(e),
        };
        assert(Self::listed(outcome, r));
        r
    }

    /// Answers `OfferSnapshot`.
    pub fn offer_snapshot(&mut self, req: RequestOfferSnapshot) -> (r: Result<Res, Error>)
        ensures
            (*old(self)).store_served(*final(self)),
            exists|store: &mut S, outcome: Result<ResponseOfferSnapshot, Error>|
                #![trigger call_ensures(S::offer_snapshot, (store, req), outcome)]
                mut_ref_current(store) == (*old(self)).store()
                    && mut_ref_future(store) == (*final(self)).store()
                    && call_ensures(S::offer_snapshot, (store, req), outcome)
                    && Self::offered(outcome, r),
    {
        let outcome = self.store.offer_snapshot(req);
        let r = match outcome {
            Ok(res) => Ok(Res::OfferSnapshot(res)),
            Err(e) => Err(e),
        };
        assert(Self::offered(outcome, r));
        r
    }

    /// Answers `LoadSnapshotChunk`.
    pub fn load_snapshot_chunk(&self, req: RequestLoadSnapshotChunk) -> (r: Result<Res, Error>)
        ensures
            exists|outcome: Result<Vec<u8>, Error>|
                #[trigger] call_ensures(S::load_snapshot_chunk, (&self.store(), req), outcome)
                    && Self::loaded(outcome, r),
    {
        let outcome = self.store.load_snapshot_chunk(req);
        let r = match outcome {
            Ok(chunk) => Ok(Res::LoadSnapshotChunk(ResponseLoadSnapshotChunk { chunk })),
            Err(e) => Err(e),
        };
        assert(Self::loaded(outcome, r));
        r
    }

    /// Answers `ApplySnapshotChunk`.
    pub fn apply_snapshot_chunk(&mut self, req: RequestApplySnapshotChunk) -> (r: Result<
        Res,
        Error,
    >)
        ensures
            (*old(self)).chunk_applied(req, *final(self), r),
            exists|store: &mut S, outcome: Result<(), Error>|
                #![trigger call_ensures(S::apply_snapshot_chunk, (store, req), outcome)]
                mut_ref_current(store) == (*old(self)).store()
                    && mut_ref_future(store) == (*final(self)).store()
                    && call_ensures(S::apply_snapshot_chunk, (store, req), outcome)
                    && Self::chunk_answered(req, outcome, r),
    {
        let index = req.index;
        let sender = req.sender.clone();
        let outcome = self.store.apply_snapshot_chunk(req);
        Ok(Res::ApplySnapshotChunk(chunk_reply(outcome, index, sender)))
    }

    /// Handles one request of the consensus engine: changes the state as the request
    /// asks and returns the one reply to it, or the error that ends the machine's work.
    ///
    /// A request that goes to a handler of the application is answered with what the
    /// handler has returned for it: the handler is handed the request and a buffer of its
    /// own over the overlay of its kind, and the writes that count are those that it has
    /// left in its buffer. A snapshot that is offered or applied is answered with what
    /// the store has returned, and the store is as that call has left it.
    pub fn run(&mut self, req: Request) -> (r: Result<Res, Error>)
        ensures
            (*old(self)).handled(req, *final(self), r),
            r is Ok ==> req.value is Some && r.unwrap().answers(req.value.unwrap()),
            match req.value {
                Some(Req::InitChain(i)) => (*old(self)).skips_init_chain() || exists|
                    inner: &mut BufStore<&BufStore<&S>>,
                    outcome: Result<ResponseInitChain, Error>,
                |
                    #![trigger call_ensures(
                        A::init_chain,
                        (&(*old(self)).app(), inner, &i),
                        outcome,
                    )]
                    (*old(self)).block_buffer(mut_ref_current(inner)) && call_ensures(
                        A::init_chain,
                        (&(*old(self)).app(), inner, &i),
                        outcome,
                    ) && (*old(self)).initialized(
                        outcome,
                        mut_ref_future(inner).writes(),
                        *final(self),
                        r,
                    ),
                Some(Req::BeginBlock(b)) => (*old(self)).refuses_block(b) || exists|
                    inner: &mut BufStore<&BufStore<&S>>,
                    outcome: Result<ResponseBeginBlock, Error>,
                |
                    #![trigger call_ensures(
                        A::begin_block,
                        (&(*old(self)).app(), inner, &b),
                        outcome,
                    )]
                    (*old(self)).block_buffer(mut_ref_current(inner)) && call_ensures(
                        A::begin_block,
                        (&(*old(self)).app(), inner, &b),
                        outcome,
                    ) && (*old(self)).began(
                        b,
                        outcome,
                        mut_ref_future(inner).writes(),
                        *final(self),
                        r,
                    ),
                Some(Req::DeliverTx(d)) => exists|
                    inner: &mut BufStore<&BufStore<&S>>,
                    outcome: Result<ResponseDeliverTx, Error>,
                |
                    #![trigger call_ensures(
                        A::deliver_tx,
                        (&(*old(self)).app(), inner, &d),
                        outcome,
                    )]
                    (*old(self)).block_buffer(mut_ref_current(inner)) && call_ensures(
                        A::deliver_tx,
                        (&(*old(self)).app(), inner, &d),
                        outcome,
                    ) && (*old(self)).delivered(
                        outcome,
                        mut_ref_future(inner).writes(),
                        *final(self),
                        r,
                    ),
                Some(Req::EndBlock(e)) => exists|
                    inner: &mut BufStore<&BufStore<&S>>,
                    outcome: Result<ResponseEndBlock, Error>,
                |
                    #![trigger call_ensures(
                        A::end_block,
                        (&(*old(self)).app(), inner, &e),
                        outcome,
                    )]
                    (*old(self)).block_buffer(mut_ref_current(inner)) && call_ensures(
                        A::end_block,
                        (&(*old(self)).app(), inner, &e),
                        outcome,
                    ) && (*old(self)).ended(
                        e,
                        outcome,
                        mut_ref_future(inner).writes(),
                        *final(self),
                        r,
                    ),
                Some(Req::CheckTx(c)) => exists|
                    inner: &mut BufStore<&BufStore<&S>>,
                    outcome: Result<ResponseCheckTx, Error>,
                |
                    #![trigger call_ensures(
                        A::check_tx,
                        (&(*old(self)).app(), inner, &c),
                        outcome,
                    )]
                    (*old(self)).check_buffer(mut_ref_current(inner)) && call_ensures(
                        A::check_tx,
                        (&(*old(self)).app(), inner, &c),
                        outcome,
                    ) && (*old(self)).checked(
                        outcome,
                        mut_ref_future(inner).writes(),
                        *final(self),
                        r,
                    ),
                Some(Req::OfferSnapshot(o)) => exists|
                    store: &mut S,
                    outcome: Result<ResponseOfferSnapshot, Error>,
                |
                    #![trigger call_ensures(S::offer_snapshot, (store, o), outcome)]
                    mut_ref_current(store) == (*old(self)).store()
                        && mut_ref_future(store) == (*final(self)).store()
                        && call_ensures(S::offer_snapshot, (store, o), outcome)
                        && Self::offered(outcome, r),
                Some(Req::ApplySnapshotChunk(a)) => exists|
                    store: &mut S,
                    outcome: Result<(), Error>,
                |
                    #![trigger call_ensures(S::apply_snapshot_chunk, (store, a), outcome)]
                    mut_ref_current(store) == (*old(self)).store()
                        && mut_ref_future(store) == (*final(self)).store()
                        && call_ensures(S::apply_snapshot_chunk, (store, a), outcome)
                        && Self::chunk_answered(a, outcome, r),
                _ => true,
            },
    {
        let value = match req.value {
            None => {
                return Err(Error::ABCI(String::from_str("Received empty request")));
            },
            Some(value) => value,
        };
        match value {
            Req::Info(_) => self.info(),
            Req::Flush => Ok(Res::Flush),
            Req::Echo(_) => Ok(Res::Echo(ResponseEcho::default())),
            Req::SetOption(_) => Ok(Res::SetOption(ResponseSetOption::default())),
            Req::Query(q) => Ok(self.query(&q)),
            Req::InitChain(i) => {
                let r = self.init_chain(i);
                proof {
                    let whatever: Result<ResponseInitChain, Error> = arbitrary();
                    if (*old(self)).skips_init_chain() {
                        assert((*old(self)).initialized(whatever, Map::empty(), *self, r));
                    }
                }
                r
            },
            Req::BeginBlock(b) => {
                let r = self.begin_block(b);
                proof {
                    let whatever: Result<ResponseBeginBlock, Error> = arbitrary();
                    if (*old(self)).refuses_block(b) {
                        assert((*old(self)).began(b, whatever, Map::empty(), *self, r));
                    }
                }
                r
            },
            Req::DeliverTx(d) => self.deliver_tx(d),
            Req::EndBlock(e) => self.end_block(e),
            Req::Commit => self.commit(),
            Req::CheckTx(c) => self.check_tx(c),
            Req::ListSnapshots => self.list_snapshots(),
            Req::OfferSnapshot(o) => self.offer_snapshot(o),
            Req::LoadSnapshotChunk(l) => self.load_snapshot_chunk(l),
            Req::ApplySnapshotChunk(a) => self.apply_snapshot_chunk(a),
        }
    }
}

} // verus!
