use orga::abci::messages::{
    Header, Req, Request, RequestApplySnapshotChunk, RequestBeginBlock, RequestCheckTx,
    RequestDeliverTx, RequestEcho, RequestEndBlock, RequestInfo, RequestInitChain,
    RequestLoadSnapshotChunk, RequestOfferSnapshot, RequestQuery, RequestSetOption, Res,
    ResponseBeginBlock, ResponseCheckTx, ResponseDeliverTx, ResponseEcho, ResponseEndBlock,
    ResponseInitChain, ResponseListSnapshots, ResponseOfferSnapshot, ResponseQuery,
    ResponseSetOption,
};
use orga::abci::{ABCIStateMachine, ABCIStore, Application, MemStore};
use orga::error::Error;
use orga::store::{BufStore, Read, Write};

/// An application that keeps one counter per name. A transaction is a name followed by
/// the byte to add; it fails where the sum would pass 255.
struct Counters;

fn bump<W: Write>(store: &mut W, tx: &[u8]) -> Result<(), Error> {
    let (name, step) = match tx.split_last() {
        Some((step, name)) => (name, *step),
        None => return Err(Error::Call("Empty transaction".to_string())),
    };
    let current = match store.get(name)? {
        Some(bytes) => bytes[0],
        None => 0,
    };
    // The write comes before the test, so that a failed transaction leaves a write behind.
    store.put(name.to_vec(), vec![current.wrapping_add(step)])?;
    match current.checked_add(step) {
        Some(_) => Ok(()),
        None => Err(Error::Call("Counter overflow".to_string())),
    }
}

impl<S: Read> Application<S> for Counters {
    fn deliver_tx(
        &self,
        store: &mut BufStore<&BufStore<&S>>,
        req: &RequestDeliverTx,
    ) -> Result<ResponseDeliverTx, Error> {
        bump(store, &req.tx)?;
        Ok(ResponseDeliverTx::default())
    }

    fn check_tx(
        &self,
        store: &mut BufStore<&BufStore<&S>>,
        req: &RequestCheckTx,
    ) -> Result<ResponseCheckTx, Error> {
        bump(store, &req.tx)?;
        Ok(ResponseCheckTx::default())
    }

    fn query(&self, store: &S, req: &RequestQuery) -> Result<ResponseQuery, Error> {
        let mut res = ResponseQuery::default();
        match store.get(&req.data)? {
            Some(bytes) => res.value = bytes,
            None => return Err(Error::Query("No such counter".to_string())),
        }
        Ok(res)
    }
}

fn header(height: i64) -> Header {
    Header {
        version: None,
        last_block_id: None,
        chain_id: "test".to_string(),
        height,
        time: None,
        last_commit_hash: vec![],
        data_hash: vec![],
        validators_hash: vec![],
        next_validators_hash: vec![],
        consensus_hash: vec![],
        app_hash: vec![],
        last_results_hash: vec![],
        evidence_hash: vec![],
        proposer_address: vec![],
    }
}

fn request(value: Req) -> Request {
    Request { value: Some(value) }
}

fn info() -> Request {
    request(Req::Info(RequestInfo { version: String::new(), block_version: 0, p2p_version: 0 }))
}

fn begin_block(height: i64) -> Request {
    request(Req::BeginBlock(RequestBeginBlock {
        hash: vec![],
        header: Some(header(height)),
        last_commit_info: None,
        byzantine_validators: vec![],
    }))
}

fn deliver(tx: &[u8]) -> Request {
    request(Req::DeliverTx(RequestDeliverTx { tx: tx.to_vec() }))
}

fn check(tx: &[u8]) -> Request {
    request(Req::CheckTx(RequestCheckTx { tx: tx.to_vec(), type_: 0 }))
}

fn query(key: &[u8]) -> Request {
    request(Req::Query(RequestQuery { data: key.to_vec(), path: String::new(), height: 0, prove: false }))
}

fn machine(stop_height: Option<u64>) -> ABCIStateMachine<Counters, MemStore> {
    ABCIStateMachine::new(Counters, MemStore::new(), false, stop_height)
}

fn query_value(m: &mut ABCIStateMachine<Counters, MemStore>, key: &[u8]) -> ResponseQuery {
    match m.run(query(key)).unwrap() {
        Res::Query(res) => res,
        other => panic!("unexpected reply {:?}", other),
    }
}

#[test]
fn fresh_chain_reports_height_zero_and_no_hash() {
    let mut m = machine(None);
    match m.run(info()).unwrap() {
        Res::Info(res) => {
            assert_eq!(res.last_block_height, 0);
            assert_eq!(res.last_block_app_hash, Vec::<u8>::new());
            assert_eq!(res.data, "Rust ABCI State Machine");
            assert_eq!(res.version, "X");
            assert_eq!(res.app_version, 0);
        }
        other => panic!("unexpected reply {:?}", other),
    }
}

#[test]
fn a_block_is_committed_at_its_height() {
    let mut m = machine(None);
    let init = RequestInitChain {
        time: None,
        chain_id: "test".to_string(),
        consensus_params: None,
        validators: vec![],
        app_state_bytes: vec![],
        initial_height: 1,
    };
    assert!(matches!(m.run(request(Req::InitChain(init))).unwrap(), Res::InitChain(_)));
    assert!(matches!(m.run(begin_block(1)).unwrap(), Res::BeginBlock(_)));
    match m.run(deliver(&[b'a', 100])).unwrap() {
        Res::DeliverTx(res) => assert_eq!(res.code, 0),
        other => panic!("unexpected reply {:?}", other),
    }
    assert!(matches!(
        m.run(request(Req::EndBlock(RequestEndBlock { height: 1 }))).unwrap(),
        Res::EndBlock(_)
    ));
    assert_eq!(m.height(), 1);
    match m.run(request(Req::Commit)).unwrap() {
        Res::Commit(res) => assert_eq!(res.data, m.store_ref().root_hash().unwrap()),
        other => panic!("unexpected reply {:?}", other),
    }
    assert_eq!(m.store_ref().height().unwrap(), 1);
    assert_eq!(m.store_ref().get(b"a").unwrap(), Some(vec![100]));
    match m.run(info()).unwrap() {
        Res::Info(res) => assert_eq!(res.last_block_height, 1),
        other => panic!("unexpected reply {:?}", other),
    }
}

#[test]
fn a_failed_transaction_is_rolled_back() {
    let mut m = machine(None);
    m.run(begin_block(1)).unwrap();
    m.run(deliver(&[b'a', 10])).unwrap();
    match m.run(deliver(&[b'a', 250])).unwrap() {
        Res::DeliverTx(res) => {
            assert_eq!(res.code, 1);
            assert_eq!(res.log, "Call Error: Counter overflow");
        }
        other => panic!("unexpected reply {:?}", other),
    }
    assert_eq!(query_value(&mut m, b"a").value, vec![10]);
    let missing = query_value(&mut m, b"b");
    assert_eq!(missing.code, 1);
    assert_eq!(missing.log, "Query Error: No such counter");
    assert_eq!(missing.info, "Query Error: No such counter");
    assert_eq!(missing.value, Vec::<u8>::new());
    // The block goes on.
    match m.run(deliver(&[b'a', 5])).unwrap() {
        Res::DeliverTx(res) => assert_eq!(res.code, 0),
        other => panic!("unexpected reply {:?}", other),
    }
    assert_eq!(query_value(&mut m, b"a").value, vec![15]);
}

#[test]
fn a_check_does_not_touch_the_state() {
    let mut m = machine(None);
    m.run(begin_block(1)).unwrap();
    m.run(deliver(&[b'a', 10])).unwrap();
    m.run(request(Req::EndBlock(RequestEndBlock { height: 1 }))).unwrap();
    m.run(request(Req::Commit)).unwrap();
    match m.run(check(&[b'a', 7])).unwrap() {
        Res::CheckTx(res) => assert_eq!(res.code, 0),
        other => panic!("unexpected reply {:?}", other),
    }
    assert_eq!(query_value(&mut m, b"a").value, vec![10]);
    // A second check sees the first one: 10 + 7 + 240 does not fit.
    match m.run(check(&[b'a', 240])).unwrap() {
        Res::CheckTx(res) => {
            assert_eq!(res.code, 1);
            assert_eq!(res.log, "Call Error: Counter overflow");
        }
        other => panic!("unexpected reply {:?}", other),
    }
    // A delivery does not see the checks: 10 + 240 fits.
    m.run(begin_block(2)).unwrap();
    match m.run(deliver(&[b'a', 240])).unwrap() {
        Res::DeliverTx(res) => assert_eq!(res.code, 0),
        other => panic!("unexpected reply {:?}", other),
    }
    assert_eq!(query_value(&mut m, b"a").value, vec![250]);
}

#[test]
fn begin_block_beyond_the_stop_height_fails() {
    let mut m = machine(Some(5));
    assert!(m.run(begin_block(5)).is_ok());
    assert_eq!(
        m.run(begin_block(6)),
        Err(Error::ABCI("Reached stop height (5)".to_string()))
    );
}

#[test]
fn state_sync_retry() {
    let mut m = machine(None);
    let req = RequestApplySnapshotChunk { index: 2, chunk: vec![1, 2, 3], sender: "P".to_string() };
    match m.run(request(Req::ApplySnapshotChunk(req))).unwrap() {
        Res::ApplySnapshotChunk(res) => {
            assert_eq!(res.result, 3);
            assert_eq!(res.refetch_chunks, vec![2]);
            assert_eq!(res.reject_senders, vec!["P".to_string()]);
        }
        other => panic!("unexpected reply {:?}", other),
    }
    assert_eq!(m.store_ref().height().unwrap(), 0);
    assert_eq!(m.store_ref().get_next(&[]).unwrap(), None);
}

#[test]
fn an_empty_request_is_refused() {
    let mut m = machine(None);
    assert_eq!(
        m.run(Request { value: None }),
        Err(Error::ABCI("Received empty request".to_string()))
    );
}

#[test]
fn commit_without_a_block_is_refused() {
    let mut m = machine(None);
    assert_eq!(
        m.run(request(Req::Commit)),
        Err(Error::ABCI("Commit without a block header".to_string()))
    );
}

/// An application that overrides nothing.
struct Idle;

impl<S: Read> Application<S> for Idle {}

#[test]
fn requests_without_a_handler_get_empty_replies() {
    let mut m = ABCIStateMachine::new(Idle, MemStore::new(), false, None);
    assert_eq!(m.run(request(Req::Flush)), Ok(Res::Flush));
    // The reply to an echo is empty, whatever was sent.
    assert_eq!(
        m.run(request(Req::Echo(RequestEcho { message: "hello".to_string() }))),
        Ok(Res::Echo(ResponseEcho::default()))
    );
    assert_eq!(
        m.run(request(Req::SetOption(RequestSetOption {
            key: "k".to_string(),
            value: "v".to_string()
        }))),
        Ok(Res::SetOption(ResponseSetOption::default()))
    );
    let init = RequestInitChain {
        time: None,
        chain_id: "test".to_string(),
        consensus_params: None,
        validators: vec![],
        app_state_bytes: vec![],
        initial_height: 1,
    };
    assert_eq!(
        m.run(request(Req::InitChain(init))),
        Ok(Res::InitChain(ResponseInitChain::default()))
    );
    assert_eq!(m.run(begin_block(1)), Ok(Res::BeginBlock(ResponseBeginBlock::default())));
    assert_eq!(m.run(deliver(&[1])), Ok(Res::DeliverTx(ResponseDeliverTx::default())));
    assert_eq!(m.run(check(&[1])), Ok(Res::CheckTx(ResponseCheckTx::default())));
    assert_eq!(
        m.run(request(Req::EndBlock(RequestEndBlock { height: 1 }))),
        Ok(Res::EndBlock(ResponseEndBlock::default()))
    );
    assert_eq!(m.run(query(&[1])), Ok(Res::Query(ResponseQuery::default())));
    assert_eq!(
        m.run(request(Req::ListSnapshots)),
        Ok(Res::ListSnapshots(ResponseListSnapshots { snapshots: vec![] }))
    );
    assert_eq!(
        m.run(request(Req::OfferSnapshot(RequestOfferSnapshot {
            snapshot: None,
            app_hash: vec![]
        }))),
        Ok(Res::OfferSnapshot(ResponseOfferSnapshot::default()))
    );
    // The store in memory keeps no snapshots: loading a chunk is an error of the store.
    assert!(matches!(
        m.run(request(Req::LoadSnapshotChunk(RequestLoadSnapshotChunk {
            height: 1,
            format: 0,
            chunk: 0
        }))),
        Err(Error::Store(_))
    ));
}

/// An application that fails at every turn of the chain.
struct Broken;

impl<S: Read> Application<S> for Broken {
    fn init_chain(
        &self,
        store: &mut BufStore<&BufStore<&S>>,
        _req: &RequestInitChain,
    ) -> Result<ResponseInitChain, Error> {
        store.put(vec![1], vec![1])?;
        Err(Error::App("init".to_string()))
    }

    fn begin_block(
        &self,
        store: &mut BufStore<&BufStore<&S>>,
        _req: &RequestBeginBlock,
    ) -> Result<ResponseBeginBlock, Error> {
        store.put(vec![2], vec![2])?;
        Err(Error::App("begin".to_string()))
    }

    fn end_block(
        &self,
        store: &mut BufStore<&BufStore<&S>>,
        _req: &RequestEndBlock,
    ) -> Result<ResponseEndBlock, Error> {
        store.put(vec![3], vec![3])?;
        Err(Error::App("end".to_string()))
    }
}

#[test]
fn an_error_at_a_turn_of_the_chain_is_the_error_of_the_machine() {
    let init = || RequestInitChain {
        time: None,
        chain_id: "test".to_string(),
        consensus_params: None,
        validators: vec![],
        app_state_bytes: vec![],
        initial_height: 1,
    };
    let mut m = ABCIStateMachine::new(Broken, MemStore::new(), false, None);
    assert_eq!(m.run(request(Req::InitChain(init()))), Err(Error::App("init".to_string())));
    assert_eq!(m.run(begin_block(3)), Err(Error::App("begin".to_string())));
    assert_eq!(
        m.run(request(Req::EndBlock(RequestEndBlock { height: 7 }))),
        Err(Error::App("end".to_string()))
    );
    // The header and the height were kept; nothing that the handlers wrote was.
    assert_eq!(m.height(), 7);
    assert!(matches!(m.run(request(Req::Commit)), Ok(Res::Commit(_))));
    assert_eq!(m.store_ref().height().unwrap(), 3);
    assert_eq!(m.store_ref().get_next(&[]).unwrap(), None);

    // Where the start of the chain is skipped, the application is not asked.
    let mut m = ABCIStateMachine::new(Broken, MemStore::new(), true, None);
    assert!(matches!(m.run(request(Req::InitChain(init()))), Ok(Res::InitChain(_))));
}

#[test]
fn writes_of_a_block_reach_the_store_with_each_transaction() {
    let mut m = machine(None);
    m.run(begin_block(1)).unwrap();
    m.run(deliver(&[b'a', 1])).unwrap();
    // The store has the write before the block is committed, at the old height.
    assert_eq!(m.store_ref().get(b"a").unwrap(), Some(vec![1]));
    assert_eq!(m.store_ref().height().unwrap(), 0);
    m.run(check(&[b'b', 1])).unwrap();
    assert_eq!(m.store_ref().get(b"b").unwrap(), None);
    m.run(request(Req::EndBlock(RequestEndBlock { height: 1 }))).unwrap();
    m.run(request(Req::Commit)).unwrap();
    // The writes of checks never reach the store.
    assert_eq!(m.store_ref().get(b"b").unwrap(), None);
    assert_eq!(m.store_ref().height().unwrap(), 1);
}

#[test]
fn a_query_changes_nothing() {
    let mut m = machine(None);
    m.run(begin_block(1)).unwrap();
    m.run(deliver(&[b'a', 1])).unwrap();
    m.run(request(Req::EndBlock(RequestEndBlock { height: 1 }))).unwrap();
    m.run(request(Req::Commit)).unwrap();
    let root = m.store_ref().root_hash().unwrap();
    let height = m.store_ref().height().unwrap();
    assert_eq!(query_value(&mut m, b"a").value, vec![1]);
    assert_eq!(query_value(&mut m, b"zz").code, 1);
    assert_eq!(m.store_ref().root_hash().unwrap(), root);
    assert_eq!(m.store_ref().height().unwrap(), height);
    assert_eq!(m.store_ref().get_next(&[]).unwrap(), Some((b"a".to_vec(), vec![1])));
    assert_eq!(m.store_ref().get_next(b"a").unwrap(), None);
    assert_eq!(m.height(), 1);
}
