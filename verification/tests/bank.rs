use orga::abci::executor::{Action, Event};
use orga::abci::messages::{
    Header, Req, Request, RequestBeginBlock, RequestCheckTx, RequestDeliverTx, RequestEndBlock,
    RequestInfo, RequestInitChain, RequestQuery, Res, ResponseCheckTx, ResponseDeliverTx,
    ResponseInitChain, ResponseQuery,
};
use orga::abci::{ABCIStateMachine, ABCIStore, Application, MemStore};
use orga::coins::{Accounts, Address, Amount, Coin, Symbol};
use orga::error::Error;
use orga::call::Call;
use orga::plugins::{NonceCall, NoncePlugin, Paid, Signer};
use orga::store::{BufStore, MapStore, Read, Store, Write};

/// The coin of the tests.
#[derive(Debug)]
struct Nom;

impl Symbol for Nom {
    const INDEX: u8 = 123;
}

/// Another coin.
#[derive(Debug)]
struct Other;

impl Symbol for Other {
    const INDEX: u8 = 7;
}

fn address(fill: u8) -> Address {
    Address { bytes: [fill; 20] }
}

fn signed_by(fill: u8) -> Signer {
    Signer { signer: Some(address(fill)) }
}

fn coins(value: u64) -> Coin<Nom> {
    Coin::mint(Amount::new(value))
}

/// A bank: accounts under the prefix `a`, the record of calls under the prefix `n`.
///
/// A transaction is the sender (20 bytes), its nonce (8 bytes), the receiver (20 bytes)
/// and the amount (8 bytes). The state at the start of the chain is a list of addresses
/// (20 bytes), each with its balance (8 bytes).
struct Bank;

fn apply<W: Write>(store: &mut W, tx: &[u8]) -> Result<(), Error> {
    if tx.len() != 56 {
        return Err(Error::Call("Malformed transaction".to_string()));
    }
    let mut from = [0u8; 20];
    from.copy_from_slice(&tx[0..20]);
    let nonce = u64::from_be_bytes(tx[20..28].try_into().unwrap());
    let mut to = [0u8; 20];
    to.copy_from_slice(&tx[28..48]);
    let amount = u64::from_be_bytes(tx[48..56].try_into().unwrap());

    let signer = Signer { signer: Some(Address { bytes: from }) };
    let mut nonces = NoncePlugin::new(Store::new(&mut *store).sub(b"n"));
    nonces.admit_call(signer.signer, Some(nonce))?;
    let mut accounts: Accounts<Nom, _> = Accounts::new(Store::new(&mut *store).sub(b"a"));
    accounts.transfer(Some(&signer), Address { bytes: to }, Amount::new(amount))
}

impl<S: Read> Application<S> for Bank {
    fn init_chain(
        &self,
        store: &mut BufStore<&BufStore<&S>>,
        req: &RequestInitChain,
    ) -> Result<ResponseInitChain, Error> {
        let mut accounts: Accounts<Nom, _> = Accounts::new(Store::new(&mut *store).sub(b"a"));
        accounts.allow_transfers(true)?;
        for entry in req.app_state_bytes.chunks(28) {
            let mut bytes = [0u8; 20];
            bytes.copy_from_slice(&entry[0..20]);
            let value = u64::from_be_bytes(entry[20..28].try_into().unwrap());
            accounts.deposit(Address { bytes }, Coin::mint(Amount::new(value)))?;
        }
        Ok(ResponseInitChain::default())
    }

    fn deliver_tx(
        &self,
        store: &mut BufStore<&BufStore<&S>>,
        req: &RequestDeliverTx,
    ) -> Result<ResponseDeliverTx, Error> {
        apply(store, &req.tx)?;
        Ok(ResponseDeliverTx::default())
    }

    fn check_tx(
        &self,
        store: &mut BufStore<&BufStore<&S>>,
        req: &RequestCheckTx,
    ) -> Result<ResponseCheckTx, Error> {
        apply(store, &req.tx)?;
        Ok(ResponseCheckTx::default())
    }

    fn query(&self, store: &S, req: &RequestQuery) -> Result<ResponseQuery, Error> {
        let mut bytes = [0u8; 20];
        bytes.copy_from_slice(&req.data);
        let mut key = b"a".to_vec();
        key.push(2);
        key.extend_from_slice(&bytes);
        let mut res = ResponseQuery::default();
        res.value = store.get(&key)?.unwrap_or(vec![0; 8]);
        Ok(res)
    }
}

fn transfer(from: u8, nonce: u64, to: u8, amount: u64) -> Vec<u8> {
    let mut tx = vec![from; 20];
    tx.extend_from_slice(&nonce.to_be_bytes());
    tx.extend_from_slice(&[to; 20]);
    tx.extend_from_slice(&amount.to_be_bytes());
    tx
}

fn request(value: Req) -> Request {
    Request { value: Some(value) }
}

fn header(height: i64) -> Header {
    Header {
        version: None,
        last_block_id: None,
        chain_id: "foo".to_string(),
        height,
        time: None,
        last_commit_hash: vec![],
        data_hash: vec![],
        validators_hash: vec![],
        next_validators_hash: vec![],
        consensus_hash: vec![],
        app_hash: vec![],
        last_results_hash: vec![],
        evidence_hash: vec![],
        proposer_address: vec![],
    }
}

fn begin_block(height: i64) -> Request {
    request(Req::BeginBlock(RequestBeginBlock {
        hash: vec![],
        header: Some(header(height)),
        last_commit_info: None,
        byzantine_validators: vec![],
    }))
}

fn end_block(height: i64) -> Request {
    request(Req::EndBlock(RequestEndBlock { height }))
}

/// A machine over a chain that starts with the given balances.
fn chain(balances: &[(u8, u64)], stop_height: Option<u64>) -> ABCIStateMachine<Bank, MemStore> {
    let mut m = ABCIStateMachine::new(Bank, MemStore::new(), false, stop_height);
    let mut state = vec![];
    for (fill, value) in balances {
        state.extend_from_slice(&[*fill; 20]);
        state.extend_from_slice(&value.to_be_bytes());
    }
    let init = RequestInitChain {
        time: None,
        chain_id: "foo".to_string(),
        consensus_params: None,
        validators: vec![],
        app_state_bytes: state,
        initial_height: 1,
    };
    assert!(matches!(m.run(request(Req::InitChain(init))).unwrap(), Res::InitChain(_)));
    m
}

fn balance(m: &mut ABCIStateMachine<Bank, MemStore>, fill: u8) -> u64 {
    let query =
        RequestQuery { data: vec![fill; 20], path: String::new(), height: 0, prove: false };
    match m.run(request(Req::Query(query))).unwrap() {
        Res::Query(res) => u64::from_be_bytes(res.value.try_into().unwrap()),
        other => panic!("unexpected reply {:?}", other),
    }
}

fn deliver(m: &mut ABCIStateMachine<Bank, MemStore>, tx: Vec<u8>) -> ResponseDeliverTx {
    match m.run(request(Req::DeliverTx(RequestDeliverTx { tx }))).unwrap() {
        Res::DeliverTx(res) => res,
        other => panic!("unexpected reply {:?}", other),
    }
}

fn check(m: &mut ABCIStateMachine<Bank, MemStore>, tx: Vec<u8>) -> ResponseCheckTx {
    match m.run(request(Req::CheckTx(RequestCheckTx { tx, type_: 0 }))).unwrap() {
        Res::CheckTx(res) => res,
        other => panic!("unexpected reply {:?}", other),
    }
}

#[test]
fn fresh_chain() {
    let mut m = ABCIStateMachine::new(Bank, MemStore::new(), false, None);
    let info =
        || request(Req::Info(RequestInfo { version: String::new(), block_version: 0, p2p_version: 0 }));
    match m.run(info()).unwrap() {
        Res::Info(res) => {
            assert_eq!(res.last_block_height, 0);
            assert!(res.last_block_app_hash.is_empty());
        }
        other => panic!("unexpected reply {:?}", other),
    }
    let mut state = vec![0u8; 20];
    state.extend_from_slice(&1000u64.to_be_bytes());
    let init = RequestInitChain {
        time: None,
        chain_id: "foo".to_string(),
        consensus_params: None,
        validators: vec![],
        app_state_bytes: state,
        initial_height: 1,
    };
    m.run(request(Req::InitChain(init))).unwrap();
    m.run(begin_block(1)).unwrap();
    assert_eq!(deliver(&mut m, transfer(0, 1, 0xa, 100)).code, 0);
    m.run(end_block(1)).unwrap();
    let hash = match m.run(request(Req::Commit)).unwrap() {
        Res::Commit(res) => res.data,
        other => panic!("unexpected reply {:?}", other),
    };
    match m.run(info()).unwrap() {
        Res::Info(res) => {
            assert_eq!(res.last_block_height, 1);
            assert_eq!(res.last_block_app_hash, hash);
        }
        other => panic!("unexpected reply {:?}", other),
    }
    assert_eq!(balance(&mut m, 0xa), 100);
    assert_eq!(balance(&mut m, 0), 900);
}

#[test]
fn tx_rollback() {
    let mut m = chain(&[(0xa, 10)], None);
    m.run(begin_block(1)).unwrap();
    let res = deliver(&mut m, transfer(0xa, 1, 0xb, 20));
    assert_ne!(res.code, 0);
    assert_eq!(res.code, 1);
    assert_eq!(res.log, "Coins Error: Insufficient funds");
    assert_eq!(balance(&mut m, 0xa), 10);
    assert_eq!(balance(&mut m, 0xb), 0);
    // The nonce of the failed transaction was rolled back with it.
    assert_eq!(deliver(&mut m, transfer(0xa, 1, 0xb, 4)).code, 0);
    assert_eq!(balance(&mut m, 0xa), 6);
    assert_eq!(balance(&mut m, 0xb), 4);
}

#[test]
fn check_tx_isolation() {
    let mut m = chain(&[(0xa, 10)], None);
    m.run(begin_block(1)).unwrap();
    m.run(end_block(1)).unwrap();
    m.run(request(Req::Commit)).unwrap();
    assert_eq!(check(&mut m, transfer(0xa, 1, 0xb, 7)).code, 0);
    assert_eq!(balance(&mut m, 0xa), 10);
    assert_eq!(balance(&mut m, 0xb), 0);
    // The next check sees the first: only 3 are left to spend.
    let refused = check(&mut m, transfer(0xa, 2, 0xb, 7));
    assert_eq!(refused.code, 1);
    assert_eq!(refused.log, "Coins Error: Insufficient funds");
    // After a commit the checks start again from the committed state.
    m.run(begin_block(2)).unwrap();
    m.run(end_block(2)).unwrap();
    m.run(request(Req::Commit)).unwrap();
    assert_eq!(check(&mut m, transfer(0xa, 1, 0xb, 10)).code, 0);
    assert_eq!(balance(&mut m, 0xa), 10);
}

#[test]
fn nonce_enforcement() {
    let mut m = chain(&[(0xa, 10)], None);
    m.run(begin_block(1)).unwrap();
    assert_eq!(deliver(&mut m, transfer(0xa, 1, 0xb, 1)).code, 0);
    let second = deliver(&mut m, transfer(0xa, 1, 0xb, 1));
    assert_eq!(second.code, 1);
    assert_eq!(second.log, "Nonce Error: Nonce is not valid");
    assert_eq!(balance(&mut m, 0xb), 1);

    let mut m = chain(&[(0xa, 10)], None);
    m.run(begin_block(1)).unwrap();
    assert_eq!(deliver(&mut m, transfer(0xa, 1, 0xb, 1)).code, 0);
    assert_eq!(deliver(&mut m, transfer(0xa, 2, 0xb, 1)).code, 0);
    assert_eq!(balance(&mut m, 0xb), 2);
    // A nonce that skips ahead is refused as well.
    assert_eq!(deliver(&mut m, transfer(0xa, 4, 0xb, 1)).code, 1);
}

#[test]
fn stop_height() {
    let mut m = chain(&[(0xa, 10)], Some(5));
    for height in 1..5 {
        assert!(matches!(m.step(Event::Arrived(begin_block(height))), Action::Reply(_)));
        assert!(matches!(m.step(Event::Arrived(end_block(height))), Action::Reply(_)));
        assert!(matches!(m.step(Event::Arrived(request(Req::Commit))), Action::Reply(_)));
    }
    assert!(matches!(m.step(Event::Arrived(begin_block(5))), Action::Reply(_)));
    assert!(matches!(m.step(Event::Arrived(end_block(5))), Action::Reply(_)));
    match m.step(Event::Arrived(request(Req::Commit))) {
        Action::ReplyAndStop(Res::Commit(_), e) => {
            assert_eq!(e, Error::ABCI("Reached stop height (5)".to_string()));
            assert_eq!(e.to_string(), "ABCI Error: Reached stop height (5)");
        }
        _ => panic!("the machine did not stop"),
    }
    match m.step(Event::Arrived(begin_block(6))) {
        Action::Stop(e) => assert_eq!(e, Error::ABCI("Reached stop height (5)".to_string())),
        _ => panic!("the block began"),
    }
}

#[test]
fn the_stop_height_is_held_against_the_committed_height() {
    // The block of height 5 is committed, whatever height the end of the block reported.
    let mut m = chain(&[(0xa, 10)], Some(5));
    assert!(matches!(m.step(Event::Arrived(begin_block(5))), Action::Reply(_)));
    assert!(matches!(m.step(Event::Arrived(end_block(3))), Action::Reply(_)));
    match m.step(Event::Arrived(request(Req::Commit))) {
        Action::ReplyAndStop(Res::Commit(_), e) => {
            assert_eq!(e, Error::ABCI("Reached stop height (5)".to_string()));
        }
        _ => panic!("the machine did not stop"),
    }
    assert_eq!(m.store_ref().height(), Ok(5));

    // The block of height 3 is committed: the stop height is not reached.
    let mut m = chain(&[(0xa, 10)], Some(5));
    assert!(matches!(m.step(Event::Arrived(begin_block(3))), Action::Reply(_)));
    assert!(matches!(m.step(Event::Arrived(end_block(5))), Action::Reply(_)));
    assert!(matches!(m.step(Event::Arrived(request(Req::Commit))), Action::Reply(Res::Commit(_))));
    assert_eq!(m.store_ref().height(), Ok(3));

    // Only the reply to a commit stops the machine.
    let mut m = chain(&[(0xa, 10)], Some(5));
    assert!(matches!(m.step(Event::Arrived(begin_block(5))), Action::Reply(_)));
    assert!(matches!(m.step(Event::Arrived(end_block(5))), Action::Reply(_)));
}

#[test]
fn serve_answers_each_request_in_order() {
    let mut m = chain(&[(0xa, 10)], Some(2));
    let deliver_tx = |tx| request(Req::DeliverTx(RequestDeliverTx { tx }));
    let (replies, stopped) = m.serve(vec![
        begin_block(1),
        deliver_tx(transfer(0xa, 1, 0xb, 1)),
        end_block(1),
        request(Req::Commit),
        request(Req::Flush),
    ]);
    assert!(stopped.is_none());
    assert_eq!(replies.len(), 5);
    assert!(matches!(replies[0], Res::BeginBlock(_)));
    assert!(matches!(replies[1], Res::DeliverTx(_)));
    assert!(matches!(replies[2], Res::EndBlock(_)));
    assert!(matches!(replies[3], Res::Commit(_)));
    assert!(matches!(replies[4], Res::Flush));

    let (replies, stopped) = m.serve(vec![
        begin_block(2),
        end_block(2),
        request(Req::Commit),
        request(Req::Flush),
    ]);
    assert_eq!(replies.len(), 3);
    assert_eq!(stopped, Some(Error::ABCI("Reached stop height (2)".to_string())));

    let (replies, stopped) = m.serve(vec![request(Req::Flush), Request { value: None }, request(Req::Flush)]);
    assert_eq!(replies, vec![Res::Flush]);
    assert_eq!(stopped, Some(Error::ABCI("Received empty request".to_string())));
}

#[test]
fn a_fault_stops_the_loop_and_quiet_does_not() {
    let mut m = chain(&[], None);
    assert_eq!(m.step(Event::Quiet), Action::Wait);
    assert_eq!(m.step(Event::Arrived(request(Req::Flush))), Action::Reply(Res::Flush));
    match m.step(Event::Fault(Error::Store("disk".to_string()))) {
        Action::Stop(e) => assert_eq!(e, Error::ABCI("Store Error: disk".to_string())),
        _ => panic!("the loop went on"),
    }
}

fn accounts() -> Accounts<Nom, MapStore> {
    Accounts::new(MapStore::new())
}

#[test]
fn transfers_are_disabled_until_allowed() {
    let mut a = accounts();
    a.deposit(address(1), coins(10)).unwrap();
    assert_eq!(
        a.transfer(Some(&signed_by(1)), address(2), Amount::new(3)),
        Err(Error::Coins("Transfers are currently disabled".to_string()))
    );
    a.add_transfer_exception(address(1)).unwrap();
    a.transfer(Some(&signed_by(1)), address(2), Amount::new(3)).unwrap();
    assert_eq!(a.balance(address(1)).unwrap().value, 7);
    assert_eq!(a.balance(address(2)).unwrap().value, 3);
    assert_eq!(
        a.transfer(Some(&signed_by(2)), address(1), Amount::new(1)),
        Err(Error::Coins("Transfers are currently disabled".to_string()))
    );
    a.allow_transfers(true).unwrap();
    a.transfer(Some(&signed_by(2)), address(1), Amount::new(1)).unwrap();
    assert_eq!(a.balance(address(1)).unwrap().value, 8);
    a.allow_transfers(false).unwrap();
    assert!(a.transfer(Some(&signed_by(2)), address(1), Amount::new(1)).is_err());
}

#[test]
fn transfer_refusals() {
    let mut a = accounts();
    a.allow_transfers(true).unwrap();
    a.deposit(address(1), coins(10)).unwrap();
    assert_eq!(
        a.transfer(None, address(2), Amount::new(1)),
        Err(Error::Signer("No Signer context available".to_string()))
    );
    assert_eq!(
        a.transfer(Some(&Signer { signer: None }), address(2), Amount::new(1)),
        Err(Error::Coins("Unauthorized account action".to_string()))
    );
    assert_eq!(
        a.transfer(Some(&signed_by(1)), address(2), Amount::new(11)),
        Err(Error::Coins("Insufficient funds".to_string()))
    );
    // An address without an account cannot even send nothing.
    assert_eq!(
        a.transfer(Some(&signed_by(3)), address(2), Amount::new(0)),
        Err(Error::Coins("Insufficient funds".to_string()))
    );
    assert_eq!(a.balance(address(1)).unwrap().value, 10);
    assert_eq!(a.account_exists(address(2)), Ok(false));

    a.deposit(address(2), coins(u64::MAX)).unwrap();
    assert_eq!(
        a.transfer(Some(&signed_by(1)), address(2), Amount::new(1)),
        Err(Error::Coins("Overflow".to_string()))
    );
    // A transfer to oneself changes nothing.
    a.transfer(Some(&signed_by(2)), address(2), Amount::new(5)).unwrap();
    assert_eq!(a.balance(address(2)).unwrap().value, u64::MAX);
}

#[test]
fn deposit_withdraw_and_balance() {
    let mut a = accounts();
    assert_eq!(a.balance(Address::null()).unwrap().value, 0);
    assert_eq!(a.account_exists(address(1)), Ok(false));
    a.deposit(address(1), coins(10)).unwrap();
    a.deposit(address(1), coins(5)).unwrap();
    assert_eq!(a.account_exists(address(1)), Ok(true));
    assert_eq!(a.balance(address(1)).unwrap().value, 15);
    assert_eq!(a.withdraw(address(1), Amount::new(4)).unwrap().amount.value, 4);
    assert_eq!(a.balance(address(1)).unwrap().value, 11);
    assert_eq!(
        a.withdraw(address(1), Amount::new(12)).map(|c| c.amount),
        Err(Error::Coins("Insufficient funds".to_string()))
    );
    assert_eq!(a.withdraw(address(9), Amount::new(0)).unwrap().amount.value, 0);
    assert_eq!(a.account_exists(address(9)), Ok(true));
    // The balance is kept in eight bytes under the key of the address.
    let store = a.into_inner();
    let mut key = vec![2u8];
    key.extend_from_slice(&[1u8; 20]);
    assert_eq!(store.get(&key).unwrap(), Some(vec![0, 0, 0, 0, 0, 0, 0, 11]));
}

#[test]
fn funding_moves_coins_between_account_and_call() {
    let mut a = accounts();
    a.deposit(address(1), coins(10)).unwrap();
    let mut paid = Some(Paid::new());
    a.take_as_funding(Some(&signed_by(1)), &mut paid, Amount::new(4)).unwrap();
    assert_eq!(a.balance(address(1)).unwrap().value, 6);
    assert_eq!(paid.as_ref().unwrap().balance::<Nom>().unwrap().value, 4);
    assert_eq!(paid.as_ref().unwrap().balance::<Other>().unwrap().value, 0);

    a.give_from_funding(Some(&signed_by(2)), &mut paid, Amount::new(1)).unwrap();
    assert_eq!(a.balance(address(2)).unwrap().value, 1);
    assert_eq!(paid.as_ref().unwrap().balance::<Nom>().unwrap().value, 3);
    assert_eq!(
        a.give_from_funding(Some(&signed_by(2)), &mut paid, Amount::new(4)),
        Err(Error::Coins("Insufficient funds".to_string()))
    );
    a.give_from_funding_all(Some(&signed_by(2)), &mut paid).unwrap();
    assert_eq!(a.balance(address(2)).unwrap().value, 4);
    assert_eq!(paid.as_ref().unwrap().balance::<Nom>().unwrap().value, 0);

    let mut none: Option<Paid> = None;
    assert_eq!(
        a.give_from_funding(Some(&signed_by(2)), &mut none, Amount::new(1)),
        Err(Error::Coins("No Paid context found".to_string()))
    );
    assert_eq!(
        a.give_from_funding_all(Some(&signed_by(2)), &mut none),
        Err(Error::Coins("No Paid context found".to_string()))
    );
    // The coins have left the account by the time the funds are found to be missing.
    assert_eq!(
        a.take_as_funding(Some(&signed_by(1)), &mut none, Amount::new(1)),
        Err(Error::Coins("No Paid context found".to_string()))
    );
    assert_eq!(a.balance(address(1)).unwrap().value, 5);
    assert_eq!(
        a.take_as_funding(Some(&signed_by(1)), &mut paid, Amount::new(6)),
        Err(Error::Coins("Insufficient funds".to_string()))
    );
    assert_eq!(
        a.take_own_coins(None, Amount::new(1)).map(|c| c.amount),
        Err(Error::Signer("No Signer context available".to_string()))
    );
    a.give_own_coins(Some(&signed_by(1)), coins(2)).unwrap();
    assert_eq!(a.balance(address(1)).unwrap().value, 7);
}

#[test]
fn paid_funds_are_kept_by_symbol() {
    let mut paid = Paid::new();
    paid.give::<Nom>(Amount::new(5)).unwrap();
    paid.give::<Other>(Amount::new(u64::MAX)).unwrap();
    assert_eq!(paid.give::<Other>(Amount::new(1)), Err(Error::Coins("Overflow".to_string())));
    assert_eq!(paid.take::<Nom>(Amount::new(2)).unwrap().amount.value, 2);
    assert_eq!(paid.balance::<Nom>().unwrap().value, 3);
    assert_eq!(paid.balance::<Other>().unwrap().value, u64::MAX);
    assert_eq!(
        paid.take::<Nom>(Amount::new(4)).map(|c| c.amount),
        Err(Error::Coins("Insufficient funds".to_string()))
    );
}

#[test]
fn nonces_go_up_by_one() {
    let mut n = NoncePlugin::new(MapStore::new());
    assert_eq!(n.nonce(address(1)), Ok(0));
    assert_eq!(
        n.admit_call(Some(address(1)), Some(0)),
        Err(Error::Nonce("Nonce is not valid".to_string()))
    );
    assert_eq!(
        n.admit_call(Some(address(1)), Some(2)),
        Err(Error::Nonce("Nonce is not valid".to_string()))
    );
    assert_eq!(n.admit_call(Some(address(1)), Some(1)), Ok(()));
    assert_eq!(n.nonce(address(1)), Ok(1));
    assert_eq!(n.nonce(address(2)), Ok(0));
    assert_eq!(n.admit_call(Some(address(2)), Some(1)), Ok(()));
    assert_eq!(n.admit_call(Some(address(1)), Some(2)), Ok(()));
    assert_eq!(n.nonce(address(1)), Ok(2));
    assert_eq!(
        n.admit_call(Some(address(1)), None),
        Err(Error::Nonce("Signed calls must include a nonce".to_string()))
    );
    assert_eq!(
        n.admit_call(None, Some(1)),
        Err(Error::Nonce("Unsigned calls must not include a nonce".to_string()))
    );
    assert_eq!(n.admit_call(None, None), Ok(()));
    assert_eq!(n.nonce(address(1)), Ok(2));
    let store = n.into_inner();
    assert_eq!(store.get(&[1u8; 20]).unwrap(), Some(vec![0, 0, 0, 0, 0, 0, 0, 2]));
}

#[test]
fn the_accounts_are_walked_in_the_order_of_their_addresses() {
    let mut a = accounts();
    assert_eq!(a.iter(10), Ok((vec![], None)));

    a.allow_transfers(true).unwrap();
    a.add_transfer_exception(address(9)).unwrap();
    a.deposit(address(7), coins(70)).unwrap();
    a.deposit(address(3), coins(30)).unwrap();
    a.deposit(address(5), coins(50)).unwrap();
    a.withdraw(address(5), Amount::new(50)).unwrap();

    let all = vec![
        (address(3), Amount::new(30)),
        (address(5), Amount::new(0)),
        (address(7), Amount::new(70)),
    ];
    assert_eq!(a.iter(10), Ok((all.clone(), None)));
    assert_eq!(a.iter(usize::MAX), Ok((all.clone(), None)));

    // A walk that may read two keys stops at the second account.
    let mut last = vec![2u8];
    last.extend_from_slice(&[5u8; 20]);
    assert_eq!(a.iter(2), Ok((all[..2].to_vec(), Some(last))));
    assert_eq!(a.iter(0), Ok((vec![], Some(vec![2u8]))));

    // Keys behind the balances end the walk; keys among them that are no balance are
    // passed over.
    let mut store = a.into_inner();
    store.put(vec![3, 1], vec![1]).unwrap();
    store.put(vec![2, 4], vec![1]).unwrap();
    let a: Accounts<Nom, MapStore> = Accounts::new(store);
    assert_eq!(a.iter(10), Ok((all, None)));
}

/// A layer that adds up the calls that reach it, and refuses a call of zero.
struct Sum(u64);

impl Call for Sum {
    type Call = u64;

    fn call(&mut self, call: u64) -> Result<(), Error> {
        if call == 0 {
            return Err(Error::Call("Nothing to add".to_string()));
        }
        self.0 += call;
        Ok(())
    }
}

#[test]
fn a_call_reaches_the_layer_below_only_in_its_place() {
    let mut n = NoncePlugin::new(MapStore::new());
    let mut sum = Sum(0);
    let a = Some(address(1));

    assert_eq!(n.call(a, NonceCall { nonce: Some(1), inner_call: 5 }, &mut sum), Ok(()));
    assert_eq!(sum.0, 5);
    assert_eq!(n.nonce(address(1)), Ok(1));

    // The same place again: refused, and the layer below is not reached.
    assert_eq!(
        n.call(a, NonceCall { nonce: Some(1), inner_call: 5 }, &mut sum),
        Err(Error::Nonce("Nonce is not valid".to_string()))
    );
    assert_eq!(sum.0, 5);
    assert_eq!(n.nonce(address(1)), Ok(1));

    // A call in its place that the layer below refuses still takes the place.
    assert_eq!(
        n.call(a, NonceCall { nonce: Some(2), inner_call: 0 }, &mut sum),
        Err(Error::Call("Nothing to add".to_string()))
    );
    assert_eq!(n.nonce(address(1)), Ok(2));

    assert_eq!(
        n.call(a, NonceCall { nonce: None, inner_call: 1 }, &mut sum),
        Err(Error::Nonce("Signed calls must include a nonce".to_string()))
    );
    assert_eq!(
        n.call(None, NonceCall { nonce: Some(1), inner_call: 1 }, &mut sum),
        Err(Error::Nonce("Unsigned calls must not include a nonce".to_string()))
    );
    assert_eq!(n.call(None, NonceCall { nonce: None, inner_call: 1 }, &mut sum), Ok(()));
    assert_eq!(sum.0, 6);
}
