//! What a client makes of the answers of a node: which calls it sends, how it reads the
//! result codes, and how it reads the state out of the answer to a query.

use crate::error::Error;
use crate::plugins::abci::ABCICall;
use crate::store::mapstore;
use crate::store::ordered_map::OrderedMap;
use crate::store::store::Store;
use crate::store::{Read, KV};
use crate::text;
use vstd::prelude::*;
use vstd::slice::{slice_subrange, slice_to_vec};

verus! {

/// The number of bytes of a root hash.
pub const ROOT_HASH_LENGTH: usize = 32;

/// The text that reports the result code `code` with the log `log`.
pub open spec fn code_text(code: u32, log: Seq<char>) -> Seq<char> {
    "code "@ + text::decimal_digits(code as nat) + ": "@ + log
}

/// Writes the report of the result code `code` with the log `log`.
pub fn code_message(code: u32, log: &str) -> (s: String)
    ensures
        s@ == code_text(code, log@),
{
    let mut s = String::from_str("code ");
    s.append(text::decimal(code as u64).as_str());
    s.append(": ");
    s.append(log);
    s
}

/// The call that a client can send: the transaction of a call that delivers one. Any
/// other call is refused.
pub fn deliverable<C>(call: ABCICall<C>) -> (r: Result<C, Error>)
    ensures
        match call {
            ABCICall::DeliverTx(c) => r == Ok::<C, Error>(c),
            _ => r is Err && r->Err_0 is Client && r->Err_0.detail() == "Unexpected call type"@,
        },
{
    match call {
        ABCICall::DeliverTx(c) => Ok(c),
        _ => Err(Error::Client(String::from_str("Unexpected call type"))),
    }
}

/// The outcome of a transaction that a node has checked with the result code `code` and
/// the log `log`: success for code 0, else an error of the call with the code and the
/// log.
pub fn call_result(code: u32, log: &str) -> (r: Result<(), Error>)
    ensures
        code == 0 ==> r is Ok,
        code != 0 ==> r is Err && r->Err_0 is Call && r->Err_0.detail() == code_text(code, log@),
{
    if code != 0 {
        return Err(Error::Call(code_message(code, log)));
    }
    Ok(())
}

/// The outcome of a query that a node has answered with the result code `code` and the
/// log `log`: success for code 0, else an error of the query with the code and the log.
pub fn query_result(code: u32, log: &str) -> (r: Result<(), Error>)
    ensures
        code == 0 ==> r is Ok,
        code != 0 ==> r is Err && r->Err_0 is Query && r->Err_0.detail() == code_text(code, log@),
{
    if code != 0 {
        return Err(Error::Query(code_message(code, log)));
    }
    Ok(())
}

/// Takes the answer to a query apart: the root hash in its first 32 bytes, and the proof
/// in the rest. A shorter answer is an error.
pub fn split_query_value(value: &[u8]) -> (r: Result<([u8; 32], Vec<u8>), Error>)
    ensures
        value@.len() >= ROOT_HASH_LENGTH ==> r is Ok && r.unwrap().0@ == value@.take(
            ROOT_HASH_LENGTH as int,
        ) && r.unwrap().1@ == value@.skip(ROOT_HASH_LENGTH as int),
        value@.len() < ROOT_HASH_LENGTH ==> r is Err && r->Err_0 is Tendermint
            && r->Err_0.detail() == "Cannot convert result to fixed size array"@,
{
    if value.len() < ROOT_HASH_LENGTH {
        return Err(
            Error::Tendermint(String::from_str("Cannot convert result to fixed size array")),
        );
    }
    let mut root_hash = [0u8;32];
    let mut i: usize = 0;
    while i < ROOT_HASH_LENGTH
        invariant
            i <= ROOT_HASH_LENGTH,
            value@.len() >= ROOT_HASH_LENGTH,
            forall|j: int| 0 <= j < i ==> root_hash@[j] == value@[j],
        decreases ROOT_HASH_LENGTH - i,
    {
        root_hash[i] = value[i];
        i = i + 1;
    }
    let proof_bytes = slice_to_vec(slice_subrange(value, ROOT_HASH_LENGTH, value.len()));
    assert(root_hash@ =~= value@.take(ROOT_HASH_LENGTH as int));
    assert(proof_bytes@ =~= value@.skip(ROOT_HASH_LENGTH as int));
    Ok((root_hash, proof_bytes))
}

/// The map that holds the entries `entries`; of two entries with one key, the later
/// counts.
pub open spec fn proven(entries: Seq<KV>) -> Map<Seq<u8>, Seq<u8>>
    decreases entries.len(),
{
    if entries.len() == 0 {
        Map::empty()
    } else {
        proven(entries.drop_last()).insert(entries.last().0@, entries.last().1@)
    }
}

/// A store that holds the entries that a proof has shown, and nothing else. It can be
/// read by key; a key that the proof has not shown fails the read, and so does a read
/// in key order, which would have to know what the proof has left out.
pub struct ProofStore {
    map: OrderedMap<Vec<u8>>,
}

impl ProofStore {
    /// The store of the entries `entries` that a proof has shown.
    pub fn new(entries: Vec<KV>) -> (s: Self)
        ensures
            s@ == proven(entries@),
    {
        let mut map: OrderedMap<Vec<u8>> = OrderedMap::new();
        let mut i: usize = 0;
        assert(entries@.take(0) =~= Seq::<KV>::empty());
        assert(mapstore::bytes_map(map@) =~= proven(entries@.take(0)));
        while i < entries.len()
            invariant
                i <= entries.len(),
                mapstore::bytes_map(map@) == proven(entries@.take(i as int)),
            decreases entries.len() - i,
        {
            let ghost before = map@;
            let key = mapstore::copy_bytes(&entries[i].0);
            let value = mapstore::copy_bytes(&entries[i].1);
            map.insert(key, value);
            proof {
                assert(entries@.take(i + 1).drop_last() =~= entries@.take(i as int));
                assert(mapstore::bytes_map(before.insert(key@, value)) =~= mapstore::bytes_map(
                    before,
                ).insert(key@, value@));
            }
            i = i + 1;
        }
        assert(entries@.take(entries@.len() as int) =~= entries@);
        ProofStore { map }
    }
}

impl Read for ProofStore {
    closed spec fn view(&self) -> Map<Seq<u8>, Seq<u8>> {
        mapstore::bytes_map(self.map@)
    }

    open spec fn reliable(&self) -> bool {
        false
    }

    fn get(&self, key: &[u8]) -> (r: Result<Option<Vec<u8>>, Error>)
        ensures
            r is Ok <==> self@.contains_key(key@),
    {
        match self.map.get(key) {
            Some(v) => Ok(Some(mapstore::copy_bytes(v))),
            None => Err(Error::Store(String::from_str("Key is not in the proof"))),
        }
    }

    fn get_next(&self, key: &[u8]) -> (r: Result<Option<KV>, Error>)
        ensures
            r is Err,
            r->Err_0 is Store,
            r->Err_0.detail() == "The proof does not show the order of keys"@,
    {
        Err(Error::Store(String::from_str("The proof does not show the order of keys")))
    }

    fn get_prev(&self, key: Option<&[u8]>) -> (r: Result<Option<KV>, Error>)
        ensures
            r is Err,
            r->Err_0 is Store,
            r->Err_0.detail() == "The proof does not show the order of keys"@,
    {
        Err(Error::Store(String::from_str("The proof does not show the order of keys")))
    }
}

/// The store that a client reads after a query: the entries `entries` that the proof in
/// the answer has shown, under the empty prefix.
pub fn proven_store(entries: Vec<KV>) -> (s: Store<ProofStore>)
    ensures
        s.prefix() == Seq::<u8>::empty(),
        s.backing()@ == proven(entries@),
{
    Store::new(ProofStore::new(entries))
}

} // verus!
