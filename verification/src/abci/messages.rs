//! The requests that the consensus engine sends, and the replies to them.

use vstd::prelude::*;

verus! {

/// A point in time: seconds and nanoseconds since the epoch.
#[derive(Clone, Debug, PartialEq, Eq)]
pub struct Timestamp {
    pub seconds: i64,
    pub nanos: i32,
}

/// A span of time: seconds and nanoseconds.
#[derive(Clone, Debug, PartialEq, Eq)]
pub struct Duration {
    pub seconds: i64,
    pub nanos: i32,
}

/// The versions of the protocol that a block was made with.
#[derive(Clone, Debug, PartialEq, Eq)]
pub struct Version {
    pub block: u64,
    pub app: u64,
}

/// The header of the parts that a block was sent in.
#[derive(Clone, Debug, PartialEq, Eq)]
pub struct PartSetHeader {
    pub total: u32,
    pub hash: Vec<u8>,
}

/// What names a block.
#[derive(Clone, Debug, PartialEq, Eq)]
pub struct BlockId {
    pub hash: Vec<u8>,
    pub part_set_header: Option<PartSetHeader>,
}

/// The header of a block.
#[derive(Clone, Debug, PartialEq, Eq)]
pub struct Header {
    pub version: Option<Version>,
    pub chain_id: String,
    pub height: i64,
    pub time: Option<Timestamp>,
    pub last_block_id: Option<BlockId>,
    pub last_commit_hash: Vec<u8>,
    pub data_hash: Vec<u8>,
    pub validators_hash: Vec<u8>,
    pub next_validators_hash: Vec<u8>,
    pub consensus_hash: Vec<u8>,
    pub app_hash: Vec<u8>,
    pub last_results_hash: Vec<u8>,
    pub evidence_hash: Vec<u8>,
    pub proposer_address: Vec<u8>,
}

/// The public key of a validator.
#[derive(Clone, Debug, PartialEq, Eq)]
pub enum ValidatorKey {
    Ed25519(Vec<u8>),
    Secp256k1(Vec<u8>),
}

/// A change of a validator's voting power.
#[derive(Clone, Debug, PartialEq, Eq)]
pub struct ValidatorUpdate {
    pub pub_key: Option<ValidatorKey>,
    pub power: i64,
}

/// A validator as a block names it.
#[derive(Clone, Debug, PartialEq, Eq)]
pub struct Validator {
    pub address: Vec<u8>,
    pub power: i64,
}

/// Whether a validator signed the last block.
#[derive(Clone, Debug, PartialEq, Eq)]
pub struct VoteInfo {
    pub validator: Option<Validator>,
    pub signed_last_block: bool,
}

/// Who signed the last block.
#[derive(Clone, Debug, PartialEq, Eq)]
pub struct LastCommitInfo {
    pub round: i32,
    pub votes: Vec<VoteInfo>,
}

/// The proof that a validator has misbehaved.
#[derive(Clone, Debug, PartialEq, Eq)]
pub struct Evidence {
    pub type_: i32,
    pub validator: Option<Validator>,
    pub height: i64,
    pub time: Option<Timestamp>,
    pub total_voting_power: i64,
}

/// The limits of a block.
#[derive(Clone, Debug, PartialEq, Eq)]
pub struct BlockParams {
    pub max_bytes: i64,
    pub max_gas: i64,
}

/// The limits of evidence.
#[derive(Clone, Debug, PartialEq, Eq)]
pub struct EvidenceParams {
    pub max_age_num_blocks: i64,
    pub max_age_duration: Option<Duration>,
    pub max_bytes: i64,
}

/// The kinds of keys that validators may have.
#[derive(Clone, Debug, PartialEq, Eq)]
pub struct ValidatorParams {
    pub pub_key_types: Vec<String>,
}

/// The version of the application.
#[derive(Clone, Debug, PartialEq, Eq)]
pub struct VersionParams {
    pub app_version: u64,
}

/// The parameters of consensus.
#[derive(Clone, Debug, PartialEq, Eq)]
pub struct ConsensusParams {
    pub block: Option<BlockParams>,
    pub evidence: Option<EvidenceParams>,
    pub validator: Option<ValidatorParams>,
    pub version: Option<VersionParams>,
}

/// One attribute of an event.
#[derive(Clone, Debug, PartialEq, Eq)]
pub struct EventAttribute {
    pub key: Vec<u8>,
    pub value: Vec<u8>,
    pub index: bool,
}

/// An event that a handler reports.
#[derive(Clone, Debug, PartialEq, Eq)]
pub struct Event {
    pub type_: String,
    pub attributes: Vec<EventAttribute>,
}

/// One step of a proof.
#[derive(Clone, Debug, PartialEq, Eq)]
pub struct ProofOp {
    pub type_: String,
    pub key: Vec<u8>,
    pub data: Vec<u8>,
}

/// The steps of a proof.
#[derive(Clone, Debug, PartialEq, Eq)]
pub struct ProofOps {
    pub ops: Vec<ProofOp>,
}

/// A snapshot of the state that a joining node can fetch.
#[derive(Clone, Debug, PartialEq, Eq)]
pub struct Snapshot {
    pub height: u64,
    pub format: u32,
    pub chunks: u32,
    pub hash: Vec<u8>,
    pub metadata: Vec<u8>,
}

#[derive(Clone, Debug, PartialEq, Eq)]
pub struct RequestEcho {
    pub message: String,
}

#[derive(Clone, Debug, PartialEq, Eq)]
pub struct RequestInfo {
    pub version: String,
    pub block_version: u64,
    pub p2p_version: u64,
}

#[derive(Clone, Debug, PartialEq, Eq)]
pub struct RequestSetOption {
    pub key: String,
    pub value: String,
}

#[derive(Clone, Debug, PartialEq, Eq)]
pub struct RequestInitChain {
    pub time: Option<Timestamp>,
    pub chain_id: String,
    pub consensus_params: Option<ConsensusParams>,
    pub validators: Vec<ValidatorUpdate>,
    pub app_state_bytes: Vec<u8>,
    pub initial_height: i64,
}

#[derive(Clone, Debug, PartialEq, Eq)]
pub struct RequestQuery {
    pub data: Vec<u8>,
    pub path: String,
    pub height: i64,
    pub prove: bool,
}

#[derive(Clone, Debug, PartialEq, Eq)]
pub struct RequestBeginBlock {
    pub hash: Vec<u8>,
    pub header: Option<Header>,
    pub last_commit_info: Option<LastCommitInfo>,
    pub byzantine_validators: Vec<Evidence>,
}

#[derive(Clone, Debug, PartialEq, Eq)]
pub struct RequestCheckTx {
    pub tx: Vec<u8>,
    pub type_: i32,
}

#[derive(Clone, Debug, PartialEq, Eq)]
pub struct RequestDeliverTx {
    pub tx: Vec<u8>,
}

#[derive(Clone, Debug, PartialEq, Eq)]
pub struct RequestEndBlock {
    pub height: i64,
}

#[derive(Clone, Debug, PartialEq, Eq)]
pub struct RequestOfferSnapshot {
    pub snapshot: Option<Snapshot>,
    pub app_hash: Vec<u8>,
}

#[derive(Clone, Debug, PartialEq, Eq)]
pub struct RequestLoadSnapshotChunk {
    pub height: u64,
    pub format: u32,
    pub chunk: u32,
}

#[derive(Clone, Debug, PartialEq, Eq)]
pub struct RequestApplySnapshotChunk {
    pub index: u32,
    pub chunk: Vec<u8>,
    pub sender: String,
}

/// What a request asks for.
#[derive(Clone, Debug, PartialEq, Eq)]
pub enum Req {
    Echo(RequestEcho),
    Flush,
    Info(RequestInfo),
    SetOption(RequestSetOption),
    InitChain(RequestInitChain),
    Query(RequestQuery),
    BeginBlock(RequestBeginBlock),
    CheckTx(RequestCheckTx),
    DeliverTx(RequestDeliverTx),
    EndBlock(RequestEndBlock),
    Commit,
    ListSnapshots,
    OfferSnapshot(RequestOfferSnapshot),
    LoadSnapshotChunk(RequestLoadSnapshotChunk),
    ApplySnapshotChunk(RequestApplySnapshotChunk),
}

/// A request as it comes off the wire: it may be empty.
#[derive(Clone, Debug, PartialEq, Eq)]
pub struct Request {
    pub value: Option<Req>,
}

#[derive(Clone, Debug, PartialEq, Eq)]
pub struct ResponseEcho {
    pub message: String,
}

#[derive(Clone, Debug, PartialEq, Eq)]
pub struct ResponseInfo {
    pub data: String,
    pub version: String,
    pub app_version: u64,
    pub last_block_height: i64,
    pub last_block_app_hash: Vec<u8>,
}

#[derive(Clone, Debug, PartialEq, Eq)]
pub struct ResponseSetOption {
    pub code: u32,
    pub log: String,
    pub info: String,
}

#[derive(Clone, Debug, PartialEq, Eq)]
pub struct ResponseInitChain {
    pub consensus_params: Option<ConsensusParams>,
    pub validators: Vec<ValidatorUpdate>,
    pub app_hash: Vec<u8>,
}

#[derive(Clone, Debug, PartialEq, Eq)]
pub struct ResponseQuery {
    pub code: u32,
    pub log: String,
    pub info: String,
    pub index: i64,
    pub key: Vec<u8>,
    pub value: Vec<u8>,
    pub proof_ops: Option<ProofOps>,
    pub height: i64,
    pub codespace: String,
}

#[derive(Clone, Debug, PartialEq, Eq)]
pub struct ResponseBeginBlock {
    pub events: Vec<Event>,
}

#[derive(Clone, Debug, PartialEq, Eq)]
pub struct ResponseCheckTx {
    pub code: u32,
    pub data: Vec<u8>,
    pub log: String,
    pub info: String,
    pub gas_wanted: i64,
    pub gas_used: i64,
    pub events: Vec<Event>,
    pub codespace: String,
    pub sender: String,
    pub priority: i64,
    pub mempool_error: String,
}

#[derive(Clone, Debug, PartialEq, Eq)]
pub struct ResponseDeliverTx {
    pub code: u32,
    pub data: Vec<u8>,
    pub log: String,
    pub info: String,
    pub gas_wanted: i64,
    pub gas_used: i64,
    pub events: Vec<Event>,
    pub codespace: String,
}

#[derive(Clone, Debug, PartialEq, Eq)]
pub struct ResponseEndBlock {
    pub validator_updates: Vec<ValidatorUpdate>,
    pub consensus_param_updates: Option<ConsensusParams>,
    pub events: Vec<Event>,
}

#[derive(Clone, Debug, PartialEq, Eq)]
pub struct ResponseCommit {
    pub data: Vec<u8>,
    pub retain_height: i64,
}

#[derive(Clone, Debug, PartialEq, Eq)]
pub struct ResponseListSnapshots {
    pub snapshots: Vec<Snapshot>,
}

#[derive(Clone, Debug, PartialEq, Eq)]
pub struct ResponseOfferSnapshot {
    pub result: i32,
}

#[derive(Clone, Debug, PartialEq, Eq)]
pub struct ResponseLoadSnapshotChunk {
    pub chunk: Vec<u8>,
}

#[derive(Clone, Debug, PartialEq, Eq)]
pub struct ResponseApplySnapshotChunk {
    pub result: i32,
    pub refetch_chunks: Vec<u32>,
    pub reject_senders: Vec<String>,
}

/// The reply to a request.
#[derive(Clone, Debug, PartialEq, Eq)]
pub enum Res {
    Echo(ResponseEcho),
    Flush,
    Info(ResponseInfo),
    SetOption(ResponseSetOption),
    InitChain(ResponseInitChain),
    Query(ResponseQuery),
    BeginBlock(ResponseBeginBlock),
    CheckTx(ResponseCheckTx),
    DeliverTx(ResponseDeliverTx),
    EndBlock(ResponseEndBlock),
    Commit(ResponseCommit),
    ListSnapshots(ResponseListSnapshots),
    OfferSnapshot(ResponseOfferSnapshot),
    LoadSnapshotChunk(ResponseLoadSnapshotChunk),
    ApplySnapshotChunk(ResponseApplySnapshotChunk),
}

/// A reply as it goes onto the wire.
#[derive(Clone, Debug, PartialEq, Eq)]
pub struct Response {
    pub value: Option<Res>,
}

/// The result code of a reply that reports success.
pub const CODE_OK: u32 = 0;

/// The result code of a reply that reports a failure of the handler.
pub const CODE_ERROR: u32 = 1;

/// The result of applying a snapshot chunk: the chunk was accepted.
pub const CHUNK_ACCEPT: i32 = 1;

/// The result of applying a snapshot chunk: the chunk is to be fetched again.
pub const CHUNK_RETRY: i32 = 3;

impl ResponseEcho {
    /// The reply with nothing in it.
    pub open spec fn is_empty(self) -> bool {
        self.message@.len() == 0
    }
}

impl Default for ResponseEcho {
    fn default() -> (r: Self)
        ensures
            r.is_empty(),
    {
        ResponseEcho { message: String::new() }
    }
}

impl ResponseSetOption {
    /// The reply with nothing in it.
    pub open spec fn is_empty(self) -> bool {
        self.code == 0 && self.log@.len() == 0 && self.info@.len() == 0
    }
}

impl Default for ResponseSetOption {
    fn default() -> (r: Self)
        ensures
            r.is_empty(),
    {
        ResponseSetOption { code: 0, log: String::new(), info: String::new() }
    }
}

impl ResponseInitChain {
    /// The reply with nothing in it.
    pub open spec fn is_empty(self) -> bool {
        self.consensus_params is None && self.validators@.len() == 0 && self.app_hash@.len() == 0
    }
}

impl Default for ResponseInitChain {
    fn default() -> (r: Self)
        ensures
            r.is_empty(),
    {
        ResponseInitChain { consensus_params: None, validators: Vec::new(), app_hash: Vec::new() }
    }
}

impl ResponseQuery {
    /// The reply with nothing in it.
    pub open spec fn is_empty(self) -> bool {
        &&& self.code == 0
        &&& self.log@.len() == 0
        &&& self.info@.len() == 0
        &&& self.index == 0
        &&& self.key@.len() == 0
        &&& self.value@.len() == 0
        &&& self.proof_ops is None
        &&& self.height == 0
        &&& self.codespace@.len() == 0
    }

    /// The reply that reports a failed query: the error code, `text` as log and as
    /// info, the given height, and nothing else.
    pub open spec fn reports(self, text: Seq<char>, height: i64) -> bool {
        &&& self.code == CODE_ERROR
        &&& self.log@ == text
        &&& self.info@ == text
        &&& self.index == 0
        &&& self.key@.len() == 0
        &&& self.value@.len() == 0
        &&& self.proof_ops is None
        &&& self.height == height
        &&& self.codespace@.len() == 0
    }
}

impl Default for ResponseQuery {
    fn default() -> (r: Self)
        ensures
            r.is_empty(),
    {
        ResponseQuery {
            code: 0,
            log: String::new(),
            info: String::new(),
            index: 0,
            key: Vec::new(),
            value: Vec::new(),
            proof_ops: None,
            height: 0,
            codespace: String::new(),
        }
    }
}

impl ResponseBeginBlock {
    /// The reply with nothing in it.
    pub open spec fn is_empty(self) -> bool {
        self.events@.len() == 0
    }
}

impl Default for ResponseBeginBlock {
    fn default() -> (r: Self)
        ensures
            r.is_empty(),
    {
        ResponseBeginBlock { events: Vec::new() }
    }
}

impl ResponseCheckTx {
    /// The reply with nothing in it.
    pub open spec fn is_empty(self) -> bool {
        self.reports_code(0, Seq::<char>::empty())
    }

    /// The reply that carries `code` and `text` as its log, and nothing else.
    pub open spec fn reports_code(self, code: u32, text: Seq<char>) -> bool {
        &&& self.code == code
        &&& self.data@.len() == 0
        &&& self.log@ == text
        &&& self.info@.len() == 0
        &&& self.gas_wanted == 0
        &&& self.gas_used == 0
        &&& self.events@.len() == 0
        &&& self.codespace@.len() == 0
        &&& self.sender@.len() == 0
        &&& self.priority == 0
        &&& self.mempool_error@.len() == 0
    }
}

impl Default for ResponseCheckTx {
    fn default() -> (r: Self)
        ensures
            r.is_empty(),
    {
        ResponseCheckTx {
            code: 0,
            data: Vec::new(),
            log: String::new(),
            info: String::new(),
            gas_wanted: 0,
            gas_used: 0,
            events: Vec::new(),
            codespace: String::new(),
            sender: String::new(),
            priority: 0,
            mempool_error: String::new(),
        }
    }
}

impl ResponseDeliverTx {
    /// The reply with nothing in it.
    pub open spec fn is_empty(self) -> bool {
        self.reports_code(0, Seq::<char>::empty())
    }

    /// The reply that carries `code` and `text` as its log, and nothing else.
    pub open spec fn reports_code(self, code: u32, text: Seq<char>) -> bool {
        &&& self.code == code
        &&& self.data@.len() == 0
        &&& self.log@ == text
        &&& self.info@.len() == 0
        &&& self.gas_wanted == 0
        &&& self.gas_used == 0
        &&& self.events@.len() == 0
        &&& self.codespace@.len() == 0
    }
}

impl Default for ResponseDeliverTx {
    fn default() -> (r: Self)
        ensures
            r.is_empty(),
    {
        ResponseDeliverTx {
            code: 0,
            data: Vec::new(),
            log: String::new(),
            info: String::new(),
            gas_wanted: 0,
            gas_used: 0,
            events: Vec::new(),
            codespace: String::new(),
        }
    }
}

impl ResponseEndBlock {
    /// The reply with nothing in it.
    pub open spec fn is_empty(self) -> bool {
        self.validator_updates@.len() == 0 && self.consensus_param_updates is None
            && self.events@.len() == 0
    }
}

impl Default for ResponseEndBlock {
    fn default() -> (r: Self)
        ensures
            r.is_empty(),
    {
        ResponseEndBlock {
            validator_updates: Vec::new(),
            consensus_param_updates: None,
            events: Vec::new(),
        }
    }
}

impl ResponseCommit {
    /// The reply with nothing in it.
    pub open spec fn is_empty(self) -> bool {
        self.data@.len() == 0 && self.retain_height == 0
    }
}

impl Default for ResponseCommit {
    fn default() -> (r: Self)
        ensures
            r.is_empty(),
    {
        ResponseCommit { data: Vec::new(), retain_height: 0 }
    }
}

impl ResponseOfferSnapshot {
    /// The reply with nothing in it.
    pub open spec fn is_empty(self) -> bool {
        self.result == 0
    }
}

impl Default for ResponseOfferSnapshot {
    fn default() -> (r: Self)
        ensures
            r.is_empty(),
    {
        ResponseOfferSnapshot { result: 0 }
    }
}

impl ResponseApplySnapshotChunk {
    /// The reply with nothing in it.
    pub open spec fn is_empty(self) -> bool {
        self.result == 0 && self.refetch_chunks@.len() == 0 && self.reject_senders@.len() == 0
    }

    /// The reply that accepts a chunk.
    pub open spec fn accepts(self) -> bool {
        self.result == CHUNK_ACCEPT && self.refetch_chunks@.len() == 0
            && self.reject_senders@.len() == 0
    }

    /// The reply that asks for chunk `index` again and rejects the peer `sender`.
    pub open spec fn retries(self, index: u32, sender: Seq<char>) -> bool {
        &&& self.result == CHUNK_RETRY
        &&& self.refetch_chunks@ == seq![index]
        &&& self.reject_senders@.len() == 1
        &&& self.reject_senders@[0]@ == sender
    }
}

impl Default for ResponseApplySnapshotChunk {
    fn default() -> (r: Self)
        ensures
            r.is_empty(),
    {
        ResponseApplySnapshotChunk {
            result: 0,
            refetch_chunks: Vec::new(),
            reject_senders: Vec::new(),
        }
    }
}

impl Res {
    /// Whether the reply is of the kind that answers the request `req`.
    pub open spec fn answers(self, req: Req) -> bool {
        match (self, req) {
            (Res::Echo(_), Req::Echo(_)) => true,
            (Res::Flush, Req::Flush) => true,
            (Res::Info(_), Req::Info(_)) => true,
            (Res::SetOption(_), Req::SetOption(_)) => true,
            (Res::InitChain(_), Req::InitChain(_)) => true,
            (Res::Query(_), Req::Query(_)) => true,
            (Res::BeginBlock(_), Req::BeginBlock(_)) => true,
            (Res::CheckTx(_), Req::CheckTx(_)) => true,
            (Res::DeliverTx(_), Req::DeliverTx(_)) => true,
            (Res::EndBlock(_), Req::EndBlock(_)) => true,
            (Res::Commit(_), Req::Commit) => true,
            (Res::ListSnapshots(_), Req::ListSnapshots) => true,
            (Res::OfferSnapshot(_), Req::OfferSnapshot(_)) => true,
            (Res::LoadSnapshotChunk(_), Req::LoadSnapshotChunk(_)) => true,
            (Res::ApplySnapshotChunk(_), Req::ApplySnapshotChunk(_)) => true,
            _ => false,
        }
    }
}

} // verus!
