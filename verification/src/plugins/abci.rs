//! What the state machine tells an application at the turns of a block, and the calls
//! that reach an application through it.

use crate::abci::messages::{
    ConsensusParams, Evidence, Header, LastCommitInfo, Timestamp, ValidatorUpdate,
};
use vstd::prelude::*;

verus! {

/// What an application learns when a chain starts.
#[derive(Clone, Debug, PartialEq, Eq)]
pub struct InitChainCtx {
    pub time: Option<Timestamp>,
    pub chain_id: String,
    pub consensus_params: Option<ConsensusParams>,
    pub validators: Vec<ValidatorUpdate>,
    pub app_state_bytes: Vec<u8>,
    pub initial_height: i64,
}

/// What an application learns when a block begins.
#[derive(Clone, Debug, PartialEq, Eq)]
pub struct BeginBlockCtx {
    pub height: u64,
    pub header: Header,
    pub last_commit_info: Option<LastCommitInfo>,
    pub byzantine_validators: Vec<Evidence>,
}

/// What an application learns when a block ends.
#[derive(Clone, Debug, PartialEq, Eq)]
pub struct EndBlockCtx {
    pub height: u64,
}

/// A call as the state machine hands it to an application: a turn of the chain or of a
/// block, or a transaction to deliver or to check.
#[derive(Debug)]
pub enum ABCICall<C> {
    InitChain(InitChainCtx),
    BeginBlock(BeginBlockCtx),
    EndBlock(EndBlockCtx),
    DeliverTx(C),
    CheckTx(C),
}

} // verus!
