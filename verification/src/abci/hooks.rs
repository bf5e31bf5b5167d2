//! What an application can do at the turns of a chain and of a block, and how it answers
//! queries that come by path. Every hook has a default that does nothing.

use crate::abci::messages::{RequestQuery, ResponseQuery, CODE_ERROR};
use crate::call::Call;
use crate::error::Error;
use crate::plugins::abci::{BeginBlockCtx, EndBlockCtx, InitChainCtx};
use vstd::prelude::*;

verus! {

/// The start of a block.
pub trait BeginBlock {
    fn begin_block(&mut self, ctx: &BeginBlockCtx) -> (r: Result<(), Error>)
        default_ensures
            r is Ok,
    {
        Ok(())
    }
}

/// The end of a block.
pub trait EndBlock {
    fn end_block(&mut self, ctx: &EndBlockCtx) -> (r: Result<(), Error>)
        default_ensures
            r is Ok,
    {
        Ok(())
    }
}

/// The start of a chain.
pub trait InitChain {
    fn init_chain(&mut self, ctx: &InitChainCtx) -> (r: Result<(), Error>)
        default_ensures
            r is Ok,
    {
        Ok(())
    }
}

/// The reply to a query that nothing handles: the error code, the height of the query,
/// a log that names the path, and nothing else.
pub open spec fn unhandled(res: ResponseQuery, request: RequestQuery) -> bool {
    &&& res.code == CODE_ERROR
    &&& res.log@ == "Query path not handled: "@ + request.path@
    &&& res.info@.len() == 0
    &&& res.index == 0
    &&& res.key@.len() == 0
    &&& res.value@.len() == 0
    &&& res.proof_ops is None
    &&& res.height == request.height
    &&& res.codespace@.len() == 0
}

/// Answers a query that nothing handles.
pub fn unhandled_query(request: &RequestQuery) -> (res: ResponseQuery)
    ensures
        unhandled(res, *request),
{
    let mut res = ResponseQuery::default();
    res.code = CODE_ERROR;
    res.height = request.height;
    let mut log = String::from_str("Query path not handled: ");
    log.append(request.path.as_str());
    res.log = log;
    res
}

/// Queries that come by path.
pub trait AbciQuery {
    fn abci_query(&self, request: &RequestQuery) -> (r: Result<ResponseQuery, Error>)
        default_ensures
            r is Ok && unhandled(r.unwrap(), *request),
    {
        Ok(unhandled_query(request))
    }
}

/// An application: it takes calls, follows the turns of the chain, and answers queries.
pub trait App: BeginBlock + EndBlock + InitChain + Call + AbciQuery {

}

impl<T: BeginBlock + EndBlock + InitChain + Call + AbciQuery> App for T {

}

} // verus!
