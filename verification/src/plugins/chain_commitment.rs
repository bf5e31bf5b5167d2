//! The chain that a call is meant for: a call names its chain, and a chain takes only
//! the calls that name it.

use crate::error::Error;
use crate::store::order;
use crate::store::order::KeyOrder;
use vstd::prelude::*;

verus! {

/// Takes a call that names the chain `given` on the chain `expected`: the call is
/// accepted where the two names are the same, byte for byte, and refused else.
pub fn check_chain_id(expected: &[u8], given: &[u8]) -> (r: Result<(), Error>)
    ensures
        given@ == expected@ ==> r is Ok,
        given@ != expected@ ==> r is Err && r->Err_0 is App && r->Err_0.detail()
            == "Invalid chain ID"@,
{
    match order::compare(expected, given) {
        KeyOrder::Same => Ok(()),
        _ => Err(Error::App(String::from_str("Invalid chain ID"))),
    }
}

} // verus!
