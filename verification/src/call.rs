//! Calls: the requests that change the state of an application.

use crate::error::Error;
use vstd::prelude::*;

verus! {

/// A part of an application that takes calls.
pub trait Call {
    /// What a call to this part looks like.
    type Call;

    /// Carries out `call`.
    fn call(&mut self, call: Self::Call) -> (r: Result<(), Error>);
}

} // verus!
