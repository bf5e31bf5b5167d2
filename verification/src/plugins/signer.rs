//! Who signed the call in progress.

use crate::coins::Address;
use vstd::prelude::*;

verus! {

/// What the signer layer tells the layers below it: the address that signed the call in
/// progress, if the call was signed.
#[derive(Clone, Copy, Debug, PartialEq, Eq)]
pub struct Signer {
    pub signer: Option<Address>,
}

} // verus!
