//! Coins: amounts of a symbol, and the addresses that hold them.

pub mod accounts;

pub use accounts::Accounts;

use crate::error::Error;
use std::marker::PhantomData;
use vstd::prelude::*;

verus! {

/// The number of bytes of an address.
pub const ADDRESS_LENGTH: usize = 20;

/// The address of an account.
#[derive(Clone, Copy, Debug, PartialEq, Eq)]
pub struct Address {
    pub bytes: [u8; 20],
}

impl Address {
    /// The bytes of the address.
    pub open spec fn view(&self) -> Seq<u8> {
        self.bytes@
    }

    /// The address of all zeros.
    pub fn null() -> (a: Address)
        ensures
            a@ == Seq::new(20, |i: int| 0u8),
    {
        let a = Address { bytes: [0u8;20] };
        assert(a@ =~= Seq::new(20, |i: int| 0u8));
        a
    }

    /// The bytes of the address.
    pub fn bytes(&self) -> (b: &[u8])
        ensures
            b@ == self@,
            b@.len() == ADDRESS_LENGTH,
    {
        self.bytes.as_slice()
    }
}

/// A number of coins.
#[derive(Clone, Copy, Debug, PartialEq, Eq)]
pub struct Amount {
    pub value: u64,
}

impl Amount {
    /// The amount of `value` coins.
    pub fn new(value: u64) -> (a: Amount)
        ensures
            a.value == value,
    {
        Amount { value }
    }
}

/// A kind of coin.
pub trait Symbol {
    /// The number by which the kind is told from the others.
    const INDEX: u8;
}

/// Coins of the kind `S`.
#[derive(Debug)]
pub struct Coin<S> {
    pub amount: Amount,
    pub symbol: PhantomData<S>,
}

impl<S> Coin<S> {
    /// `amount` coins.
    pub fn mint(amount: Amount) -> (c: Self)
        ensures
            c.amount == amount,
    {
        Coin { amount, symbol: PhantomData }
    }

    /// Takes `amount` coins out of these; fails where there are fewer.
    pub fn take(&mut self, amount: Amount) -> (r: Result<Coin<S>, Error>)
        ensures
            old(self).amount.value >= amount.value ==> r is Ok && r.unwrap().amount == amount
                && final(self).amount.value == old(self).amount.value - amount.value,
            old(self).amount.value < amount.value ==> r is Err && r->Err_0 is Coins
                && r->Err_0.detail() == "Insufficient funds"@,
            old(self).amount.value < amount.value ==> final(self).amount == old(self).amount,
    {
        if self.amount.value < amount.value {
            return Err(Error::Coins(String::from_str("Insufficient funds")));
        }
        self.amount = Amount { value: self.amount.value - amount.value };
        Ok(Coin { amount, symbol: PhantomData })
    }

    /// Adds the coins `other` to these; fails where the sum is too great to be written.
    pub fn give(&mut self, other: Coin<S>) -> (r: Result<(), Error>)
        ensures
            old(self).amount.value + other.amount.value <= u64::MAX ==> r is Ok
                && final(self).amount.value == old(self).amount.value + other.amount.value,
            old(self).amount.value + other.amount.value > u64::MAX ==> r is Err && r->Err_0
                is Coins && r->Err_0.detail() == "Overflow"@,
            old(self).amount.value + other.amount.value > u64::MAX ==> final(self).amount == old(
                self,
            ).amount,
    {
        match self.amount.value.checked_add(other.amount.value) {
            Some(sum) => {
                self.amount = Amount { value: sum };
                Ok(())
            },
            None => Err(Error::Coins(String::from_str("Overflow"))),
        }
    }
}

} // verus!
