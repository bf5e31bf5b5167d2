//! The funds that travel with the call in progress.

use crate::coins::{Amount, Coin, Symbol};
use crate::error::Error;
use crate::store::ordered_map::OrderedMap;
use std::marker::PhantomData;
use vstd::prelude::*;

verus! {

/// The funds that travel with a call: for each kind of coin an amount that the call may
/// take from or give to.
pub struct Paid {
    map: OrderedMap<u64>,
}

impl Paid {
    /// The funds of the kind with the number `index`.
    pub closed spec fn funds(&self, index: u8) -> u64 {
        if self.map@.contains_key(seq![index]) {
            self.map@[seq![index]]
        } else {
            0
        }
    }

    /// No funds of any kind.
    pub fn new() -> (p: Self)
        ensures
            forall|index: u8| p.funds(index) == 0,
    {
        Paid { map: OrderedMap::new() }
    }

    /// The key under which the funds of the kind with the number `index` are kept.
    fn key(index: u8) -> (k: Vec<u8>)
        ensures
            k@ == seq![index],
    {
        let mut k: Vec<u8> = Vec::new();
        k.push(index);
        assert(k@ =~= seq![index]);
        k
    }

    /// Sets the funds of the kind with the number `index`.
    fn set(&mut self, index: u8, value: u64)
        ensures
            final(self).funds(index) == value,
            forall|other: u8| other != index ==> final(self).funds(other) == old(self).funds(other),
    {
        self.map.insert(Self::key(index), value);
        assert forall|other: u8| other != index implies self.funds(other) == old(self).funds(
            other,
        ) by {
            assert(seq![other][0] != seq![index][0]);
        }
    }

    /// The funds of the kind `S`.
    pub fn balance<S: Symbol>(&self) -> (r: Result<Amount, Error>)
        ensures
            r is Ok,
            r.unwrap().value == self.funds(S::INDEX),
    {
        let key = Self::key(S::INDEX);
        match self.map.get(key.as_slice()) {
            Some(v) => Ok(Amount { value: *v }),
            None => Ok(Amount { value: 0 }),
        }
    }

    /// Adds `amount` to the funds of the kind `S`; fails where the sum is too great to be
    /// written.
    pub fn give<S: Symbol>(&mut self, amount: Amount) -> (r: Result<(), Error>)
        ensures
            forall|other: u8|
                other != S::INDEX ==> final(self).funds(other) == old(self).funds(other),
            old(self).funds(S::INDEX) + amount.value <= u64::MAX ==> r is Ok && final(self).funds(
                S::INDEX,
            ) == old(self).funds(S::INDEX) + amount.value,
            old(self).funds(S::INDEX) + amount.value > u64::MAX ==> r is Err && r->Err_0 is Coins
                && r->Err_0.detail() == "Overflow"@,
            old(self).funds(S::INDEX) + amount.value > u64::MAX ==> final(self).funds(S::INDEX)
                == old(self).funds(S::INDEX),
    {
        let held = match self.balance::<S>() {
            Ok(a) => a.value,
            Err(e) => {
                return Err(e);
            },
        };
        match held.checked_add(amount.value) {
            Some(sum) => {
                self.set(S::INDEX, sum);
                Ok(())
            },
            None => Err(Error::Coins(String::from_str("Overflow"))),
        }
    }

    /// Takes `amount` out of the funds of the kind `S`; fails where there is less.
    pub fn take<S: Symbol>(&mut self, amount: Amount) -> (r: Result<Coin<S>, Error>)
        ensures
            forall|other: u8|
                other != S::INDEX ==> final(self).funds(other) == old(self).funds(other),
            old(self).funds(S::INDEX) >= amount.value ==> r is Ok && r.unwrap().amount == amount
                && final(self).funds(S::INDEX) == old(self).funds(S::INDEX) - amount.value,
            old(self).funds(S::INDEX) < amount.value ==> r is Err && r->Err_0 is Coins
                && r->Err_0.detail() == "Insufficient funds"@ && final(self).funds(S::INDEX)
                == old(self).funds(S::INDEX),
    {
        let held = match self.balance::<S>() {
            Ok(a) => a.value,
            Err(e) => {
                return Err(e);
            },
        };
        if held < amount.value {
            return Err(Error::Coins(String::from_str("Insufficient funds")));
        }
        self.set(S::INDEX, held - amount.value);
        Ok(Coin { amount, symbol: PhantomData })
    }
}

} // verus!
