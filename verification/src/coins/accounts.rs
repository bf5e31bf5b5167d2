//! Accounts: the balances of addresses in one kind of coin, kept in a store.
//!
//! The store holds, under the key `0`, whether transfers are allowed; under `1` and an
//! address, that the address may transfer even where transfers are not allowed; and under
//! `2` and an address, the balance of the address in eight bytes.

use crate::coins::{Address, Amount, Coin, Symbol};
use crate::encoding;
use crate::error::Error;
use crate::plugins::payable::Paid;
use crate::plugins::signer::Signer;
use crate::store::order;
use crate::store::ordered_map;
use crate::store::store;
use crate::store::{Read, Write};
use std::marker::PhantomData;
use vstd::prelude::*;

verus! {

/// The key of the flag that allows transfers.
pub open spec fn flag_key() -> Seq<u8> {
    seq![0u8]
}

/// The key that marks `a` as free to transfer at any time.
pub open spec fn exception_key(a: Address) -> Seq<u8> {
    seq![1u8] + a@
}

/// The key of the balance of `a`.
pub open spec fn balance_key(a: Address) -> Seq<u8> {
    seq![2u8] + a@
}

/// Whether the store `m` has an account for `a`.
pub open spec fn has_account(m: Map<Seq<u8>, Seq<u8>>, a: Address) -> bool {
    m.contains_key(balance_key(a))
}

/// The balance of `a` in the store `m`: nothing where `a` has no account.
pub open spec fn balance_in(m: Map<Seq<u8>, Seq<u8>>, a: Address) -> nat {
    if has_account(m, a) {
        encoding::be_value(m[balance_key(a)])
    } else {
        0
    }
}

/// Whether the store `m` allows transfers.
pub open spec fn transfers_allowed_in(m: Map<Seq<u8>, Seq<u8>>) -> bool {
    m.contains_key(flag_key()) && m[flag_key()] == seq![1u8]
}

/// Whether `a` may transfer in the store `m` even where transfers are not allowed.
pub open spec fn is_exception_in(m: Map<Seq<u8>, Seq<u8>>, a: Address) -> bool {
    m.contains_key(exception_key(a))
}

/// Whether every balance in the store `m` is written in eight bytes.
pub open spec fn well_formed(m: Map<Seq<u8>, Seq<u8>>) -> bool {
    forall|a: Address| #[trigger] has_account(m, a) ==> m[balance_key(a)].len() == 8
}

/// The store `m` with the balance `n` for `a`.
pub open spec fn with_balance(m: Map<Seq<u8>, Seq<u8>>, a: Address, n: u64) -> Map<
    Seq<u8>,
    Seq<u8>,
> {
    m.insert(balance_key(a), encoding::u64_bytes(n))
}

/// Why an operation on accounts was refused.
#[derive(Clone, Copy, Debug, PartialEq, Eq)]
pub enum Refusal {
    /// Nothing tells who signed the call.
    NoSignerContext,
    /// The call is not signed.
    Unauthorized,
    /// Transfers are not allowed, and the signer is no exception.
    TransfersDisabled,
    /// The account holds less than is to be taken, or does not exist.
    InsufficientFunds,
    /// The sum is too great to be written.
    Overflow,
    /// No funds travel with the call.
    NoPaidContext,
}

impl Refusal {
    /// Whether `e` is the error that reports this refusal.
    pub open spec fn reported_by(self, e: Error) -> bool {
        match self {
            Refusal::NoSignerContext => e is Signer && e.detail() == "No Signer context available"@,
            Refusal::Unauthorized => e is Coins && e.detail() == "Unauthorized account action"@,
            Refusal::TransfersDisabled => e is Coins && e.detail()
                == "Transfers are currently disabled"@,
            Refusal::InsufficientFunds => e is Coins && e.detail() == "Insufficient funds"@,
            Refusal::Overflow => e is Coins && e.detail() == "Overflow"@,
            Refusal::NoPaidContext => e is Coins && e.detail() == "No Paid context found"@,
        }
    }
}

/// Whether the result `r` reports the outcome `refusal`: success where nothing was
/// refused, else the error of the refusal.
pub open spec fn reports<T>(r: Result<T, Error>, refusal: Option<Refusal>) -> bool {
    match refusal {
        None => r is Ok,
        Some(why) => r is Err && why.reported_by(r->Err_0),
    }
}

/// Who acts, given what is known of the signer of the call.
pub open spec fn signer_of(ctx: Option<Signer>) -> Result<Address, Refusal> {
    match ctx {
        None => Err(Refusal::NoSignerContext),
        Some(s) => match s.signer {
            None => Err(Refusal::Unauthorized),
            Some(a) => Ok(a),
        },
    }
}

/// The store `m` after `amount` was taken from the account of `a`.
pub open spec fn debited(m: Map<Seq<u8>, Seq<u8>>, a: Address, amount: u64) -> Result<
    Map<Seq<u8>, Seq<u8>>,
    Refusal,
> {
    if !has_account(m, a) || balance_in(m, a) < amount {
        Err(Refusal::InsufficientFunds)
    } else {
        Ok(with_balance(m, a, (balance_in(m, a) - amount) as u64))
    }
}

/// The store `m` after `amount` was given to the account of `a`.
pub open spec fn credited(m: Map<Seq<u8>, Seq<u8>>, a: Address, amount: u64) -> Result<
    Map<Seq<u8>, Seq<u8>>,
    Refusal,
> {
    if balance_in(m, a) + amount > u64::MAX {
        Err(Refusal::Overflow)
    } else {
        Ok(with_balance(m, a, (balance_in(m, a) + amount) as u64))
    }
}

/// What a step that may be refused leaves: the store after it, and why it was refused,
/// if it was. A refused step leaves the store as it found it.
pub open spec fn settled(
    m: Map<Seq<u8>, Seq<u8>>,
    step: Result<Map<Seq<u8>, Seq<u8>>, Refusal>,
) -> (Map<Seq<u8>, Seq<u8>>, Option<Refusal>) {
    match step {
        Ok(after) => (after, None),
        Err(why) => (m, Some(why)),
    }
}

/// The signer of the call takes `amount` from its own account.
pub open spec fn own_coins_taken(m: Map<Seq<u8>, Seq<u8>>, ctx: Option<Signer>, amount: u64) -> (
    Map<Seq<u8>, Seq<u8>>,
    Option<Refusal>,
) {
    match signer_of(ctx) {
        Err(why) => (m, Some(why)),
        Ok(signer) => settled(m, debited(m, signer, amount)),
    }
}

/// The signer of the call gets `amount` into its own account.
pub open spec fn own_coins_given(m: Map<Seq<u8>, Seq<u8>>, ctx: Option<Signer>, amount: u64) -> (
    Map<Seq<u8>, Seq<u8>>,
    Option<Refusal>,
) {
    match signer_of(ctx) {
        Err(why) => (m, Some(why)),
        Ok(signer) => settled(m, credited(m, signer, amount)),
    }
}

/// The signer of the call transfers `amount` to `to`: refused where the call is not
/// signed, where transfers are not allowed and the signer is no exception, and where the
/// signer holds less; else the amount leaves the signer's account and, unless the sum is
/// too great to be written, arrives in the account of `to`.
pub open spec fn transferred(
    m: Map<Seq<u8>, Seq<u8>>,
    ctx: Option<Signer>,
    to: Address,
    amount: u64,
) -> (Map<Seq<u8>, Seq<u8>>, Option<Refusal>) {
    match signer_of(ctx) {
        Err(why) => (m, Some(why)),
        Ok(signer) => if !transfers_allowed_in(m) && !is_exception_in(m, signer) {
            (m, Some(Refusal::TransfersDisabled))
        } else {
            match debited(m, signer, amount) {
                Err(why) => (m, Some(why)),
                Ok(taken) => settled(taken, credited(taken, to, amount)),
            }
        },
    }
}

/// Two addresses with the same bytes are one address.
pub proof fn lemma_address_by_bytes(a: Address, b: Address)
    requires
        a@ == b@,
    ensures
        a == b,
{
    assert(a.bytes@ =~= b.bytes@);
    vstd::array::axiom_array_ext_equal(a.bytes, b.bytes);
    assert(a.bytes == b.bytes);
}

/// The keys of the balances of two addresses differ, and none of them is the key of the
/// flag or of an exception.
pub proof fn lemma_keys_apart(a: Address, b: Address)
    ensures
        balance_key(a) == balance_key(b) ==> a == b,
        exception_key(a) == exception_key(b) ==> a == b,
        balance_key(a) != exception_key(b),
        balance_key(a) != flag_key(),
        exception_key(a) != flag_key(),
{
    vstd::array::array_len_matches_n(&a.bytes);
    vstd::array::array_len_matches_n(&b.bytes);
    if balance_key(a) == balance_key(b) {
        assert(a@ =~= balance_key(a).skip(1));
        assert(b@ =~= balance_key(b).skip(1));
        lemma_address_by_bytes(a, b);
    }
    if exception_key(a) == exception_key(b) {
        assert(a@ =~= exception_key(a).skip(1));
        assert(b@ =~= exception_key(b).skip(1));
        lemma_address_by_bytes(a, b);
    }
    assert(balance_key(a)[0] == 2u8);
    assert(exception_key(b)[0] == 1u8);
    assert(balance_key(a).len() == 21);
    assert(exception_key(a).len() == 21);
}

/// Writing a balance keeps the balances well-formed, sets the balance that is written,
/// and keeps every other balance, the flag and the exceptions.
pub proof fn lemma_with_balance(m: Map<Seq<u8>, Seq<u8>>, a: Address, n: u64)
    requires
        well_formed(m),
    ensures
        well_formed(with_balance(m, a, n)),
        has_account(with_balance(m, a, n), a),
        balance_in(with_balance(m, a, n), a) == n,
        forall|b: Address|
            b != a ==> has_account(with_balance(m, a, n), b) == #[trigger] has_account(m, b)
                && balance_in(with_balance(m, a, n), b) == balance_in(m, b),
        transfers_allowed_in(with_balance(m, a, n)) == transfers_allowed_in(m),
        forall|b: Address|
            is_exception_in(with_balance(m, a, n), b) == #[trigger] is_exception_in(m, b),
{
    let after = with_balance(m, a, n);
    encoding::lemma_u64_round_trip(n);
    assert forall|b: Address| #[trigger] has_account(after, b) implies after[balance_key(
        b,
    )].len() == 8 by {
        lemma_keys_apart(a, b);
        if b != a {
            assert(has_account(m, b));
        }
    }
    assert forall|b: Address| b != a implies has_account(after, b) == #[trigger] has_account(m, b)
        && balance_in(after, b) == balance_in(m, b) by {
        lemma_keys_apart(a, b);
    }
    assert forall|b: Address| is_exception_in(after, b) == #[trigger] is_exception_in(m, b) by {
        lemma_keys_apart(a, b);
    }
    lemma_keys_apart(a, a);
}

/// A transfer that succeeds between two accounts moves the amount from the one to the
/// other, and leaves the sum of the two balances and every other balance as they were.
pub proof fn lemma_transfer_conserves(
    m: Map<Seq<u8>, Seq<u8>>,
    ctx: Option<Signer>,
    to: Address,
    amount: u64,
)
    requires
        well_formed(m),
        transferred(m, ctx, to, amount).1 is None,
    ensures
        signer_of(ctx) is Ok,
        ({
            let from = signer_of(ctx).unwrap();
            let after = transferred(m, ctx, to, amount).0;
            &&& well_formed(after)
            &&& from != to ==> balance_in(after, from) == balance_in(m, from) - amount
                && balance_in(after, to) == balance_in(m, to) + amount
            &&& from == to ==> balance_in(after, from) == balance_in(m, from)
            &&& forall|b: Address|
                b != from && b != to ==> #[trigger] balance_in(after, b) == balance_in(m, b)
        }),
{
    let from = signer_of(ctx).unwrap();
    lemma_balance_fits(m, from);
    let taken = debited(m, from, amount).unwrap();
    let left = (balance_in(m, from) - amount) as u64;
    lemma_with_balance(m, from, left);
    lemma_balance_fits(taken, to);
    let after = credited(taken, to, amount).unwrap();
    let arrived = (balance_in(taken, to) + amount) as u64;
    lemma_with_balance(taken, to, arrived);
    assert forall|b: Address| b != from && b != to implies #[trigger] balance_in(after, b)
        == balance_in(m, b) by {
        assert(has_account(taken, b) == has_account(m, b));
        assert(has_account(after, b) == has_account(taken, b));
    }
    if from != to {
        assert(has_account(after, from) == has_account(taken, from));
        assert(balance_in(after, from) == balance_in(taken, from));
        assert(has_account(taken, to) == has_account(m, to));
        assert(balance_in(taken, to) == balance_in(m, to));
    }
}

/// A well-formed balance is a number that eight bytes can write.
pub proof fn lemma_balance_fits(m: Map<Seq<u8>, Seq<u8>>, a: Address)
    requires
        well_formed(m),
    ensures
        balance_in(m, a) <= u64::MAX,
{
    if has_account(m, a) {
        encoding::lemma_be_bytes_of_value(m[balance_key(a)]);
        encoding::lemma_be_limit_u64();
    }
}

/// The accounts of the coin `S` in the store `W`.
pub struct Accounts<S, W> {
    store: W,
    symbol: PhantomData<S>,
}

impl<S: Symbol, W: Write> Accounts<S, W> {
    /// What the store holds.
    pub closed spec fn view(&self) -> Map<Seq<u8>, Seq<u8>> {
        self.store@
    }

    /// The store itself.
    pub closed spec fn backing(&self) -> W {
        self.store
    }

    /// Whether the store never fails and every balance in it is well-formed.
    pub open spec fn sound(&self) -> bool {
        self.backing().reliable() && well_formed(self@) && self@ == self.backing()@
    }

    /// The accounts that `store` holds.
    pub fn new(store: W) -> (a: Self)
        ensures
            a.backing() == store,
            a@ == store@,
    {
        Accounts { store, symbol: PhantomData }
    }

    /// Gives the store back.
    pub fn into_inner(self) -> (store: W)
        ensures
            store == self.backing(),
    {
        self.store
    }

    /// The key of the balance of `a`.
    fn key_of_balance(a: &Address) -> (k: Vec<u8>)
        ensures
            k@ == balance_key(*a),
    {
        let mut head: Vec<u8> = Vec::new();
        head.push(2);
        let k = store::concat(head.as_slice(), a.bytes());
        assert(k@ =~= balance_key(*a));
        k
    }

    /// The key that marks `a` as an exception.
    fn key_of_exception(a: &Address) -> (k: Vec<u8>)
        ensures
            k@ == exception_key(*a),
    {
        let mut head: Vec<u8> = Vec::new();
        head.push(1);
        let k = store::concat(head.as_slice(), a.bytes());
        assert(k@ =~= exception_key(*a));
        k
    }

    /// The key of the flag.
    fn key_of_flag() -> (k: Vec<u8>)
        ensures
            k@ == flag_key(),
    {
        let mut k: Vec<u8> = Vec::new();
        k.push(0);
        assert(k@ =~= flag_key());
        k
    }

    /// Reads the balance of `a`: `None` where `a` has no account.
    fn read_balance(&self, a: &Address) -> (r: Result<Option<u64>, Error>)
        ensures
            self.sound() ==> r is Ok && match r.unwrap() {
                Some(n) => has_account(self@, *a) && n == balance_in(self@, *a),
                None => !has_account(self@, *a),
            },
    {
        let key = Self::key_of_balance(a);
        let found = match self.store.get(key.as_slice()) {
            Ok(found) => found,
            Err(e) => {
                return Err(e);
            },
        };
        match found {
            None => Ok(None),
            Some(bytes) => {
                proof {
                    if self.sound() {
                        assert(has_account(self@, *a));
                    }
                }
                match encoding::decode_u64(bytes.as_slice()) {
                    Some(n) => Ok(Some(n)),
                    None => Err(Error::Store(String::from_str("Stored balance is malformed"))),
                }
            },
        }
    }

    /// Writes the balance `n` for `a`.
    fn write_balance(&mut self, a: &Address, n: u64) -> (r: Result<(), Error>)
        ensures
            old(self).sound() ==> r is Ok && final(self).sound() && final(self)@ == with_balance(
                old(self)@,
                *a,
                n,
            ),
    {
        proof {
            if self.sound() {
                lemma_with_balance(self@, *a, n);
            }
        }
        self.store.put(Self::key_of_balance(a), encoding::encode_u64(n))
    }

    /// Who acts, given what is known of the signer of the call.
    pub fn signer(ctx: Option<&Signer>) -> (r: Result<Address, Error>)
        ensures
            match signer_of(signer_view(ctx)) {
                Ok(a) => r == Ok::<Address, Error>(a),
                Err(why) => r is Err && why.reported_by(r->Err_0),
            },
    {
        match ctx {
            None => Err(Error::Signer(String::from_str("No Signer context available"))),
            Some(s) => match s.signer {
                None => Err(Error::Coins(String::from_str("Unauthorized account action"))),
                Some(a) => Ok(a),
            },
        }
    }

    /// Takes `amount` from the account of `a`.
    fn debit(&mut self, a: &Address, amount: Amount) -> (r: Result<Coin<S>, Error>)
        ensures
            old(self).sound() ==> {
                let expected = settled(old(self)@, debited(old(self)@, *a, amount.value));
                &&& final(self).sound()
                &&& final(self)@ == expected.0
                &&& reports(r, expected.1)
                &&& r is Ok ==> r.unwrap().amount == amount
            },
    {
        let held = match self.read_balance(a) {
            Ok(held) => held,
            Err(e) => {
                return Err(e);
            },
        };
        match held {
            None => Err(Error::Coins(String::from_str("Insufficient funds"))),
            Some(n) => {
                let mut account: Coin<S> = Coin::mint(Amount::new(n));
                let taken = match account.take(amount) {
                    Ok(taken) => taken,
                    Err(e) => {
                        return Err(e);
                    },
                };
                match self.write_balance(a, account.amount.value) {
                    Ok(()) => Ok(taken),
                    Err(e) => Err(e),
                }
            },
        }
    }

    /// Gives `coins` to the account of `a`, which comes to be if it was not there.
    fn credit(&mut self, a: &Address, coins: Coin<S>) -> (r: Result<(), Error>)
        ensures
            old(self).sound() ==> {
                let expected = settled(old(self)@, credited(old(self)@, *a, coins.amount.value));
                &&& final(self).sound()
                &&& final(self)@ == expected.0
                &&& reports(r, expected.1)
            },
    {
        let held = match self.read_balance(a) {
            Ok(Some(n)) => n,
            Ok(None) => 0,
            Err(e) => {
                return Err(e);
            },
        };
        let mut account: Coin<S> = Coin::mint(Amount::new(held));
        match account.give(coins) {
            Ok(()) => {},
            Err(e) => {
                return Err(e);
            },
        }
        self.write_balance(a, account.amount.value)
    }

    /// Whether transfers are allowed.
    fn transfers_allowed(&self) -> (r: Result<bool, Error>)
        ensures
            self.sound() ==> r == Ok::<bool, Error>(transfers_allowed_in(self@)),
    {
        let key = Self::key_of_flag();
        match self.store.get(key.as_slice()) {
            Ok(Some(bytes)) => {
                let allowed = bytes.len() == 1 && bytes[0] == 1;
                proof {
                    if allowed {
                        assert(bytes@ =~= seq![1u8]);
                    }
                }
                Ok(allowed)
            },
            Ok(None) => Ok(false),
            Err(e) => Err(e),
        }
    }

    /// Whether `a` may transfer even where transfers are not allowed.
    fn is_exception(&self, a: &Address) -> (r: Result<bool, Error>)
        ensures
            self.sound() ==> r == Ok::<bool, Error>(is_exception_in(self@, *a)),
    {
        let key = Self::key_of_exception(a);
        match self.store.get(key.as_slice()) {
            Ok(found) => Ok(found.is_some()),
            Err(e) => Err(e),
        }
    }

    /// The signer of the call transfers `amount` to `to`.
    pub fn transfer(&mut self, ctx: Option<&Signer>, to: Address, amount: Amount) -> (r: Result<
        (),
        Error,
    >)
        ensures
            old(self).sound() ==> {
                let expected = transferred(old(self)@, signer_view(ctx), to, amount.value);
                &&& final(self).sound()
                &&& final(self)@ == expected.0
                &&& reports(r, expected.1)
            },
    {
        let signer = match Self::signer(ctx) {
            Ok(a) => a,
            Err(e) => {
                return Err(e);
            },
        };
        let allowed = match self.transfers_allowed() {
            Ok(allowed) => allowed,
            Err(e) => {
                return Err(e);
            },
        };
        if !allowed {
            let excepted = match self.is_exception(&signer) {
                Ok(excepted) => excepted,
                Err(e) => {
                    return Err(e);
                },
            };
            if !excepted {
                return Err(Error::Coins(String::from_str("Transfers are currently disabled")));
            }
        }
        let taken_coins = match self.debit(&signer, amount) {
            Ok(coins) => coins,
            Err(e) => {
                return Err(e);
            },
        };
        self.credit(&to, taken_coins)
    }

    /// The signer of the call takes `amount` from its own account.
    pub fn take_own_coins(&mut self, ctx: Option<&Signer>, amount: Amount) -> (r: Result<
        Coin<S>,
        Error,
    >)
        ensures
            old(self).sound() ==> {
                let expected = own_coins_taken(old(self)@, signer_view(ctx), amount.value);
                &&& final(self).sound()
                &&& final(self)@ == expected.0
                &&& reports(r, expected.1)
                &&& r is Ok ==> r.unwrap().amount == amount
            },
    {
        let signer = match Self::signer(ctx) {
            Ok(a) => a,
            Err(e) => {
                return Err(e);
            },
        };
        self.debit(&signer, amount)
    }

    /// The signer of the call gets `coins` into its own account.
    pub fn give_own_coins(&mut self, ctx: Option<&Signer>, coins: Coin<S>) -> (r: Result<(), Error>)
        ensures
            old(self).sound() ==> {
                let expected = own_coins_given(old(self)@, signer_view(ctx), coins.amount.value);
                &&& final(self).sound()
                &&& final(self)@ == expected.0
                &&& reports(r, expected.1)
            },
    {
        let signer = match Self::signer(ctx) {
            Ok(a) => a,
            Err(e) => {
                return Err(e);
            },
        };
        self.credit(&signer, coins)
    }

    /// The signer of the call moves `amount` from its own account into the funds that
    /// travel with the call. The amount has left the account by the time the funds are
    /// found to be missing or too great.
    pub fn take_as_funding(
        &mut self,
        ctx: Option<&Signer>,
        paid: &mut Option<Paid>,
        amount: Amount,
    ) -> (r: Result<(), Error>)
        ensures
            old(self).sound() ==> {
                let taken = own_coins_taken(old(self)@, signer_view(ctx), amount.value);
                &&& final(self).sound()
                &&& final(self)@ == taken.0
                &&& match taken.1 {
                    Some(why) => reports(r, Some(why)) && paid_unchanged(*old(paid), *final(paid)),
                    None => match *old(paid) {
                        None => reports(r, Some(Refusal::NoPaidContext)),
                        Some(before) => {
                            &&& (*final(paid)) is Some
                            &&& forall|other: u8|
                                other != S::INDEX ==> (*final(paid)).unwrap().funds(other)
                                    == before.funds(other)
                            &&& if before.funds(S::INDEX) + amount.value > u64::MAX {
                                &&& reports(r, Some(Refusal::Overflow))
                                &&& (*final(paid)).unwrap().funds(S::INDEX) == before.funds(
                                    S::INDEX,
                                )
                            } else {
                                r is Ok && (*final(paid)).unwrap().funds(S::INDEX) == before.funds(
                                    S::INDEX,
                                ) + amount.value
                            }
                        },
                    },
                }
            },
    {
        let taken_coins = match self.take_own_coins(ctx, amount) {
            Ok(coins) => coins,
            Err(e) => {
                return Err(e);
            },
        };
        match paid {
            None => Err(Error::Coins(String::from_str("No Paid context found"))),
            Some(paid) => paid.give::<S>(taken_coins.amount),
        }
    }

    /// The signer of the call gets `amount` from the funds that travel with the call.
    /// The amount has left the funds by the time the signer is found to be missing or
    /// the sum too great.
    pub fn give_from_funding(
        &mut self,
        ctx: Option<&Signer>,
        paid: &mut Option<Paid>,
        amount: Amount,
    ) -> (r: Result<(), Error>)
        ensures
            old(self).sound() ==> final(self).sound() && match *old(paid) {
                None => reports(r, Some(Refusal::NoPaidContext)) && final(self)@ == old(self)@,
                Some(before) => {
                    &&& (*final(paid)) is Some
                    &&& forall|other: u8|
                        other != S::INDEX ==> (*final(paid)).unwrap().funds(other) == before.funds(
                            other,
                        )
                    &&& if before.funds(S::INDEX) < amount.value {
                        &&& reports(r, Some(Refusal::InsufficientFunds))
                        &&& final(self)@ == old(self)@
                        &&& (*final(paid)).unwrap().funds(S::INDEX) == before.funds(S::INDEX)
                    } else {
                        &&& (*final(paid)).unwrap().funds(S::INDEX) == before.funds(S::INDEX)
                            - amount.value
                        &&& final(self)@ == own_coins_given(
                            old(self)@,
                            signer_view(ctx),
                            amount.value,
                        ).0
                        &&& reports(
                            r,
                            own_coins_given(old(self)@, signer_view(ctx), amount.value).1,
                        )
                    }
                },
            },
    {
        let taken_coins = match paid {
            None => {
                return Err(Error::Coins(String::from_str("No Paid context found")));
            },
            Some(paid) => match paid.take::<S>(amount) {
                Ok(coins) => coins,
                Err(e) => {
                    return Err(e);
                },
            },
        };
        self.give_own_coins(ctx, taken_coins)
    }

    /// The signer of the call gets all the funds of this coin that travel with the call.
    pub fn give_from_funding_all(&mut self, ctx: Option<&Signer>, paid: &mut Option<Paid>) -> (r:
        Result<(), Error>)
        ensures
            old(self).sound() ==> final(self).sound() && match *old(paid) {
                None => reports(r, Some(Refusal::NoPaidContext)) && final(self)@ == old(self)@,
                Some(before) => {
                    &&& (*final(paid)) is Some
                    &&& forall|other: u8|
                        other != S::INDEX ==> (*final(paid)).unwrap().funds(other) == before.funds(
                            other,
                        )
                    &&& (*final(paid)).unwrap().funds(S::INDEX) == 0
                    &&& final(self)@ == own_coins_given(
                        old(self)@,
                        signer_view(ctx),
                        before.funds(S::INDEX),
                    ).0
                    &&& reports(
                        r,
                        own_coins_given(old(self)@, signer_view(ctx), before.funds(S::INDEX)).1,
                    )
                },
            },
    {
        let taken_coins = match paid {
            None => {
                return Err(Error::Coins(String::from_str("No Paid context found")));
            },
            Some(paid) => {
                let balance = match paid.balance::<S>() {
                    Ok(balance) => balance,
                    Err(e) => {
                        return Err(e);
                    },
                };
                match paid.take::<S>(balance) {
                    Ok(coins) => coins,
                    Err(e) => {
                        return Err(e);
                    },
                }
            },
        };
        self.give_own_coins(ctx, taken_coins)
    }

    /// The balance of `address`: nothing where it has no account.
    pub fn balance(&self, address: Address) -> (r: Result<Amount, Error>)
        ensures
            self.sound() ==> r is Ok && r.unwrap().value == balance_in(self@, address),
    {
        match self.read_balance(&address) {
            Ok(Some(n)) => Ok(Amount::new(n)),
            Ok(None) => Ok(Amount::new(0)),
            Err(e) => Err(e),
        }
    }

    /// Whether `address` has an account.
    pub fn account_exists(&self, address: Address) -> (r: Result<bool, Error>)
        ensures
            self.sound() ==> r == Ok::<bool, Error>(has_account(self@, address)),
    {
        match self.read_balance(&address) {
            Ok(found) => Ok(found.is_some()),
            Err(e) => Err(e),
        }
    }

    /// Allows or forbids transfers.
    pub fn allow_transfers(&mut self, enabled: bool) -> (r: Result<(), Error>)
        ensures
            old(self).sound() ==> r is Ok && final(self).sound() && transfers_allowed_in(
                final(self)@,
            ) == enabled && final(self)@ == old(self)@.insert(
                flag_key(),
                if enabled {
                    seq![1u8]
                } else {
                    seq![0u8]
                },
            ),
    {
        let mut value: Vec<u8> = Vec::new();
        value.push(if enabled {
            1
        } else {
            0
        });
        proof {
            assert(value@ =~= if enabled {
                seq![1u8]
            } else {
                seq![0u8]
            });
            assert(seq![0u8][0] != seq![1u8][0]);
            if self.sound() {
                let after = self@.insert(flag_key(), value@);
                assert forall|a: Address| #[trigger]
                    has_account(after, a) implies after[balance_key(a)].len() == 8 by {
                    lemma_keys_apart(a, a);
                    assert(has_account(self@, a));
                }
            }
        }
        self.store.put(Self::key_of_flag(), value)
    }

    /// Lets `address` transfer even where transfers are not allowed.
    pub fn add_transfer_exception(&mut self, address: Address) -> (r: Result<(), Error>)
        ensures
            old(self).sound() ==> r is Ok && final(self).sound() && is_exception_in(
                final(self)@,
                address,
            ) && final(self)@ == old(self)@.insert(exception_key(address), Seq::<u8>::empty()),
    {
        proof {
            if self.sound() {
                let after = self@.insert(exception_key(address), Seq::<u8>::empty());
                assert forall|a: Address| #[trigger]
                    has_account(after, a) implies after[balance_key(a)].len() == 8 by {
                    lemma_keys_apart(a, address);
                    assert(has_account(self@, a));
                }
            }
        }
        self.store.put(Self::key_of_exception(&address), Vec::new())
    }

    /// Gives `coins` to the account of `address`.
    pub fn deposit(&mut self, address: Address, coins: Coin<S>) -> (r: Result<(), Error>)
        ensures
            old(self).sound() ==> {
                let expected = settled(
                    old(self)@,
                    credited(old(self)@, address, coins.amount.value),
                );
                &&& final(self).sound()
                &&& final(self)@ == expected.0
                &&& reports(r, expected.1)
            },
    {
        self.credit(&address, coins)
    }

    /// Takes `amount` from the account of `address`, which comes to be, empty, if it was
    /// not there.
    pub fn withdraw(&mut self, address: Address, amount: Amount) -> (r: Result<Coin<S>, Error>)
        ensures
            old(self).sound() ==> final(self).sound() && if balance_in(old(self)@, address)
                < amount.value {
                reports(r, Some(Refusal::InsufficientFunds)) && final(self)@ == old(self)@
            } else {
                r is Ok && r.unwrap().amount == amount && final(self)@ == with_balance(
                    old(self)@,
                    address,
                    (balance_in(old(self)@, address) - amount.value) as u64,
                )
            },
    {
        let held = match self.read_balance(&address) {
            Ok(Some(n)) => n,
            Ok(None) => 0,
            Err(e) => {
                return Err(e);
            },
        };
        let mut account: Coin<S> = Coin::mint(Amount::new(held));
        let taken = match account.take(amount) {
            Ok(taken) => taken,
            Err(e) => {
                return Err(e);
            },
        };
        match self.write_balance(&address, account.amount.value) {
            Ok(()) => Ok(taken),
            Err(e) => Err(e),
        }
    }
}

/// The key that comes before the keys of all balances.
pub open spec fn balances_start() -> Seq<u8> {
    seq![2u8]
}

/// Whether the address `a` is in the list `list` of accounts.
pub open spec fn listed(list: Seq<(Address, Amount)>, a: Address) -> bool {
    exists|i: int| 0 <= i < list.len() && (#[trigger] list[i]).0 == a
}

/// `keys` are keys of the store `m`, in ascending order, that come after the start of
/// the balances and not after `last`.
pub open spec fn read_up_to(m: Map<Seq<u8>, Seq<u8>>, keys: Seq<Seq<u8>>, last: Seq<u8>) -> bool {
    &&& ordered_map::ascending(keys)
    &&& forall|i: int|
        0 <= i < keys.len() ==> m.contains_key(#[trigger] keys[i]) && order::key_lt(
            balances_start(),
            keys[i],
        ) && order::key_le(keys[i], last)
}

/// What a walk through the balances of the store `m` gives that reads `limit` keys at
/// most. The list `list` holds accounts of the store, each with its balance, in the
/// order of their keys. Where the walk has come to the end of the balances, `rest` is
/// `None` and every account is in the list. Where it has stopped before, it has read
/// `limit` keys, `rest` is the last of them, and every account up to that key is in the
/// list.
pub open spec fn walked(
    m: Map<Seq<u8>, Seq<u8>>,
    list: Seq<(Address, Amount)>,
    rest: Option<Seq<u8>>,
    limit: nat,
) -> bool {
    &&& forall|i: int|
        0 <= i < list.len() ==> has_account(m, (#[trigger] list[i]).0) && list[i].1.value
            == balance_in(m, list[i].0)
    &&& forall|i: int, j: int|
        0 <= i < j < list.len() ==> order::key_lt(
            balance_key((#[trigger] list[i]).0),
            balance_key((#[trigger] list[j]).0),
        )
    &&& forall|a: Address|
        #![trigger has_account(m, a)]
        has_account(m, a) ==> listed(list, a) || (rest is Some && order::key_lt(
            rest.unwrap(),
            balance_key(a),
        ))
    &&& rest is Some ==> exists|keys: Seq<Seq<u8>>|
        #![trigger read_up_to(m, keys, rest.unwrap())]
        read_up_to(m, keys, rest.unwrap()) && keys.len() == limit
}

/// A key that comes after the start of the balances has a first byte, and that byte is
/// no less than the byte of the balances.
pub proof fn lemma_after_start(k: Seq<u8>)
    requires
        order::key_le(balances_start(), k),
    ensures
        k.len() > 0,
        k[0] >= 2,
{
    reveal_with_fuel(order::key_lt, 2);
}

/// A key with a greater first byte than the byte of the balances comes after the key of
/// every balance.
pub proof fn lemma_past_balances(k: Seq<u8>, a: Address)
    requires
        k.len() > 0,
        k[0] > 2,
    ensures
        order::key_lt(balance_key(a), k),
{
    reveal_with_fuel(order::key_lt, 2);
    assert(balance_key(a)[0] == 2u8);
}

/// The key of every balance comes after the start of the balances.
pub proof fn lemma_balance_after_start(a: Address)
    ensures
        order::key_lt(balances_start(), balance_key(a)),
{
    vstd::array::array_len_matches_n(&a.bytes);
    order::lemma_lt_prefix(balances_start(), Seq::<u8>::empty(), a@);
    assert(balances_start() + Seq::<u8>::empty() =~= balances_start());
}

/// The address whose balance is kept under `key`.
fn address_of(key: &[u8]) -> (a: Address)
    requires
        key@.len() == 21,
    ensures
        a@ == key@.skip(1),
{
    let mut bytes = [0u8;20];
    let mut i: usize = 0;
    while i < 20
        invariant
            i <= 20,
            key@.len() == 21,
            forall|j: int| 0 <= j < i ==> bytes@[j] == key@[j + 1],
        decreases 20 - i,
    {
        bytes[i] = key[i + 1];
        i = i + 1;
    }
    let a = Address { bytes };
    assert(a@ =~= key@.skip(1));
    a
}

impl<S: Symbol, W: Write> Accounts<S, W> {
    /// Walks through the accounts in the order of their addresses, reading `limit` keys
    /// of the store at most: the accounts that the walk has met, each with its balance,
    /// and the key at which the walk has stopped, if it has not come to the end.
    pub fn iter(&self, limit: usize) -> (r: Result<
        (Vec<(Address, Amount)>, Option<Vec<u8>>),
        Error,
    >)
        ensures
            self.sound() ==> r is Ok && walked(
                self@,
                r.unwrap().0@,
                ordered_map::bound_view_owned(r.unwrap().1),
                limit as nat,
            ),
    {
        let mut list: Vec<(Address, Amount)> = Vec::new();
        let mut cursor: Vec<u8> = Vec::new();
        cursor.push(2);
        assert(cursor@ =~= balances_start());
        let ghost mut keys: Seq<Seq<u8>> = Seq::empty();
        let mut n: usize = 0;
        proof {
            assert forall|a: Address| #[trigger]
                has_account(self@, a) implies order::key_lt(cursor@, balance_key(a)) by {
                lemma_balance_after_start(a);
            }
            // No key was read yet, and the key of every balance is still to come.
            assert(read_up_to(self@, keys, Some(cursor@).unwrap()));
        }
        while n < limit
            invariant
                n <= limit,
                keys.len() == n,
                order::key_le(balances_start(), cursor@),
                self.sound() ==> read_up_to(self@, keys, cursor@),
                self.sound() ==> walked(self@, list@, Some(cursor@), n as nat),
                self.sound() ==> forall|i: int|
                    0 <= i < list@.len() ==> order::key_le(
                        balance_key((#[trigger] list@[i]).0),
                        cursor@,
                    ),
            decreases limit - n,
        {
            let found = match self.store.get_next(cursor.as_slice()) {
                Ok(found) => found,
                Err(e) => {
                    return Err(e);
                },
            };
            let (k, v) = match found {
                Some(entry) => entry,
                None => {
                    proof {
                        if self.sound() {
                            assert forall|a: Address| #[trigger]
                                has_account(self@, a) implies listed(list@, a) by {
                                assert(self@.dom().contains(balance_key(a)));
                            }
                        }
                    }
                    return Ok((list, None));
                },
            };
            proof {
                order::lemma_le_lt(balances_start(), cursor@, k@);
                lemma_after_start(k@);
            }
            if k[0] != 2 {
                proof {
                    if self.sound() {
                        assert forall|a: Address| #[trigger]
                            has_account(self@, a) implies listed(list@, a) by {
                            lemma_past_balances(k@, a);
                            order::lemma_lt_asymmetric(balance_key(a), k@);
                            assert(self@.dom().contains(balance_key(a)));
                        }
                    }
                }
                return Ok((list, None));
            }
            let ghost before = list@;
            if k.len() == 21 {
                let a = address_of(k.as_slice());
                proof {
                    assert(balance_key(a) =~= k@);
                    if self.sound() {
                        assert(has_account(self@, a));
                    }
                }
                match encoding::decode_u64(v.as_slice()) {
                    Some(held) => {
                        list.push((a, Amount::new(held)));
                    },
                    None => {
                        return Err(Error::Store(String::from_str("Stored balance is malformed")));
                    },
                }
            }
            proof {
                if self.sound() {
                    let m = self@;
                    let c = cursor@;
                    assert forall|i: int| 0 <= i < before.len() implies order::key_lt(
                        balance_key((#[trigger] before[i]).0),
                        k@,
                    ) by {
                        order::lemma_le_lt(balance_key(before[i].0), c, k@);
                    }
                    assert forall|i: int| 0 <= i < keys.len() implies order::key_lt(
                        #[trigger] keys[i],
                        k@,
                    ) by {
                        order::lemma_le_lt(keys[i], c, k@);
                    }
                    assert forall|i: int| 0 <= i < list@.len() implies (i < before.len()
                        && list@[i] == before[i]) || (i == before.len() && balance_key(
                        (#[trigger] list@[i]).0,
                    ) == k@ && list@[i].1.value == balance_in(m, list@[i].0)) by {}
                    assert forall|i: int| 0 <= i < list@.len() implies has_account(
                        m,
                        (#[trigger] list@[i]).0,
                    ) && list@[i].1.value == balance_in(m, list@[i].0) && order::key_le(
                        balance_key(list@[i].0),
                        k@,
                    ) by {
                        if i < before.len() {
                            assert(list@[i] == before[i]);
                        }
                    }
                    assert forall|i: int, j: int| 0 <= i < j < list@.len() implies order::key_lt(
                        balance_key((#[trigger] list@[i]).0),
                        balance_key((#[trigger] list@[j]).0),
                    ) by {
                        assert(list@[i] == before[i]);
                        if j < before.len() {
                            assert(list@[j] == before[j]);
                        }
                    }
                    assert forall|a: Address| #[trigger] has_account(m, a) implies listed(list@, a)
                        || order::key_lt(k@, balance_key(a)) by {
                        if listed(before, a) {
                            let i = choose|i: int| 0 <= i < before.len() && (#[trigger] before[i]).0 == a;
                            assert(list@[i].0 == a);
                        } else {
                            order::lemma_lt_total(k@, balance_key(a));
                            assert(m.dom().contains(balance_key(a)));
                            if order::key_lt(balance_key(a), k@) {
                                order::lemma_lt_asymmetric(balance_key(a), k@);
                            } else if balance_key(a) == k@ {
                                vstd::array::array_len_matches_n(&a.bytes);
                                assert(k@.len() == 21);
                                assert(list@.last().0@ =~= a@);
                                lemma_address_by_bytes(list@.last().0, a);
                                assert(list@[list@.len() - 1].0 == a);
                            }
                        }
                    }
                    assert(read_up_to(m, keys.push(k@), Some(k@).unwrap()));
                }
                keys = keys.push(k@);
            }
            cursor = k;
            n = n + 1;
        }
        Ok((list, Some(cursor)))
    }
}

/// What is known of the signer of a call, as a value.
pub open spec fn signer_view(ctx: Option<&Signer>) -> Option<Signer> {
    match ctx {
        Some(s) => Some(*s),
        None => None,
    }
}

/// The funds that travel with the call are as they were.
pub open spec fn paid_unchanged(before: Option<Paid>, after: Option<Paid>) -> bool {
    match (before, after) {
        (Some(b), Some(a)) => forall|index: u8| a.funds(index) == b.funds(index),
        (None, None) => true,
        _ => false,
    }
}

} // verus!
