//! The order of calls: each signed call carries the number of its place among the calls
//! of its signer.
//!
//! The store holds, under each address that has signed a call, the number of its last
//! call in eight bytes.

use crate::call::Call;
use crate::coins::accounts::lemma_address_by_bytes;
use crate::coins::Address;
use crate::encoding;
use crate::error::Error;
use crate::store::{Read, Write};
use vstd::prelude::*;
use vstd::slice::slice_to_vec;

verus! {

/// A call with the place that it claims among the calls of its signer.
#[derive(Debug)]
pub struct NonceCall<T> {
    pub nonce: Option<u64>,
    pub inner_call: T,
}

/// The number of the last call of `a` in the store `m`: 0 where `a` has made none.
pub open spec fn nonce_in(m: Map<Seq<u8>, Seq<u8>>, a: Address) -> nat {
    if m.contains_key(a@) {
        encoding::be_value(m[a@])
    } else {
        0
    }
}

/// Whether every number in the store `m` is written in eight bytes.
pub open spec fn well_formed(m: Map<Seq<u8>, Seq<u8>>) -> bool {
    forall|a: Address| #[trigger] m.contains_key(a@) ==> m[a@].len() == 8
}

/// Why a call was refused for its place.
#[derive(Clone, Copy, Debug, PartialEq, Eq)]
pub enum Refusal {
    /// A signed call that claims no place.
    MissingNonce,
    /// A call that is not signed and claims a place.
    UnexpectedNonce,
    /// A place that is not the next one of the signer.
    InvalidNonce,
}

impl Refusal {
    /// Whether `e` is the error that reports this refusal.
    pub open spec fn reported_by(self, e: Error) -> bool {
        match self {
            Refusal::MissingNonce => e is Nonce && e.detail()
                == "Signed calls must include a nonce"@,
            Refusal::UnexpectedNonce => e is Nonce && e.detail()
                == "Unsigned calls must not include a nonce"@,
            Refusal::InvalidNonce => e is Nonce && e.detail() == "Nonce is not valid"@,
        }
    }
}

/// What becomes of a call of `signer` that claims the place `nonce`, in the store `m`: the
/// store afterwards, and why the call was refused, if it was. A signed call is accepted
/// where it claims the place after the last call of its signer, and then that place is
/// the signer's last; a call that is not signed is accepted where it claims no place. A
/// refused call leaves the store as it was.
pub open spec fn admitted(
    m: Map<Seq<u8>, Seq<u8>>,
    signer: Option<Address>,
    nonce: Option<u64>,
) -> (Map<Seq<u8>, Seq<u8>>, Option<Refusal>) {
    match signer {
        None => match nonce {
            None => (m, None),
            Some(_) => (m, Some(Refusal::UnexpectedNonce)),
        },
        Some(a) => match nonce {
            None => (m, Some(Refusal::MissingNonce)),
            Some(n) => if n == nonce_in(m, a) + 1 {
                (m.insert(a@, encoding::u64_bytes(n)), None)
            } else {
                (m, Some(Refusal::InvalidNonce))
            },
        },
    }
}

/// Across the calls that are accepted, the number of the last call of each address grows
/// strictly: an accepted call of `a` makes it greater by one, and leaves the numbers of
/// all other addresses as they were. A refused call leaves every number as it was.
pub proof fn lemma_nonce_grows(m: Map<Seq<u8>, Seq<u8>>, a: Address, nonce: Option<u64>)
    requires
        well_formed(m),
    ensures
        well_formed(admitted(m, Some(a), nonce).0),
        admitted(m, Some(a), nonce).1 is None ==> nonce_in(admitted(m, Some(a), nonce).0, a)
            == nonce_in(m, a) + 1,
        admitted(m, Some(a), nonce).1 is Some ==> admitted(m, Some(a), nonce).0 == m,
        forall|b: Address| b != a ==> nonce_in(admitted(m, Some(a), nonce).0, b) == nonce_in(m, b),
{
    let after = admitted(m, Some(a), nonce).0;
    if admitted(m, Some(a), nonce).1 is None {
        let n = nonce.unwrap();
        encoding::lemma_u64_round_trip(n);
        assert forall|b: Address| #[trigger] after.contains_key(b@) implies after[b@].len()
            == 8 by {
            if b@ == a@ {
            } else {
                assert(m.contains_key(b@));
            }
        }
        assert forall|b: Address| b != a implies nonce_in(after, b) == nonce_in(m, b) by {
            if b@ == a@ {
                lemma_address_by_bytes(a, b);
            }
        }
    }
}

/// The record of the calls of each address, in the store `W`.
pub struct NoncePlugin<W> {
    store: W,
}

impl<W: Write> NoncePlugin<W> {
    /// What the store holds.
    pub closed spec fn view(&self) -> Map<Seq<u8>, Seq<u8>> {
        self.store@
    }

    /// The store itself.
    pub closed spec fn backing(&self) -> W {
        self.store
    }

    /// Whether the store never fails and every number in it is well-formed.
    pub open spec fn sound(&self) -> bool {
        self.backing().reliable() && well_formed(self@) && self@ == self.backing()@
    }

    /// The record that `store` holds.
    pub fn new(store: W) -> (p: Self)
        ensures
            p.backing() == store,
            p@ == store@,
    {
        NoncePlugin { store }
    }

    /// Gives the store back.
    pub fn into_inner(self) -> (store: W)
        ensures
            store == self.backing(),
    {
        self.store
    }

    /// The number of the last call of `address`.
    pub fn nonce(&self, address: Address) -> (r: Result<u64, Error>)
        ensures
            self.sound() ==> r is Ok && r.unwrap() == nonce_in(self@, address),
    {
        let found = match self.store.get(address.bytes()) {
            Ok(found) => found,
            Err(e) => {
                return Err(e);
            },
        };
        match found {
            None => Ok(0),
            Some(bytes) => {
                proof {
                    if self.sound() {
                        assert(self@.contains_key(address@));
                    }
                }
                match encoding::decode_u64(bytes.as_slice()) {
                    Some(n) => Ok(n),
                    None => Err(Error::Store(String::from_str("Stored nonce is malformed"))),
                }
            },
        }
    }

    /// Admits or refuses a call of `signer` that claims the place `nonce`.
    pub fn admit_call(&mut self, signer: Option<Address>, nonce: Option<u64>) -> (r: Result<
        (),
        Error,
    >)
        ensures
            old(self).sound() ==> {
                let expected = admitted(old(self)@, signer, nonce);
                &&& final(self).sound()
                &&& final(self)@ == expected.0
                &&& match expected.1 {
                    None => r is Ok,
                    Some(why) => r is Err && why.reported_by(r->Err_0),
                }
            },
    {
        match signer {
            None => match nonce {
                None => Ok(()),
                Some(_) => Err(
                    Error::Nonce(String::from_str("Unsigned calls must not include a nonce")),
                ),
            },
            Some(a) => match nonce {
                None => Err(Error::Nonce(String::from_str("Signed calls must include a nonce"))),
                Some(n) => {
                    let last = match self.nonce(a) {
                        Ok(last) => last,
                        Err(e) => {
                            return Err(e);
                        },
                    };
                    if last == u64::MAX || n != last + 1 {
                        return Err(Error::Nonce(String::from_str("Nonce is not valid")));
                    }
                    proof {
                        if self.sound() {
                            lemma_nonce_grows(self@, a, nonce);
                        }
                    }
                    self.store.put(slice_to_vec(a.bytes()), encoding::encode_u64(n))
                },
            },
        }
    }

    /// Carries out a call of `signer` that claims a place. The call is admitted or
    /// refused for its place first. A call that is refused does not reach the layer
    /// `inner`, which stays as it was. A call that is admitted is handed to `inner`: the
    /// result is what `inner` has returned for it, and the place stays taken, whatever
    /// that result is.
    pub fn call<T: Call>(
        &mut self,
        signer: Option<Address>,
        call: NonceCall<T::Call>,
        inner: &mut T,
    ) -> (r: Result<(), Error>)
        ensures
            old(self).sound() ==> {
                let expected = admitted(old(self)@, signer, call.nonce);
                &&& final(self).sound()
                &&& final(self)@ == expected.0
                &&& match expected.1 {
                    Some(why) => r is Err && why.reported_by(r->Err_0)
                        && *final(inner) == *old(inner),
                    None => exists|below: &mut T|
                        mut_ref_current(below) == *old(inner)
                            && mut_ref_future(below) == *final(inner)
                            && #[trigger] call_ensures(T::call, (below, call.inner_call), r),
                }
            },
    {
        match self.admit_call(signer, call.nonce) {
            Ok(()) => inner.call(call.inner_call),
            Err(e) => Err(e),
        }
    }
}

} // verus!
