//! The change of a state from one form into another.

use crate::error::Error;
use std::marker::PhantomData;
use vstd::prelude::*;

verus! {

/// A state that can be made from a state of the form `T`.
pub trait MigrateFrom<T>: Sized {
    fn migrate_from(other: T) -> (r: Result<Self, Error>);
}

/// A state that can be made into a state of the form `T`.
pub trait MigrateInto<T>: Sized {
    fn migrate_into(self) -> (r: Result<T, Error>);
}

impl<T, U: MigrateFrom<T>> MigrateInto<U> for T {
    /// What `U` makes of this state: the result is the result of `U::migrate_from`.
    fn migrate_into(self) -> (r: Result<U, Error>)
        ensures
            call_ensures(U::migrate_from, (self,), r),
    {
        U::migrate_from(self)
    }
}

impl<A, B> MigrateFrom<PhantomData<A>> for PhantomData<B> {
    /// A marker carries nothing: the new one is made, whatever the old one was.
    fn migrate_from(other: PhantomData<A>) -> (r: Result<Self, Error>)
        ensures
            r == Ok::<Self, Error>(PhantomData),
    {
        Ok(PhantomData)
    }
}

} // verus!
