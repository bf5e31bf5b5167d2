//! The outermost layer of an application: it takes a call in the native encoding or as
//! a foreign transaction, and hands the layer below a call of its own kind.

pub mod sdk;

use crate::abci::hooks::{AbciQuery, BeginBlock, EndBlock, InitChain};
use crate::abci::messages::{RequestQuery, ResponseQuery};
use crate::call::Call as CallTrait;
use crate::encoding::{Decode, Encode, EncodingError};
use crate::error::Error;
use crate::migrate::{MigrateFrom, MigrateInto};
use crate::plugins::abci::{BeginBlockCtx, EndBlockCtx, InitChainCtx};
use crate::plugins::sdk_compat::sdk::TxCodec;
use std::marker::PhantomData;
use vstd::prelude::*;
use vstd::slice::slice_subrange;

verus! {

/// The greatest number of bytes that a call may take in its encoded form.
pub const MAX_CALL_SIZE: usize = 65_535;

/// The first byte of a call in the native encoding.
pub const NATIVE_CALL_FLAG: u8 = 0xff;

/// The layer that accepts native calls and foreign transactions for the layer `T`.
pub struct SdkCompatPlugin<S, T> {
    pub symbol: PhantomData<S>,
    pub inner: T,
}

impl<S1, S2, T1: MigrateInto<T2>, T2> MigrateFrom<SdkCompatPlugin<S1, T1>> for SdkCompatPlugin<
    S2,
    T2,
> {
    /// The layer over the migrated layer below: it holds what the migration of the layer
    /// below has made, and fails with the error of that migration where it fails.
    fn migrate_from(other: SdkCompatPlugin<S1, T1>) -> (r: Result<Self, Error>)
        ensures
            exists|below: Result<T2, Error>|
                #[trigger] call_ensures(T1::migrate_into, (other.inner,), below) && match below {
                    Ok(inner) => r is Ok && r.unwrap().inner == inner,
                    Err(e) => r == Err::<Self, Error>(e),
                },
    {
        let symbol: PhantomData<S2> = match other.symbol.migrate_into() {
            Ok(symbol) => symbol,
            Err(e) => {
                return Err(e);
            },
        };
        match other.inner.migrate_into() {
            Ok(inner) => Ok(SdkCompatPlugin { symbol, inner }),
            Err(e) => Err(e),
        }
    }
}

/// A call as it arrives: in the native form, or as a foreign transaction.
#[derive(Debug)]
pub enum Call<T> {
    Native(T),
    Sdk(sdk::Tx),
}

/// Turns a foreign transaction into a call of the wrapped layer.
pub trait ConvertSdkTx {
    type Output;

    fn convert(&self, msg: &sdk::Tx) -> (r: Result<Self::Output, Error>);
}

/// What the bytes of a call are taken for.
#[derive(Clone, Copy, Debug, PartialEq, Eq)]
pub enum Envelope {
    /// A call in the native encoding, after the flag byte.
    Native,
    /// A foreign transaction as JSON.
    Amino,
    /// A foreign transaction in the Protocol Buffers encoding.
    Protobuf,
}

/// What the bytes `bytes` of a call are taken for, by their number and their first byte:
/// more bytes than a call may have are refused, and so is a call without bytes.
pub open spec fn envelope_of(bytes: Seq<u8>) -> Result<Envelope, EncodingError> {
    if bytes.len() > MAX_CALL_SIZE {
        Err(EncodingError::UnexpectedByte(0))
    } else if bytes.len() == 0 {
        Err(EncodingError::UnexpectedEof)
    } else if bytes[0] == NATIVE_CALL_FLAG {
        Ok(Envelope::Native)
    } else if bytes[0] == sdk::JSON_OPEN {
        Ok(Envelope::Amino)
    } else {
        Ok(Envelope::Protobuf)
    }
}

/// Tells what the bytes of a call are to be taken for.
pub fn classify(bytes: &[u8]) -> (r: Result<Envelope, EncodingError>)
    ensures
        r == envelope_of(bytes@),
{
    if bytes.len() > MAX_CALL_SIZE {
        Err(EncodingError::UnexpectedByte(0))
    } else if bytes.len() == 0 {
        Err(EncodingError::UnexpectedEof)
    } else if bytes[0] == NATIVE_CALL_FLAG {
        Ok(Envelope::Native)
    } else if bytes[0] == sdk::JSON_OPEN {
        Ok(Envelope::Amino)
    } else {
        Ok(Envelope::Protobuf)
    }
}

/// The number of bytes of a native call with its flag byte, given the outcome `inner` of
/// measuring the call itself: one more, unless that is too great a number.
pub open spec fn flagged(inner: Result<usize, EncodingError>) -> Result<usize, EncodingError> {
    match inner {
        Ok(n) => if n < usize::MAX {
            Ok((n + 1) as usize)
        } else {
            Err(EncodingError::UnencodableVariant)
        },
        Err(e) => Err(e),
    }
}

/// Computes the number of bytes of a native call with its flag byte.
pub fn flagged_length(inner: Result<usize, EncodingError>) -> (r: Result<usize, EncodingError>)
    ensures
        r == flagged(inner),
{
    match inner {
        Ok(n) => match n.checked_add(1) {
            Some(total) => Ok(total),
            None => Err(EncodingError::UnencodableVariant),
        },
        Err(e) => Err(e),
    }
}

/// What becomes of the bytes `before` of a destination, and what is returned, given the
/// outcome `inner` of a native call that has written itself behind the flag byte and
/// the bytes `written` that it has left: they are appended where the call has succeeded
/// and they are no more than a call may have; else the destination stays, and the result
/// is the error of the call, or an error for too many bytes.
pub open spec fn native_appended(
    inner: Result<(), EncodingError>,
    written: Seq<u8>,
    before: Seq<u8>,
    after: Seq<u8>,
    r: Result<(), EncodingError>,
) -> bool {
    match inner {
        Ok(_) => if written.len() <= MAX_CALL_SIZE {
            r is Ok && after == before + written
        } else {
            r == Err::<(), EncodingError>(EncodingError::UnexpectedByte(0)) && after == before
        },
        Err(e) => r == Err::<(), EncodingError>(e) && after == before,
    }
}

impl<T: Encode> Call<T> {
    /// What `encoding_length` returns for the call with the codec `codec`: for a native
    /// call, one more than what the call itself says of its length; for a transaction,
    /// the length of what the codec writes for it.
    pub open spec fn measured<C: TxCodec>(
        self,
        codec: &C,
        r: Result<usize, EncodingError>,
    ) -> bool {
        match self {
            Call::Native(native) => exists|inner: Result<usize, EncodingError>|
                #[trigger] call_ensures(T::encoding_length, (&native,), inner) && r == flagged(
                    inner,
                ),
            Call::Sdk(tx) => exists|out: Result<Vec<u8>, String>|
                #[trigger] tx.encoded_by(codec, out) && r == sdk::length_of(out),
        }
    }

    /// The number of bytes of the call's encoding: one more than the native call's, or
    /// that of the transaction.
    pub fn encoding_length<C: TxCodec>(&self, codec: &C) -> (r: Result<usize, EncodingError>)
        ensures
            self.measured(codec, r),
    {
        match self {
            Call::Native(native) => flagged_length(native.encoding_length()),
            Call::Sdk(tx) => tx.encoding_length(codec),
        }
    }

    /// Appends the encoding of the call to `dest`. A native call writes itself behind the
    /// flag byte into a buffer of its own; what it has written is appended where it has
    /// succeeded and the whole is no longer than a call may be. A transaction is appended
    /// as it is encoded, unless that is longer than a call may be. Where the call or the
    /// codec fails, and where the encoding is too long, `dest` stays as it is.
    pub fn encode_into<C: TxCodec>(&self, codec: &C, dest: &mut Vec<u8>) -> (r: Result<
        (),
        EncodingError,
    >)
        ensures
            match *self {
                Call::Native(native) => exists|buffer: &mut Vec<u8>, inner: Result<(), EncodingError>|
                    #![trigger call_ensures(T::encode_into, (&native, buffer), inner)]
                    mut_ref_current(buffer)@ == seq![NATIVE_CALL_FLAG] && call_ensures(
                        T::encode_into,
                        (&native, buffer),
                        inner,
                    ) && native_appended(
                        inner,
                        mut_ref_future(buffer)@,
                        old(dest)@,
                        final(dest)@,
                        r,
                    ),
                Call::Sdk(tx) => exists|out: Result<Vec<u8>, String>|
                    #[trigger] tx.encoded_by(codec, out) && sdk::appended(
                        out,
                        old(dest)@,
                        final(dest)@,
                        r,
                    ),
            },
    {
        match self {
            Call::Native(native) => {
                let mut buffer: Vec<u8> = Vec::new();
                buffer.push(NATIVE_CALL_FLAG);
                assert(buffer@ =~= seq![NATIVE_CALL_FLAG]);
                match native.encode_into(&mut buffer) {
                    Ok(()) => sdk::append_encoded(buffer, dest),
                    Err(e) => Err(e),
                }
            },
            Call::Sdk(tx) => tx.encode_into(codec, dest),
        }
    }
}

/// What becomes of the outcome `inner` of decoding a native call: the call, as a native
/// one, or the error of the decoder.
pub open spec fn native_outcome<T>(inner: Result<T, EncodingError>) -> Result<
    Call<T>,
    EncodingError,
> {
    match inner {
        Ok(native) => Ok(Call::Native(native)),
        Err(e) => Err(e),
    }
}

/// What becomes of the outcome `inner` of decoding a transaction: the transaction, as a
/// foreign call, or the error of the decoder.
pub open spec fn foreign_outcome<T>(inner: Result<sdk::Tx, EncodingError>) -> Result<
    Call<T>,
    EncodingError,
> {
    match inner {
        Ok(tx) => Ok(Call::Sdk(tx)),
        Err(e) => Err(e),
    }
}

impl<T: Decode> Call<T> {
    /// What `decode` returns for the bytes `bytes` with the codec `codec`. Bytes that are
    /// too many or none are refused. After the flag byte comes a native call: the result
    /// is what the decoder of `T` has returned for the bytes after the flag. Anything
    /// else is a foreign transaction: the result is what the decoder of transactions
    /// returns for the whole of the bytes.
    pub open spec fn decoded<C: TxCodec>(
        codec: &C,
        bytes: &[u8],
        r: Result<Self, EncodingError>,
    ) -> bool {
        match envelope_of(bytes@) {
            Err(e) => r == Err::<Self, EncodingError>(e),
            Ok(Envelope::Native) => exists|rest: &[u8], inner: Result<T, EncodingError>|
                #![trigger call_ensures(T::decode, (rest,), inner)]
                rest@ == bytes@.skip(1) && call_ensures(T::decode, (rest,), inner) && r
                    == native_outcome(inner),
            Ok(_) => exists|inner: Result<sdk::Tx, EncodingError>|
                #![trigger sdk::Tx::decoded(codec, bytes, inner)]
                sdk::Tx::decoded(codec, bytes, inner) && r == foreign_outcome::<T>(inner),
        }
    }

    /// Reads a call from the whole of `bytes`. Bytes that are too many or none are refused
    /// before anything is decoded; after the flag byte comes a native call; anything else
    /// is a foreign transaction.
    pub fn decode<C: TxCodec>(codec: &C, bytes: &[u8]) -> (r: Result<Self, EncodingError>)
        ensures
            Self::decoded(codec, bytes, r),
    {
        match classify(bytes) {
            Err(e) => Err(e),
            Ok(Envelope::Native) => {
                let rest = slice_subrange(bytes, 1, bytes.len());
                assert(rest@ =~= bytes@.skip(1));
                let inner = T::decode(rest);
                match inner {
                    Ok(native) => Ok(Call::Native(native)),
                    Err(e) => Err(e),
                }
            },
            Ok(_) => {
                let inner = sdk::Tx::decode(codec, bytes);
                match inner {
                    Ok(tx) => Ok(Call::Sdk(tx)),
                    Err(e) => Err(e),
                }
            },
        }
    }
}

/// Decoding undoes encoding for native calls. Where `bytes` are the flag byte and the
/// bytes `written` of the native call `x`, no more than a call may have, and the decoder
/// of `T` reads nothing but `x` from `written`, `decode` returns the native call `x`:
/// exactly the flag byte is dropped.
pub proof fn lemma_native_call_is_read_back<T: Decode, C: TxCodec>(
    codec: &C,
    x: T,
    written: Seq<u8>,
    bytes: &[u8],
    r: Result<Call<T>, EncodingError>,
)
    requires
        bytes@ == seq![NATIVE_CALL_FLAG] + written,
        bytes@.len() <= MAX_CALL_SIZE,
        forall|rest: &[u8], inner: Result<T, EncodingError>|
            rest@ == written && #[trigger] call_ensures(T::decode, (rest,), inner) ==> inner
                == Ok::<T, EncodingError>(x),
        Call::<T>::decoded(codec, bytes, r),
    ensures
        r == Ok::<Call<T>, EncodingError>(Call::Native(x)),
{
    assert(bytes@[0] == NATIVE_CALL_FLAG);
    assert(bytes@.skip(1) =~= written);
}

/// The bytes of a call that do not begin with the flag byte are never read as a native
/// call, and those that begin with it are never read as a foreign transaction.
pub proof fn lemma_flag_tells_the_kind<T: Decode, C: TxCodec>(
    codec: &C,
    bytes: &[u8],
    r: Result<Call<T>, EncodingError>,
)
    requires
        Call::<T>::decoded(codec, bytes, r),
        r is Ok,
    ensures
        bytes@.len() > 0,
        r.unwrap() is Native <==> bytes@[0] == NATIVE_CALL_FLAG,
{
}

impl<S, T> CallTrait for SdkCompatPlugin<S, T> where T: CallTrait + ConvertSdkTx<Output = T::Call> {
    type Call = Call<T::Call>;

    /// Hands the layer below a native call as it is, and a foreign transaction as the
    /// call that the layer makes of it: the result is what the layer below has returned
    /// for that call, and the layer below is as its own `call` has left it. A transaction
    /// of which the layer below makes no call is refused with the error of the layer,
    /// and the layer is left as it was.
    fn call(&mut self, call: Self::Call) -> (r: Result<(), Error>)
        ensures
            match call {
                Call::Native(native) => exists|below: &mut T|
                    mut_ref_current(below) == old(self).inner
                        && mut_ref_future(below) == final(self).inner
                        && #[trigger] call_ensures(T::call, (below, native), r),
                Call::Sdk(tx) => exists|made: Result<T::Call, Error>|
                    #[trigger] call_ensures(T::convert, (&old(self).inner, &tx), made)
                        && match made {
                        Ok(native) => exists|below: &mut T|
                            mut_ref_current(below) == old(self).inner
                                && mut_ref_future(below) == final(self).inner
                                && #[trigger] call_ensures(T::call, (below, native), r),
                        Err(e) => r == Err::<(), Error>(e) && final(self).inner == old(self).inner,
                    },
            },
    {
        let call = match call {
            Call::Native(call) => call,
            Call::Sdk(tx) => match self.inner.convert(&tx) {
                Ok(call) => call,
                Err(e) => {
                    return Err(e);
                },
            },
        };
        self.inner.call(call)
    }
}

impl<S, T: BeginBlock> BeginBlock for SdkCompatPlugin<S, T> {
    /// The start of a block is the layer's below: the result is what that layer has
    /// returned, and the layer is as its own `begin_block` has left it.
    fn begin_block(&mut self, ctx: &BeginBlockCtx) -> (r: Result<(), Error>)
        ensures
            exists|below: &mut T|
                mut_ref_current(below) == old(self).inner
                    && mut_ref_future(below) == final(self).inner
                    && #[trigger] call_ensures(T::begin_block, (below, ctx), r),
    {
        self.inner.begin_block(ctx)
    }
}

impl<S, T: EndBlock> EndBlock for SdkCompatPlugin<S, T> {
    /// The end of a block is the layer's below: the result is what that layer has
    /// returned, and the layer is as its own `end_block` has left it.
    fn end_block(&mut self, ctx: &EndBlockCtx) -> (r: Result<(), Error>)
        ensures
            exists|below: &mut T|
                mut_ref_current(below) == old(self).inner
                    && mut_ref_future(below) == final(self).inner
                    && #[trigger] call_ensures(T::end_block, (below, ctx), r),
    {
        self.inner.end_block(ctx)
    }
}

impl<S, T: InitChain> InitChain for SdkCompatPlugin<S, T> {
    /// The start of the chain is the layer's below: the result is what that layer has
    /// returned, and the layer is as its own `init_chain` has left it.
    fn init_chain(&mut self, ctx: &InitChainCtx) -> (r: Result<(), Error>)
        ensures
            exists|below: &mut T|
                mut_ref_current(below) == old(self).inner
                    && mut_ref_future(below) == final(self).inner
                    && #[trigger] call_ensures(T::init_chain, (below, ctx), r),
    {
        self.inner.init_chain(ctx)
    }
}

impl<S, T: AbciQuery> AbciQuery for SdkCompatPlugin<S, T> {
    /// The answer of the layer below to the query.
    fn abci_query(&self, request: &RequestQuery) -> (r: Result<ResponseQuery, Error>)
        ensures
            call_ensures(T::abci_query, (&self.inner, request), r),
    {
        self.inner.abci_query(request)
    }
}

} // verus!
