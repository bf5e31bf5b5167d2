//! Values as bytes: the encoding of calls.

use vstd::prelude::*;

verus! {

/// Why a value could not be encoded or decoded.
#[derive(Clone, Debug, PartialEq, Eq)]
pub enum EncodingError {
    /// A byte that cannot stand where it stands.
    UnexpectedByte(u8),
    /// A value that has no encoding.
    UnencodableVariant,
    /// The bytes ended before the value did.
    UnexpectedEof,
    /// The bytes do not encode a value; the text says why.
    InvalidData(String),
}

/// A value that can be written as bytes.
pub trait Encode {
    /// The number of bytes that `encode_into` appends.
    fn encoding_length(&self) -> (r: Result<usize, EncodingError>);

    /// Appends the encoding of the value to `dest`.
    fn encode_into(&self, dest: &mut Vec<u8>) -> (r: Result<(), EncodingError>);
}

/// A value that can be read from bytes.
pub trait Decode: Sized {
    /// Reads a value from the whole of `bytes`.
    fn decode(bytes: &[u8]) -> (r: Result<Self, EncodingError>);
}

/// The `len` bytes that write `n`, the most significant first; where `n` needs more
/// bytes, its least significant ones.
pub open spec fn be_bytes(n: nat, len: nat) -> Seq<u8>
    decreases len,
{
    if len == 0 {
        Seq::empty()
    } else {
        be_bytes(n / 256, (len - 1) as nat).push((n % 256) as u8)
    }
}

/// The number that the bytes `bytes` write, the most significant first.
pub open spec fn be_value(bytes: Seq<u8>) -> nat
    decreases bytes.len(),
{
    if bytes.len() == 0 {
        0
    } else {
        be_value(bytes.drop_last()) * 256 + bytes.last() as nat
    }
}

/// The greatest number that `len` bytes can write.
pub open spec fn be_limit(len: nat) -> nat
    decreases len,
{
    if len == 0 {
        0
    } else {
        be_limit((len - 1) as nat) * 256 + 255
    }
}

/// The eight bytes that write `n`, the most significant first.
pub open spec fn u64_bytes(n: u64) -> Seq<u8> {
    be_bytes(n as nat, 8)
}

/// `be_bytes` gives as many bytes as it is asked for.
pub proof fn lemma_be_bytes_len(n: nat, len: nat)
    ensures
        be_bytes(n, len).len() == len,
    decreases len,
{
    if len > 0 {
        lemma_be_bytes_len(n / 256, (len - 1) as nat);
    }
}

/// Reading the bytes of a number that fits into them gives the number back.
pub proof fn lemma_be_round_trip(n: nat, len: nat)
    requires
        n <= be_limit(len),
    ensures
        be_value(be_bytes(n, len)) == n,
    decreases len,
{
    if len > 0 {
        let rest = be_bytes(n / 256, (len - 1) as nat);
        lemma_be_round_trip(n / 256, (len - 1) as nat);
        assert(be_bytes(n, len).drop_last() =~= rest);
    }
}

/// Bytes write a number that fits into them, and writing that number gives the bytes
/// back.
pub proof fn lemma_be_bytes_of_value(bytes: Seq<u8>)
    ensures
        be_value(bytes) <= be_limit(bytes.len()),
        be_bytes(be_value(bytes), bytes.len()) == bytes,
    decreases bytes.len(),
{
    if bytes.len() > 0 {
        lemma_be_bytes_of_value(bytes.drop_last());
        let v = be_value(bytes);
        assert(v / 256 == be_value(bytes.drop_last()));
        assert(v % 256 == bytes.last());
        assert(be_bytes(v, bytes.len()) =~= bytes);
    } else {
        assert(be_bytes(0, 0) =~= bytes);
    }
}

/// Eight bytes write the numbers up to the greatest `u64`.
pub proof fn lemma_be_limit_u64()
    ensures
        be_limit(8) == u64::MAX,
        forall|i: nat| i <= 8 ==> #[trigger] be_limit(i) <= u64::MAX,
{
    reveal_with_fuel(be_limit, 9);
    assert(be_limit(0) == 0);
    assert(be_limit(1) == 0xff);
    assert(be_limit(2) == 0xffff);
    assert(be_limit(3) == 0xff_ffff);
    assert(be_limit(4) == 0xffff_ffff);
    assert(be_limit(5) == 0xff_ffff_ffff);
    assert(be_limit(6) == 0xffff_ffff_ffff);
    assert(be_limit(7) == 0xff_ffff_ffff_ffff);
    assert(be_limit(8) == 0xffff_ffff_ffff_ffff);
    assert forall|i: nat| i <= 8 implies #[trigger] be_limit(i) <= u64::MAX by {
        if i == 0 {
        } else if i == 1 {
        } else if i == 2 {
        } else if i == 3 {
        } else if i == 4 {
        } else if i == 5 {
        } else if i == 6 {
        } else if i == 7 {
        } else {
        }
    }
}

/// Reading the eight bytes of a number gives the number back.
pub proof fn lemma_u64_round_trip(n: u64)
    ensures
        u64_bytes(n).len() == 8,
        be_value(u64_bytes(n)) == n,
{
    lemma_be_limit_u64();
    lemma_be_bytes_len(n as nat, 8);
    lemma_be_round_trip(n as nat, 8);
}

/// Writes `n` as eight bytes, the most significant first.
pub fn encode_u64(n: u64) -> (bytes: Vec<u8>)
    ensures
        bytes@ == u64_bytes(n),
        bytes@.len() == 8,
{
    let b7 = (n % 256) as u8;
    let n1 = n / 256;
    let b6 = (n1 % 256) as u8;
    let n2 = n1 / 256;
    let b5 = (n2 % 256) as u8;
    let n3 = n2 / 256;
    let b4 = (n3 % 256) as u8;
    let n4 = n3 / 256;
    let b3 = (n4 % 256) as u8;
    let n5 = n4 / 256;
    let b2 = (n5 % 256) as u8;
    let n6 = n5 / 256;
    let b1 = (n6 % 256) as u8;
    let n7 = n6 / 256;
    let b0 = (n7 % 256) as u8;
    let mut bytes: Vec<u8> = Vec::new();
    bytes.push(b0);
    bytes.push(b1);
    bytes.push(b2);
    bytes.push(b3);
    bytes.push(b4);
    bytes.push(b5);
    bytes.push(b6);
    bytes.push(b7);
    proof {
        reveal_with_fuel(be_bytes, 9);
        assert(be_bytes(n7 as nat, 1) =~= seq![b0]);
        assert(be_bytes(n6 as nat, 2) =~= seq![b0, b1]);
        assert(be_bytes(n5 as nat, 3) =~= seq![b0, b1, b2]);
        assert(be_bytes(n4 as nat, 4) =~= seq![b0, b1, b2, b3]);
        assert(be_bytes(n3 as nat, 5) =~= seq![b0, b1, b2, b3, b4]);
        assert(be_bytes(n2 as nat, 6) =~= seq![b0, b1, b2, b3, b4, b5]);
        assert(be_bytes(n1 as nat, 7) =~= seq![b0, b1, b2, b3, b4, b5, b6]);
        assert(be_bytes(n as nat, 8) =~= seq![b0, b1, b2, b3, b4, b5, b6, b7]);
        assert(bytes@ =~= seq![b0, b1, b2, b3, b4, b5, b6, b7]);
    }
    bytes
}

/// Reads a number from eight bytes, the most significant first; `None` for any other
/// number of bytes.
pub fn decode_u64(bytes: &[u8]) -> (r: Option<u64>)
    ensures
        bytes@.len() == 8 ==> r is Some && r.unwrap() == be_value(bytes@) && bytes@ == u64_bytes(
            r.unwrap(),
        ),
        bytes@.len() != 8 ==> r is None,
{
    if bytes.len() != 8 {
        return None;
    }
    let mut n: u64 = 0;
    let mut i: usize = 0;
    assert(bytes@.take(0) =~= Seq::<u8>::empty());
    while i < 8
        invariant
            i <= 8,
            bytes@.len() == 8,
            n == be_value(bytes@.take(i as int)),
        decreases 8 - i,
    {
        proof {
            lemma_be_limit_u64();
            lemma_be_bytes_of_value(bytes@.take(i as int));
            lemma_be_bytes_of_value(bytes@.take(i + 1));
            assert(bytes@.take(i + 1).drop_last() =~= bytes@.take(i as int));
            assert(be_limit((i + 1) as nat) <= u64::MAX);
        }
        n = n * 256 + bytes[i] as u64;
        i = i + 1;
    }
    proof {
        assert(bytes@.take(8) =~= bytes@);
        lemma_be_bytes_of_value(bytes@);
    }
    Some(n)
}

impl Encode for u64 {
    fn encoding_length(&self) -> (r: Result<usize, EncodingError>)
        ensures
            r == Ok::<usize, EncodingError>(8),
    {
        Ok(8)
    }

    fn encode_into(&self, dest: &mut Vec<u8>) -> (r: Result<(), EncodingError>)
        ensures
            r is Ok,
            final(dest)@ == old(dest)@ + u64_bytes(*self),
    {
        let mut bytes = encode_u64(*self);
        dest.append(&mut bytes);
        Ok(())
    }
}

impl Decode for u64 {
    fn decode(bytes: &[u8]) -> (r: Result<Self, EncodingError>)
        ensures
            bytes@.len() == 8 ==> r is Ok && r.unwrap() == be_value(bytes@),
            bytes@.len() != 8 ==> r is Err,
    {
        match decode_u64(bytes) {
            Some(n) => Ok(n),
            None => if bytes.len() < 8 {
                Err(EncodingError::UnexpectedEof)
            } else {
                Err(EncodingError::UnexpectedByte(bytes[8]))
            },
        }
    }
}

} // verus!
