//! The order of keys: byte strings compared lexicographically.

use vstd::prelude::*;

verus! {

/// `a` comes strictly before `b` in lexicographic byte order.
pub open spec fn key_lt(a: Seq<u8>, b: Seq<u8>) -> bool
    decreases a.len(),
{
    if b.len() == 0 {
        false
    } else if a.len() == 0 {
        true
    } else if a[0] == b[0] {
        key_lt(a.drop_first(), b.drop_first())
    } else {
        a[0] < b[0]
    }
}

/// `a` comes before `b`, or is `b`.
pub open spec fn key_le(a: Seq<u8>, b: Seq<u8>) -> bool {
    a == b || key_lt(a, b)
}

/// `key` begins with the bytes of `prefix`.
pub open spec fn has_prefix(key: Seq<u8>, prefix: Seq<u8>) -> bool {
    prefix.len() <= key.len() && key.subrange(0, prefix.len() as int) == prefix
}

/// How one key stands to another.
#[derive(Clone, Copy, Debug, PartialEq, Eq)]
pub enum KeyOrder {
    Before,
    Same,
    After,
}

/// No key comes before itself.
pub proof fn lemma_lt_irreflexive(a: Seq<u8>)
    ensures
        !key_lt(a, a),
    decreases a.len(),
{
    if a.len() > 0 {
        lemma_lt_irreflexive(a.drop_first());
    }
}

/// The order is transitive.
pub proof fn lemma_lt_transitive(a: Seq<u8>, b: Seq<u8>, c: Seq<u8>)
    requires
        key_lt(a, b),
        key_lt(b, c),
    ensures
        key_lt(a, c),
    decreases a.len(),
{
    if a.len() > 0 && a[0] == b[0] && b[0] == c[0] {
        lemma_lt_transitive(a.drop_first(), b.drop_first(), c.drop_first());
    }
}

/// Any two keys are equal or one comes before the other.
pub proof fn lemma_lt_total(a: Seq<u8>, b: Seq<u8>)
    ensures
        key_lt(a, b) || a == b || key_lt(b, a),
    decreases a.len(),
{
    if a.len() == 0 || b.len() == 0 {
        if a.len() == 0 && b.len() == 0 {
            assert(a =~= b);
        }
    } else if a[0] == b[0] {
        lemma_lt_total(a.drop_first(), b.drop_first());
        if a.drop_first() == b.drop_first() {
            assert(a =~= seq![a[0]] + a.drop_first());
            assert(b =~= seq![b[0]] + b.drop_first());
        }
    }
}

/// Of two keys at most one comes before the other.
pub proof fn lemma_lt_asymmetric(a: Seq<u8>, b: Seq<u8>)
    requires
        key_lt(a, b),
    ensures
        !key_lt(b, a),
        a != b,
{
    lemma_lt_irreflexive(a);
    if key_lt(b, a) {
        lemma_lt_transitive(a, b, a);
    }
}

/// `<=` followed by `<` gives `<`.
pub proof fn lemma_le_lt(a: Seq<u8>, b: Seq<u8>, c: Seq<u8>)
    requires
        key_le(a, b),
        key_lt(b, c),
    ensures
        key_lt(a, c),
{
    if a != b {
        lemma_lt_transitive(a, b, c);
    }
}

/// `<` followed by `<=` gives `<`.
pub proof fn lemma_lt_le(a: Seq<u8>, b: Seq<u8>, c: Seq<u8>)
    requires
        key_lt(a, b),
        key_le(b, c),
    ensures
        key_lt(a, c),
{
    if b != c {
        lemma_lt_transitive(a, b, c);
    }
}

/// Two keys that agree on their first `n` bytes compare as their remainders do.
pub proof fn lemma_lt_skip(a: Seq<u8>, b: Seq<u8>, n: int)
    requires
        0 <= n <= a.len(),
        n <= b.len(),
        forall|j: int| 0 <= j < n ==> a[j] == b[j],
    ensures
        key_lt(a, b) == key_lt(a.skip(n), b.skip(n)),
    decreases n,
{
    if n == 0 {
        assert(a.skip(0) =~= a);
        assert(b.skip(0) =~= b);
    } else {
        let a1 = a.drop_first();
        let b1 = b.drop_first();
        assert forall|j: int| 0 <= j < n - 1 implies a1[j] == b1[j] by {
            assert(a[j + 1] == b[j + 1]);
        }
        lemma_lt_skip(a1, b1, n - 1);
        assert(a1.skip(n - 1) =~= a.skip(n));
        assert(b1.skip(n - 1) =~= b.skip(n));
        assert(a[0] == b[0]);
    }
}

/// A common prefix does not change the order of two keys.
pub proof fn lemma_lt_prefix(p: Seq<u8>, a: Seq<u8>, b: Seq<u8>)
    ensures
        key_lt(p + a, p + b) == key_lt(a, b),
{
    let n = p.len() as int;
    assert forall|j: int| 0 <= j < n implies (p + a)[j] == (p + b)[j] by {}
    lemma_lt_skip(p + a, p + b, n);
    assert((p + a).skip(n) =~= a);
    assert((p + b).skip(n) =~= b);
}

/// The keys that begin with `p` lie together: whatever lies between two of them begins
/// with `p` too.
pub proof fn lemma_prefix_convex(p: Seq<u8>, lo: Seq<u8>, k: Seq<u8>, hi: Seq<u8>)
    requires
        has_prefix(lo, p),
        has_prefix(hi, p),
        key_le(lo, k),
        key_le(k, hi),
    ensures
        has_prefix(k, p),
    decreases p.len(),
{
    if p.len() == 0 {
        assert(k.subrange(0, 0) =~= p);
    } else if k == lo || k == hi {
    } else {
        assert(lo[0] == p[0]) by {
            assert(lo.subrange(0, p.len() as int)[0] == p[0]);
        }
        assert(hi[0] == p[0]) by {
            assert(hi.subrange(0, p.len() as int)[0] == p[0]);
        }
        assert(k.len() > 0 && k[0] == p[0]);
        let tail = p.drop_first();
        assert(lo.drop_first().subrange(0, tail.len() as int) =~= lo.subrange(
            0,
            p.len() as int,
        ).drop_first());
        assert(hi.drop_first().subrange(0, tail.len() as int) =~= hi.subrange(
            0,
            p.len() as int,
        ).drop_first());
        lemma_prefix_convex(tail, lo.drop_first(), k.drop_first(), hi.drop_first());
        assert(k.subrange(0, p.len() as int) =~= seq![k[0]] + k.drop_first().subrange(
            0,
            tail.len() as int,
        ));
        assert(p =~= seq![p[0]] + tail);
    }
}

/// Compares two keys byte by byte.
pub fn compare(a: &[u8], b: &[u8]) -> (r: KeyOrder)
    ensures
        r == KeyOrder::Before <==> key_lt(a@, b@),
        r == KeyOrder::Same <==> a@ == b@,
        r == KeyOrder::After <==> key_lt(b@, a@),
{
    let mut i: usize = 0;
    while i < a.len() && i < b.len()
        invariant
            i <= a.len(),
            i <= b.len(),
            forall|j: int| 0 <= j < i ==> a@[j] == b@[j],
        decreases a.len() - i,
    {
        if a[i] != b[i] {
            proof {
                lemma_lt_skip(a@, b@, i as int);
                lemma_lt_skip(b@, a@, i as int);
                if a@[i as int] < b@[i as int] {
                    lemma_lt_asymmetric(a@, b@);
                } else {
                    lemma_lt_asymmetric(b@, a@);
                }
            }
            if a[i] < b[i] {
                return KeyOrder::Before;
            } else {
                return KeyOrder::After;
            }
        }
        i = i + 1;
    }
    proof {
        lemma_lt_skip(a@, b@, i as int);
        lemma_lt_skip(b@, a@, i as int);
        lemma_lt_irreflexive(a@);
        if a@.len() == b@.len() {
            assert(a@ =~= b@);
        } else if a@.len() < b@.len() {
            lemma_lt_asymmetric(a@, b@);
        } else {
            lemma_lt_asymmetric(b@, a@);
        }
    }
    if a.len() == b.len() {
        KeyOrder::Same
    } else if a.len() < b.len() {
        KeyOrder::Before
    } else {
        KeyOrder::After
    }
}

/// Tells whether `key` begins with `prefix`.
pub fn starts_with(key: &[u8], prefix: &[u8]) -> (r: bool)
    ensures
        r == has_prefix(key@, prefix@),
{
    if prefix.len() > key.len() {
        return false;
    }
    let mut i: usize = 0;
    while i < prefix.len()
        invariant
            i <= prefix.len(),
            prefix.len() <= key.len(),
            forall|j: int| 0 <= j < i ==> key@[j] == prefix@[j],
        decreases prefix.len() - i,
    {
        if key[i] != prefix[i] {
            assert(key@.subrange(0, prefix@.len() as int)[i as int] != prefix@[i as int]);
            return false;
        }
        i = i + 1;
    }
    assert(key@.subrange(0, prefix@.len() as int) =~= prefix@);
    true
}

} // verus!
