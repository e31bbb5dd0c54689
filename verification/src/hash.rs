//! 256-bit hashes and addresses as big-endian byte arrays, with the ordering
//! and increment arithmetic used to walk the account trie key space.

use vstd::prelude::*;

verus! {

/// A 32-byte hash, read as a big-endian unsigned integer.
pub type B256 = [u8; 32];

/// A 20-byte account address.
pub type Address = [u8; 20];

/// `256^n`.
pub open spec fn pow256(n: nat) -> nat
    decreases n,
{
    if n == 0 {
        1
    } else {
        256 * pow256((n - 1) as nat)
    }
}

/// The big-endian integer value of a byte sequence.
pub open spec fn be_value(s: Seq<u8>) -> nat
    decreases s.len(),
{
    if s.len() == 0 {
        0
    } else {
        (s[0] as nat) * pow256((s.len() - 1) as nat) + be_value(s.subrange(1, s.len() as int))
    }
}

/// The value of the greatest 32-byte hash: `2^256 - 1`.
pub open spec fn max_hash_value() -> nat {
    (pow256(32) - 1) as nat
}

pub proof fn lemma_pow256_positive(n: nat)
    ensures
        pow256(n) >= 1,
    decreases n,
{
    if n > 0 {
        lemma_pow256_positive((n - 1) as nat);
    }
}

/// A byte sequence of length `n` denotes a value below `256^n`.
pub proof fn lemma_be_value_bound(s: Seq<u8>)
    ensures
        be_value(s) < pow256(s.len()),
    decreases s.len(),
{
    if s.len() > 0 {
        let t = s.subrange(1, s.len() as int);
        lemma_be_value_bound(t);
        let p = pow256((s.len() - 1) as nat);
        assert((s[0] as nat) * p <= 255 * p) by (nonlinear_arith)
            requires
                s[0] <= 255,
        ;
    }
}

/// Changing the byte at `j` changes the value by the difference times the place value.
pub proof fn lemma_be_value_update(s: Seq<u8>, j: int, x: u8)
    requires
        0 <= j < s.len(),
    ensures
        be_value(s.update(j, x)) + (s[j] as int) * pow256((s.len() - 1 - j) as nat) == be_value(s)
            + (x as int) * pow256((s.len() - 1 - j) as nat),
    decreases s.len(),
{
    let u = s.update(j, x);
    if j == 0 {
        assert(u.subrange(1, u.len() as int) =~= s.subrange(1, s.len() as int));
    } else {
        let t = s.subrange(1, s.len() as int);
        lemma_be_value_update(t, j - 1, x);
        assert(u.subrange(1, u.len() as int) =~= t.update(j - 1, x));
    }
}

/// Lexicographic order on equal-length byte sequences agrees with the order of their values.
pub proof fn lemma_be_value_lex(a: Seq<u8>, b: Seq<u8>, k: int)
    requires
        a.len() == b.len(),
        0 <= k < a.len(),
        forall|i: int| 0 <= i < k ==> a[i] == b[i],
        a[k] < b[k],
    ensures
        be_value(a) < be_value(b),
    decreases k,
{
    let n = a.len();
    let ta = a.subrange(1, n as int);
    let tb = b.subrange(1, n as int);
    let p = pow256((n - 1) as nat);
    if k == 0 {
        lemma_be_value_bound(ta);
        assert((a[0] as nat) * p + p <= (b[0] as nat) * p) by (nonlinear_arith)
            requires
                a[0] < b[0],
        ;
    } else {
        assert(a[0] == b[0]);
        assert forall|i: int| 0 <= i < k - 1 implies ta[i] == tb[i] by {
            assert(a[i + 1] == b[i + 1]);
        }
        lemma_be_value_lex(ta, tb, k - 1);
    }
}

/// Equal byte sequences have equal values; different equal-length ones have different values.
pub proof fn lemma_be_value_injective(a: Seq<u8>, b: Seq<u8>)
    requires
        a.len() == b.len(),
        a != b,
    ensures
        be_value(a) != be_value(b),
    decreases a.len(),
{
    if a.len() == 0 {
        assert(a =~= b);
    } else if a[0] != b[0] {
        if a[0] < b[0] {
            lemma_be_value_lex(a, b, 0);
        } else {
            lemma_be_value_lex(b, a, 0);
        }
    } else {
        let ta = a.subrange(1, a.len() as int);
        let tb = b.subrange(1, b.len() as int);
        assert(ta != tb) by {
            if ta == tb {
                assert(a =~= b) by {
                    assert forall|i: int| 0 <= i < a.len() implies a[i] == b[i] by {
                        if i > 0 {
                            assert(ta[i - 1] == tb[i - 1]);
                        }
                    }
                }
            }
        }
        lemma_be_value_injective(ta, tb);
    }
}


/// A sequence of `n` copies of byte `x` has value `x * (256^n - 1) / 255`; for `0` and `0xff`
/// that is `0` and `256^n - 1`.
pub proof fn lemma_be_value_uniform(s: Seq<u8>)
    requires
        forall|i: int| 0 <= i < s.len() ==> s[i] == 0xffu8,
    ensures
        be_value(s) + 1 == pow256(s.len()),
    decreases s.len(),
{
    if s.len() > 0 {
        lemma_be_value_uniform(s.subrange(1, s.len() as int));
    }
}

pub proof fn lemma_be_value_zero(s: Seq<u8>)
    requires
        forall|i: int| 0 <= i < s.len() ==> s[i] == 0u8,
    ensures
        be_value(s) == 0,
    decreases s.len(),
{
    if s.len() > 0 {
        lemma_be_value_zero(s.subrange(1, s.len() as int));
    }
}

/// The all-zero hash.
pub fn zero_hash() -> (h: B256)
    ensures
        be_value(h@) == 0,
        forall|i: int| 0 <= i < 32 ==> h@[i] == 0u8,
{
    let h: B256 = [0u8; 32];
    proof {
        lemma_be_value_zero(h@);
    }
    h
}

/// The all-`0xff` hash, the greatest key of the trie.
pub fn max_hash() -> (h: B256)
    ensures
        be_value(h@) == max_hash_value(),
        forall|i: int| 0 <= i < 32 ==> h@[i] == 0xffu8,
{
    let h: B256 = [0xffu8; 32];
    proof {
        lemma_be_value_uniform(h@);
    }
    h
}

/// Byte-wise equality of two hashes.
pub fn hash_eq(a: &B256, b: &B256) -> (r: bool)
    ensures
        r == (a@ == b@),
        r == (be_value(a@) == be_value(b@)),
{
    let mut i: usize = 0;
    while i < 32
        invariant
            0 <= i <= 32,
            forall|j: int| 0 <= j < i ==> a@[j] == b@[j],
        decreases 32 - i,
    {
        if a[i] != b[i] {
            proof {
                lemma_be_value_injective(a@, b@);
            }
            return false;
        }
        i += 1;
    }
    assert(a@ =~= b@);
    true
}

/// Strict order of hashes as big-endian integers (the byte-wise lexicographic order).
pub fn hash_lt(a: &B256, b: &B256) -> (r: bool)
    ensures
        r == (be_value(a@) < be_value(b@)),
{
    let mut i: usize = 0;
    while i < 32
        invariant
            0 <= i <= 32,
            forall|j: int| 0 <= j < i ==> a@[j] == b@[j],
        decreases 32 - i,
    {
        if a[i] < b[i] {
            proof {
                lemma_be_value_lex(a@, b@, i as int);
            }
            return true;
        }
        if a[i] > b[i] {
            proof {
                lemma_be_value_lex(b@, a@, i as int);
            }
            return false;
        }
        i += 1;
    }
    assert(a@ =~= b@);
    false
}

/// `a <= b` as big-endian integers.
pub fn hash_le(a: &B256, b: &B256) -> (r: bool)
    ensures
        r == (be_value(a@) <= be_value(b@)),
{
    !hash_lt(b, a)
}

/// Whether every byte of the hash is zero.
pub fn hash_is_zero(a: &B256) -> (r: bool)
    ensures
        r == (be_value(a@) == 0),
        r == (forall|i: int| 0 <= i < 32 ==> a@[i] == 0u8),
{
    let z = zero_hash();
    let r = hash_eq(a, &z);
    proof {
        if !r {
            assert(!(a@ =~= z@));
        }
    }
    r
}

/// The hash whose last eight bytes hold `v` big-endian and whose other bytes are zero.
pub fn hash_from_low_u64_be(v: u64) -> (h: B256)
    ensures
        be_value(h@) == v,
{
    let mut h: B256 = [0u8; 32];
    let mut x: u64 = v;
    let mut i: usize = 32;
    proof {
        lemma_be_value_zero(h@);
        reveal_with_fuel(pow256, 9);
        assert(pow256(8) == 0x1_0000_0000_0000_0000nat);
    }
    while i > 24
        invariant
            24 <= i <= 32,
            be_value(h@) + x * pow256((32 - i) as nat) == v,
            x < pow256((i - 24) as nat),
            forall|j: int| 0 <= j < i ==> h@[j] == 0u8,
        decreases i,
    {
        let b: u8 = (x % 256) as u8;
        let ghost old_h = h@;
        h[i - 1] = b;
        proof {
            lemma_be_value_update(old_h, i - 1, b);
            assert(h@ == old_h.update(i - 1, b));
            let p = pow256((32 - i) as nat);
            let q = pow256((i - 25) as nat);
            assert(pow256((33 - i) as nat) == 256 * p);
            assert(pow256((i - 24) as nat) == 256 * q);
            assert(x * p == (x % 256) * p + (x / 256) * (256 * p)) by (nonlinear_arith);
            assert(x / 256 < q) by (nonlinear_arith)
                requires
                    x < 256 * q,
            ;
        }
        x = x / 256;
        i -= 1;
    }
    h
}

} // verus!
