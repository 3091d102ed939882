//! Little-endian byte strings and the integers that they stand for.

use vstd::arithmetic::power2::{lemma2_to64, lemma_pow2_unfold, pow2};
use vstd::prelude::*;

verus! {

/// The integer that `s` encodes, least significant byte first.
pub open spec fn le_value(s: Seq<u8>) -> nat
    decreases s.len(),
{
    if s.len() == 0 {
        0
    } else {
        s[0] as nat + 256 * le_value(s.skip(1))
    }
}

/// The `n` low bytes of `v`, least significant byte first.
pub open spec fn le_bytes(v: nat, n: nat) -> Seq<u8>
    decreases n,
{
    if n == 0 {
        Seq::empty()
    } else {
        seq![(v % 256) as u8] + le_bytes(v / 256, (n - 1) as nat)
    }
}

/// 256 to the power of `n`.
pub open spec fn pow256(n: nat) -> nat
    decreases n,
{
    if n == 0 {
        1
    } else {
        256 * pow256((n - 1) as nat)
    }
}

/// `n` zero bytes.
pub open spec fn zeros(n: nat) -> Seq<u8> {
    Seq::new(n, |i: int| 0u8)
}

/// `n` bytes encode an integer below `256^n`.
pub proof fn lemma_le_value_bound(s: Seq<u8>)
    ensures
        le_value(s) < pow256(s.len()),
    decreases s.len(),
{
    if s.len() > 0 {
        lemma_le_value_bound(s.skip(1));
    }
}

/// Encoding the decoded integer gives the bytes back.
pub proof fn lemma_le_bytes_of_value(s: Seq<u8>)
    ensures
        le_bytes(le_value(s), s.len()) == s,
    decreases s.len(),
{
    if s.len() > 0 {
        lemma_le_bytes_of_value(s.skip(1));
        assert(le_value(s) % 256 == s[0] as nat);
        assert(le_value(s) / 256 == le_value(s.skip(1)));
        assert(s == seq![s[0]] + s.skip(1));
    }
}

/// Decoding the encoded integer gives the integer back, where it fits.
pub proof fn lemma_le_value_of_bytes(v: nat, n: nat)
    requires
        v < pow256(n),
    ensures
        le_bytes(v, n).len() == n,
        le_value(le_bytes(v, n)) == v,
    decreases n,
{
    if n > 0 {
        lemma_le_value_of_bytes(v / 256, (n - 1) as nat);
        assert(le_bytes(v, n).skip(1) == le_bytes(v / 256, (n - 1) as nat));
    }
}

/// An encoding is as long as asked for.
pub proof fn lemma_le_bytes_len(v: nat, n: nat)
    ensures
        le_bytes(v, n).len() == n,
    decreases n,
{
    if n > 0 {
        lemma_le_bytes_len(v / 256, (n - 1) as nat);
    }
}

/// The last byte counts for the highest power of 256.
pub proof fn lemma_le_value_last(s: Seq<u8>)
    requires
        s.len() > 0,
    ensures
        le_value(s) == le_value(s.drop_last()) + s.last() as nat * pow256((s.len() - 1) as nat),
    decreases s.len(),
{
    if s.len() == 1 {
        assert(s.skip(1) == Seq::<u8>::empty());
        assert(s.drop_last() == Seq::<u8>::empty());
        assert(s.last() as nat * pow256(0) == s.last() as nat) by (nonlinear_arith)
            requires
                pow256(0) == 1,
        ;
    } else {
        lemma_le_value_last(s.skip(1));
        assert(s.skip(1).drop_last() == s.drop_last().skip(1));
        let p = pow256((s.len() - 2) as nat);
        let l = s.last() as nat;
        assert(pow256((s.len() - 1) as nat) == 256 * p);
        assert(256 * (l * p) == l * (256 * p)) by (nonlinear_arith);
        assert(s.skip(1).last() == s.last());
        assert(s.drop_last()[0] == s[0]);
    }
}

/// Zero is encoded by zero bytes, and by nothing else.
pub proof fn lemma_le_value_zero(s: Seq<u8>)
    ensures
        le_value(s) == 0 <==> s == zeros(s.len()),
    decreases s.len(),
{
    if s.len() > 0 {
        lemma_le_value_zero(s.skip(1));
        if le_value(s) == 0 {
            assert(s.skip(1) == zeros((s.len() - 1) as nat));
            assert forall|i: int| 0 <= i < s.len() implies s[i] == 0u8 by {
                if i > 0 {
                    assert(s[i] == s.skip(1)[i - 1]);
                }
            }
            assert(s == zeros(s.len()));
        }
        if s == zeros(s.len()) {
            assert(s.skip(1) == zeros((s.len() - 1) as nat));
        }
    } else {
        assert(s == zeros(0));
    }
}

/// The highest bit of a 32-byte string is worth 2^255.
pub proof fn lemma_pow256_31()
    ensures
        pow256(31) * 128 == 0x8000000000000000000000000000000000000000000000000000000000000000nat,
        pow256(32) == 0x10000000000000000000000000000000000000000000000000000000000000000nat,
{
    reveal_with_fuel(pow256, 33);
}

/// The `n` low bits of `v`, least significant bit first.
#[verifier::opaque]
pub open spec fn le_bits(v: nat, n: nat) -> Seq<bool>
    decreases n,
{
    if n == 0 {
        Seq::empty()
    } else {
        seq![v % 2 == 1] + le_bits(v / 2, (n - 1) as nat)
    }
}

/// The bits of a number in two digits are those of the low digit, then those of the high
/// one.
pub proof fn lemma_le_bits_split(low: nat, high: nat, k: nat, n: nat)
    requires
        low < pow2(k),
    ensures
        le_bits(low + pow2(k) * high, k + n) == le_bits(low, k) + le_bits(high, n),
    decreases k,
{
    reveal_with_fuel(le_bits, 2);
    if k == 0 {
        lemma2_to64();
        assert(pow2(0) * high == high) by (nonlinear_arith)
            requires
                pow2(0) == 1,
        ;
        assert(le_bits(low, 0) + le_bits(high, n) == le_bits(high, n));
    } else {
        let j = (k - 1) as nat;
        lemma_pow2_unfold(k);
        let w = pow2(j) * high;
        assert(pow2(k) * high == 2 * w) by (nonlinear_arith)
            requires
                pow2(k) == 2 * pow2(j),
                w == pow2(j) * high,
        ;
        let v = low + pow2(k) * high;
        assert(v % 2 == low % 2);
        assert(v / 2 == low / 2 + w);
        lemma_le_bits_split(low / 2, high, j, n);
        assert(le_bits(v, k + n) == seq![low % 2 == 1] + le_bits(v / 2, j + n));
        assert(le_bits(low, k) == seq![low % 2 == 1] + le_bits(low / 2, j));
        assert(seq![low % 2 == 1] + (le_bits(low / 2, j) + le_bits(high, n)) == le_bits(low, k)
            + le_bits(high, n));
    }
}

/// One more bit is appended at the end.
pub proof fn lemma_le_bits_prefix(v: nat, n: nat)
    ensures
        le_bits(v, n).len() == n,
        le_bits(v, n + 1).len() == n + 1,
        le_bits(v, n + 1).drop_last() == le_bits(v, n),
    decreases n,
{
    reveal_with_fuel(le_bits, 2);
    if n > 0 {
        lemma_le_bits_prefix(v / 2, (n - 1) as nat);
        assert(le_bits(v, n + 1).drop_last() == seq![v % 2 == 1] + le_bits(v / 2, n).drop_last());
    } else {
        assert(le_bits(v, 1) == seq![v % 2 == 1]);
        assert(le_bits(v, 1).drop_last() == Seq::<bool>::empty());
    }
}

} // verus!
