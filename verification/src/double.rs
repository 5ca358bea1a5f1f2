//! Double-precision numbers, by their bit patterns, and the one that is nearest to a decimal.

use vstd::arithmetic::power2::{lemma2_to64, lemma_pow2_pos, lemma_pow2_unfold, pow2};
use vstd::prelude::*;

verus! {

/// The sign bit.
pub open spec fn negative_double(bits: u64) -> bool {
    bits >= 0x8000_0000_0000_0000
}

/// Neither infinite nor "not a number": the eleven exponent bits are not all set.
pub open spec fn finite_double(bits: u64) -> bool {
    (bits as nat / 0x10_0000_0000_0000) % 2048 < 2047
}

/// The magnitude of a finite double, in units of `2^-1074`: the fifty-two fraction bits, and
/// the leading one that normal numbers have, scaled by the exponent bits.
pub open spec fn size(bits: nat) -> nat {
    let exponent = (bits / 0x10_0000_0000_0000) % 2048;
    let fraction = bits % 0x10_0000_0000_0000;
    if exponent == 0 {
        fraction
    } else {
        (fraction + 0x10_0000_0000_0000) * pow2((exponent - 1) as nat)
    }
}

/// How far the magnitude of a double is from a number of thousandths, in thousandths of
/// `2^-1074`.
pub open spec fn gap(thousandths: nat, bits: nat) -> int {
    let d = 1000 * size(bits) - thousandths * pow2(1074);
    if d >= 0 {
        d
    } else {
        -d
    }
}

/// A finite double of the given sign to which no other of that sign is preferred: it is nearer
/// to the number of thousandths, or as near and even.
pub open spec fn nearest(negative: bool, thousandths: nat, bits: u64) -> bool {
    &&& finite_double(bits)
    &&& negative_double(bits) == negative
    &&& forall|other: u64|
        finite_double(other) && negative_double(other) == negative && other != bits ==> {
            ||| gap(thousandths, bits as nat) < #[trigger] gap(thousandths, other as nat)
            ||| gap(thousandths, bits as nat) == gap(thousandths, other as nat) && bits % 2 == 0
        }
}

/// The bit pattern of the double that is nearest to a number of thousandths; of two that are as
/// near, the even one.
pub open spec fn nearest_double(negative: bool, thousandths: nat) -> u64 {
    choose|bits: u64| nearest(negative, thousandths, bits)
}

/// The largest finite double, without its sign.
spec fn largest() -> nat {
    0x7fef_ffff_ffff_ffff
}

/// The sign bit.
spec fn sign() -> nat {
    0x8000_0000_0000_0000
}

/// The sign does not count for the magnitude.
proof fn lemma_sign(k: nat)
    requires
        k < sign(),
    ensures
        size(k + sign()) == size(k),
{
    assert((k + sign()) / 0x10_0000_0000_0000 == k / 0x10_0000_0000_0000 + 2048);
    assert((k + sign()) % 0x10_0000_0000_0000 == k % 0x10_0000_0000_0000);
}

/// The next bit pattern is that of a larger number.
proof fn lemma_next_is_larger(k: nat)
    requires
        k < largest(),
    ensures
        size(k) < size(k + 1),
{
    let e = k / 0x10_0000_0000_0000;
    let f = k % 0x10_0000_0000_0000;
    let n = (k + 1) / 0x10_0000_0000_0000;
    assert(e <= 2046 && n <= 2046);
    assert(e % 2048 == e && n % 2048 == n);
    if f + 1 < 0x10_0000_0000_0000 {
        assert(n == e);
        assert((k + 1) % 0x10_0000_0000_0000 == f + 1);
        if e > 0 {
            let p = pow2((e - 1) as nat);
            lemma_pow2_pos((e - 1) as nat);
            assert(size(k) == (f + 0x10_0000_0000_0000) * p);
            assert(size(k + 1) == (f + 1 + 0x10_0000_0000_0000) * p);
            assert((f + 0x10_0000_0000_0000) * p < (f + 1 + 0x10_0000_0000_0000) * p) by (nonlinear_arith)
                requires
                    p > 0,
            ;
        }
    } else {
        assert(n == e + 1);
        assert((k + 1) % 0x10_0000_0000_0000 == 0);
        assert((n - 1) as nat == e);
        assert(size(k + 1) == 0x10_0000_0000_0000 * pow2(e));
        if e > 0 {
            let p = pow2((e - 1) as nat);
            lemma_pow2_pos((e - 1) as nat);
            lemma_pow2_unfold(e);
            assert(size(k) == (f + 0x10_0000_0000_0000) * p);
            assert((f + 0x10_0000_0000_0000) * p < 0x10_0000_0000_0000 * (2 * p)) by (nonlinear_arith)
                requires
                    p > 0,
                    f == 0xf_ffff_ffff_ffff,
            ;
        } else {
            lemma2_to64();
        }
    }
}

/// Larger bit patterns are those of larger numbers.
proof fn lemma_sizes_grow(a: nat, b: nat)
    requires
        a < b <= largest(),
    ensures
        size(a) < size(b),
    decreases b - a,
{
    lemma_next_is_larger(a);
    if a + 1 < b {
        lemma_sizes_grow(a + 1, b);
    }
}

/// Between two that are as near, another one is nearer.
proof fn lemma_between(t: nat, a: nat, c: nat, b: nat)
    requires
        a < c < b <= largest(),
        gap(t, a) == gap(t, b),
    ensures
        gap(t, c) < gap(t, a),
{
    lemma_sizes_grow(a, c);
    lemma_sizes_grow(c, b);
}

/// The preferred one of the bit patterns up to `k`.
spec fn best(t: nat, k: nat, b: nat) -> bool {
    &&& b <= k
    &&& forall|c: nat|
        c <= k && c != b ==> {
            ||| gap(t, b) < #[trigger] gap(t, c)
            ||| gap(t, b) == gap(t, c) && b % 2 == 0
        }
}

/// One of the bit patterns up to `k` is preferred.
proof fn lemma_best(t: nat, k: nat) -> (b: nat)
    requires
        k <= largest(),
    ensures
        best(t, k, b),
    decreases k,
{
    if k == 0 {
        0
    } else {
        let b = lemma_best(t, (k - 1) as nat);
        if gap(t, b) < gap(t, k) || (gap(t, b) == gap(t, k) && b % 2 == 0) {
            b
        } else {
            if gap(t, b) == gap(t, k) && b + 1 < k {
                lemma_between(t, b, b + 1, k);
            }
            k
        }
    }
}

/// There is one nearest double, and only one.
pub proof fn law_one_double_is_nearest(negative: bool, thousandths: nat, bits: u64)
    ensures
        nearest(negative, thousandths, nearest_double(negative, thousandths)),
        nearest(negative, thousandths, bits) ==> bits == nearest_double(negative, thousandths),
{
    lemma_some_double_is_nearest(negative, thousandths);
    if nearest(negative, thousandths, bits) {
        lemma_nearest_is_unique(negative, thousandths, bits, nearest_double(negative, thousandths));
    }
}

/// A finite double without its sign.
spec fn unsigned(bits: u64) -> nat {
    if negative_double(bits) {
        (bits - sign()) as nat
    } else {
        bits as nat
    }
}

/// Without its sign, a finite double is at most the largest one, and as large as before.
proof fn lemma_unsigned(bits: u64)
    ensures
        finite_double(bits) <==> unsigned(bits) <= largest(),
        size(unsigned(bits)) == size(bits as nat),
        unsigned(bits) % 2 == bits % 2,
{
    if negative_double(bits) {
        let k = (bits - sign()) as nat;
        lemma_sign(k);
        assert((k + sign()) / 0x10_0000_0000_0000 == k / 0x10_0000_0000_0000 + 2048);
    }
}

/// Some double is nearest.
proof fn lemma_some_double_is_nearest(negative: bool, thousandths: nat)
    ensures
        exists|bits: u64| nearest(negative, thousandths, bits),
{
    let b = lemma_best(thousandths, largest());
    let bits: u64 = if negative {
        (b + sign()) as u64
    } else {
        b as u64
    };
    assert(unsigned(bits) == b);
    lemma_unsigned(bits);
    assert forall|other: u64|
        finite_double(other) && negative_double(other) == negative && other != bits implies {
        ||| gap(thousandths, bits as nat) < #[trigger] gap(thousandths, other as nat)
        ||| gap(thousandths, bits as nat) == gap(thousandths, other as nat) && bits % 2 == 0
    } by {
        lemma_unsigned(other);
        assert(unsigned(other) != b);
        assert(gap(thousandths, unsigned(other)) == gap(thousandths, other as nat));
    }
    assert(nearest(negative, thousandths, bits));
}

/// No two doubles are nearest.
proof fn lemma_nearest_is_unique(negative: bool, thousandths: nat, a: u64, b: u64)
    requires
        nearest(negative, thousandths, a),
        nearest(negative, thousandths, b),
    ensures
        a == b,
{
    if a != b {
        assert(gap(thousandths, a as nat) == gap(thousandths, b as nat));
        let (low, high) = if a < b { (a, b) } else { (b, a) };
        let mid = (low + 1) as u64;
        lemma_unsigned(low);
        lemma_unsigned(mid);
        lemma_unsigned(high);
        lemma_between(thousandths, unsigned(low), unsigned(mid), unsigned(high));
        assert(gap(thousandths, mid as nat) < gap(thousandths, low as nat));
    }
}

} // verus!
