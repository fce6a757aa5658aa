//! Integer helpers: rounding up to an alignment and powers of two.

use vstd::prelude::*;

verus! {

/// `value / divisor` rounded up, for a positive divisor.
pub open spec fn ceil_div(value: int, divisor: int) -> int {
    (value + divisor - 1) / divisor
}

/// `value` rounded up to a multiple of `alignment`; `value` itself when the
/// alignment is zero.
pub open spec fn round_up(value: int, alignment: int) -> int {
    if alignment == 0 {
        value
    } else {
        ceil_div(value, alignment) * alignment
    }
}

/// Whether `n` is a power of two.
pub open spec fn is_power_of_two(n: nat) -> bool
    decreases n,
{
    if n == 1 {
        true
    } else if n == 0 || n % 2 == 1 {
        false
    } else {
        is_power_of_two(n / 2)
    }
}

/// The smallest power of two, starting from `p` and doubling, that is at
/// least `n`.
pub open spec fn power_of_two_from(p: nat, n: nat) -> nat
    decreases (if n > p { n - p } else { 0 }) when p > 0
{
    if p >= n {
        p
    } else {
        power_of_two_from(2 * p, n)
    }
}

/// The smallest power of two that is at least `n` (one for zero).
pub open spec fn next_power_of_two(n: nat) -> nat {
    power_of_two_from(1, n)
}

/// Doubling from a power of two that is not above `n` reaches the smallest
/// power of two at least `n`.
pub proof fn lemma_power_of_two_from(p: nat, n: nat)
    requires
        p > 0,
        is_power_of_two(p),
        p == 1 || p / 2 < n,
    ensures
        is_power_of_two(power_of_two_from(p, n)),
        power_of_two_from(p, n) >= n,
        power_of_two_from(p, n) == 1 || power_of_two_from(p, n) / 2 < n,
    decreases (if n > p { n - p } else { 0 }),
{
    if p < n {
        assert((2 * p) / 2 == p);
        assert((2 * p) % 2 == 0);
        lemma_power_of_two_from(2 * p, n);
    }
}

/// Rounding a quotient up adds one to the floor quotient exactly when the
/// division leaves a remainder.
pub proof fn lemma_ceil_div(value: int, divisor: int)
    requires
        value >= 0,
        divisor > 0,
    ensures
        ceil_div(value, divisor) == value / divisor + if value % divisor != 0 { 1int } else { 0int },
{
    let q = value / divisor;
    let r = value % divisor;
    vstd::arithmetic::div_mod::lemma_fundamental_div_mod(value, divisor);
    assert(0 <= r < divisor);
    assert(value == q * divisor + r) by (nonlinear_arith)
        requires
            value == divisor * q + r,
    ;
    if r == 0 {
        vstd::arithmetic::div_mod::lemma_fundamental_div_mod_converse(value + divisor - 1, divisor, q, divisor - 1);
    } else {
        assert(value + divisor - 1 == (q + 1) * divisor + (r - 1)) by (nonlinear_arith)
            requires
                value == q * divisor + r,
        ;
        vstd::arithmetic::div_mod::lemma_fundamental_div_mod_converse(value + divisor - 1, divisor, q + 1, r - 1);
    }
}

/// The quotient of `value` by `divisor` rounded towards positive infinity
/// (the result of `u32::div_ceil`).
fn u32_div_ceil(value: u32, divisor: u32) -> (r: u32)
    requires
        divisor != 0,
    ensures
        r as int == ceil_div(value as int, divisor as int),
{
    proof {
        lemma_ceil_div(value as int, divisor as int);
        assert(value / divisor <= value) by (nonlinear_arith)
            requires
                divisor > 0,
        ;
        assert(value % divisor != 0 ==> value / divisor < value) by (nonlinear_arith)
            requires
                divisor > 0,
        ;
    }
    let q = value / divisor;
    if value % divisor != 0 {
        q + 1
    } else {
        q
    }
}

/// As [`u32_div_ceil`], on `u64` (the result of `u64::div_ceil`).
fn u64_div_ceil(value: u64, divisor: u64) -> (r: u64)
    requires
        divisor != 0,
    ensures
        r as int == ceil_div(value as int, divisor as int),
{
    proof {
        lemma_ceil_div(value as int, divisor as int);
        assert(value / divisor <= value) by (nonlinear_arith)
            requires
                divisor > 0,
        ;
        assert(value % divisor != 0 ==> value / divisor < value) by (nonlinear_arith)
            requires
                divisor > 0,
        ;
    }
    let q = value / divisor;
    if value % divisor != 0 {
        q + 1
    } else {
        q
    }
}

/// Doubling a power of two gives a power of two.
pub proof fn lemma_double_power_of_two(n: nat)
    requires
        is_power_of_two(n),
    ensures
        is_power_of_two(2 * n),
{
    assert((2 * n) / 2 == n);
    assert((2 * n) % 2 == 0);
    assert(n >= 1) by {
        if n == 0 {
            assert(!is_power_of_two(0));
        }
    }
}

/// `2^k` is a power of two.
pub proof fn lemma_pow2_is_power_of_two(k: nat)
    ensures
        is_power_of_two(vstd::arithmetic::power2::pow2(k)),
    decreases k,
{
    if k > 0 {
        lemma_pow2_is_power_of_two((k - 1) as nat);
        vstd::arithmetic::power2::lemma_pow2_unfold(k);
        lemma_double_power_of_two(vstd::arithmetic::power2::pow2((k - 1) as nat));
    } else {
        vstd::arithmetic::power2::lemma2_to64();
    }
}

/// Between two distinct powers of two the larger is at least twice the
/// smaller.
pub proof fn lemma_power_of_two_gap(p: nat, q: nat)
    requires
        is_power_of_two(p),
        is_power_of_two(q),
        p < q,
    ensures
        2 * p <= q,
    decreases q,
{
    if p != 1 {
        lemma_power_of_two_gap(p / 2, q / 2);
    }
}

/// The smallest power of two greater than or equal to `value`, one for zero
/// (the result of `u32::next_power_of_two`); values above `2^31` have no such
/// `u32`.
pub(crate) fn u32_next_power_of_two(value: u32) -> (r: u32)
    requires
        value <= 0x8000_0000,
    ensures
        r == next_power_of_two(value as nat),
{
    proof {
        vstd::arithmetic::power2::lemma2_to64();
        lemma_pow2_is_power_of_two(31);
    }
    let mut p: u32 = 1;
    while p < value
        invariant
            value <= 0x8000_0000,
            is_power_of_two(0x8000_0000),
            0 < p <= 0x8000_0000,
            is_power_of_two(p as nat),
            p == 1 || p / 2 < value,
            power_of_two_from(p as nat, value as nat) == next_power_of_two(value as nat),
        decreases 0x1_0000_0000 - p,
    {
        proof {
            lemma_power_of_two_gap(p as nat, 0x8000_0000);
            lemma_double_power_of_two(p as nat);
            assert((2 * p) / 2 == p as int);
        }
        p = p * 2;
    }
    p
}

/// The rounded-up value is the least multiple of the alignment that is not
/// below the value.
pub proof fn lemma_round_up(value: int, alignment: int)
    requires
        value >= 0,
        alignment > 0,
    ensures
        round_up(value, alignment) >= value,
        round_up(value, alignment) % alignment == 0,
        round_up(value, alignment) - value < alignment,
{
    let q = ceil_div(value, alignment);
    let s = value + alignment - 1;
    assert(s == alignment * (s / alignment) + s % alignment) by (nonlinear_arith)
        requires
            alignment > 0,
    ;
    assert(0 <= s % alignment < alignment) by (nonlinear_arith)
        requires
            alignment > 0,
    ;
    assert((q * alignment) % alignment == 0) by (nonlinear_arith)
        requires
            alignment > 0,
    ;
    assert(q * alignment == alignment * q) by (nonlinear_arith);
}

/// Rounds `value` up to a multiple of `alignment`; returns `value` unchanged
/// when the alignment is zero.
pub fn align_to(value: u32, alignment: u32) -> (r: u32)
    requires
        round_up(value as int, alignment as int) <= u32::MAX,
    ensures
        r == round_up(value as int, alignment as int),
{
    if alignment == 0 {
        return value;
    }
    let q = u32_div_ceil(value, alignment);
    proof {
        lemma_round_up(value as int, alignment as int);
    }
    q * alignment
}

/// Rounds `value` up to a multiple of `alignment`; returns `value` unchanged
/// when the alignment is zero.
pub fn align_to_u64(value: u64, alignment: u64) -> (r: u64)
    requires
        round_up(value as int, alignment as int) <= u64::MAX,
    ensures
        r == round_up(value as int, alignment as int),
{
    if alignment == 0 {
        return value;
    }
    let q = u64_div_ceil(value, alignment);
    proof {
        lemma_round_up(value as int, alignment as int);
    }
    q * alignment
}

} // verus!
