//! Saturating arithmetic on the machine integers that the playback models use.
//!
//! Each function is stated over the mathematical integers: the exact result, moved to the nearest
//! end of the machine range where it lies outside.
use vstd::arithmetic::div_mod::lemma_fundamental_div_mod_converse;
use vstd::prelude::*;

verus! {

/// The `i64` nearest to `x`.
pub open spec fn clamp_i64(x: int) -> int {
    if x > i64::MAX {
        i64::MAX as int
    } else if x < i64::MIN {
        i64::MIN as int
    } else {
        x
    }
}

/// The `u64` nearest to a non-negative `x`.
pub open spec fn clamp_u64(x: int) -> int {
    if x > u64::MAX {
        u64::MAX as int
    } else {
        x
    }
}

/// The larger of two integers.
pub open spec fn larger(a: int, b: int) -> int {
    if a < b {
        b
    } else {
        a
    }
}

/// The smaller of two integers.
pub open spec fn smaller(a: int, b: int) -> int {
    if a < b {
        a
    } else {
        b
    }
}

/// Clamping leaves what the machine can hold, and moves anything else to the end that it lies
/// beyond.
pub proof fn law_clamping_moves_to_the_nearest_end(x: int)
    ensures
        -0x8000_0000_0000_0000 <= clamp_i64(x) <= 0x7fff_ffff_ffff_ffff,
        -0x8000_0000_0000_0000 <= x <= 0x7fff_ffff_ffff_ffff ==> clamp_i64(x) == x,
        x > 0x7fff_ffff_ffff_ffff ==> clamp_i64(x) == 0x7fff_ffff_ffff_ffff,
        x < -0x8000_0000_0000_0000 ==> clamp_i64(x) == -0x8000_0000_0000_0000,
        0 <= x <= 0xffff_ffff_ffff_ffff ==> clamp_u64(x) == x,
        x > 0xffff_ffff_ffff_ffff ==> clamp_u64(x) == 0xffff_ffff_ffff_ffff,
{
}

/// The larger and the smaller of two integers are those two, in order.
pub proof fn law_larger_and_smaller_are_the_two(a: int, b: int)
    ensures
        larger(a, b) >= a && larger(a, b) >= b,
        smaller(a, b) <= a && smaller(a, b) <= b,
        larger(a, b) + smaller(a, b) == a + b,
        larger(a, b) == a || larger(a, b) == b,
{
}

fn clamp(x: i128) -> (r: i64)
    ensures
        r == clamp_i64(x as int),
{
    if x > i64::MAX as i128 {
        i64::MAX
    } else if x < i64::MIN as i128 {
        i64::MIN
    } else {
        x as i64
    }
}

/// `a + b`, saturating.
pub fn plus_i64(a: i64, b: i64) -> (r: i64)
    ensures
        r == clamp_i64(a + b),
{
    clamp(a as i128 + b as i128)
}

/// `a - b`, saturating.
pub fn minus_i64(a: i64, b: i64) -> (r: i64)
    ensures
        r == clamp_i64(a - b),
{
    clamp(a as i128 - b as i128)
}

/// `a * n`, saturating.
pub fn times_i64(a: i64, n: u32) -> (r: i64)
    ensures
        r == clamp_i64(a * n),
{
    proof {
        assert(-0x8000_0000_0000_0000_0000_0000 <= a * n <= 0x8000_0000_0000_0000_0000_0000)
            by (nonlinear_arith)
            requires
                -0x8000_0000_0000_0000 <= a <= 0x7fff_ffff_ffff_ffff,
                0 <= n <= 0xffff_ffff,
        ;
    }
    clamp(a as i128 * n as i128)
}

/// `a * b`, saturating.
pub fn times_u64(a: u64, b: u64) -> (r: u64)
    ensures
        r == clamp_u64(a * b),
{
    proof {
        assert(0 <= a * b <= 0xffff_ffff_ffff_ffff * 0xffff_ffff_ffff_ffff) by (nonlinear_arith)
            requires
                0 <= a <= 0xffff_ffff_ffff_ffff,
                0 <= b <= 0xffff_ffff_ffff_ffff,
        ;
    }
    let x: u128 = a as u128 * b as u128;
    if x > u64::MAX as u128 {
        u64::MAX
    } else {
        x as u64
    }
}

/// The milliseconds that `bits` take at `kbps`, a rate of nothing counting as one.
///
/// A kilobit per second is a bit per millisecond, so the quotient already is in milliseconds.
pub open spec fn bits_to_ms(bits: int, kbps: int) -> int {
    smaller(bits / larger(kbps, 1), i64::MAX as int)
}

/// `bits` take `ms` at `kbps` where they fill that many whole milliseconds and not one more.
pub proof fn lemma_bits_to_ms(bits: int, kbps: int, ms: int)
    requires
        kbps >= 1,
        0 <= ms <= i64::MAX,
        ms * kbps <= bits < ms * kbps + kbps,
    ensures
        bits_to_ms(bits, kbps) == ms,
{
    lemma_fundamental_div_mod_converse(bits, kbps, ms, bits - ms * kbps);
}

/// A rate of nothing counts as one, and no time exceeds the machine's.
pub proof fn law_no_rate_counts_as_one(bits: int, kbps: int)
    ensures
        kbps <= 0 ==> bits_to_ms(bits, kbps) == bits_to_ms(bits, 1),
        bits_to_ms(bits, kbps) <= i64::MAX,
        0 <= bits <= i64::MAX ==> bits_to_ms(bits, 1) == bits,
{
    if 0 <= bits <= i64::MAX {
        lemma_bits_to_ms(bits, 1, bits);
    }
}

/// The milliseconds that `bits` take at `kbps`.
pub fn ms_for_bits(bits: u64, kbps: u32) -> (r: i64)
    ensures
        r == bits_to_ms(bits as int, kbps as int),
        r >= 0,
{
    let rate: u64 = if kbps == 0 {
        1
    } else {
        kbps as u64
    };
    let ms: u64 = bits / rate;
    if ms > i64::MAX as u64 {
        i64::MAX
    } else {
        ms as i64
    }
}

} // verus!
