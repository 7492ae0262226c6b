//! The executable core that the rounding operations share. Every operation
//! reduces to exact unsigned arithmetic on a magnitude of at most 64 bits
//! and a power-of-ten scale factor, followed by a clamp into the
//! destination kind's range.

use vstd::prelude::*;
use vstd::arithmetic::div_mod::{lemma_fundamental_div_mod, lemma_mod_bound};
use vstd::arithmetic::power::lemma_pow0;
use vstd::math::abs;
use crate::rounding::model::{
    digit_count, lemma_digit_count_unique, lemma_pow10_20, lemma_pow10_increases,
    lemma_pow10_pos, lemma_pow10_unfold, lemma_round_negate_multiple, lemma_round_small,
    pow10, round_to_multiple, round_to_sig_figs, saturate, Policy,
};

verus! {

/// Ten to the `n`-th power, computed exactly.
pub(crate) fn pow10_u128(n: u32) -> (p: u128)
    requires
        n <= 20,
    ensures
        p as int == pow10(n as nat),
{
    let mut p: u128 = 1;
    let mut i: u32 = 0;
    proof {
        lemma_pow0(10);
    }
    while i < n
        invariant
            i <= n,
            n <= 20,
            p as int == pow10(i as nat),
        decreases n - i,
    {
        proof {
            lemma_pow10_unfold(i as nat);
            lemma_pow10_increases(i as nat + 1, 20);
            lemma_pow10_20();
        }
        p = p * 10;
        i = i + 1;
    }
    p
}

/// The digit count of a nonzero magnitude: found as the least power of ten
/// that reaches it.
pub(crate) fn count_digits(a: u128) -> (n: u32)
    requires
        1 <= a <= u64::MAX,
    ensures
        n as nat == digit_count(a as nat),
        n <= 20,
{
    let mut n: u32 = 0;
    let mut p: u128 = 1;
    proof {
        lemma_pow0(10);
    }
    while p < a
        invariant
            1 <= a <= u64::MAX,
            p as int == pow10(n as nat),
            n >= 1 ==> pow10((n - 1) as nat) < a as int,
            n <= 20,
        decreases 20 - n,
    {
        proof {
            lemma_pow10_20();
            if n == 20 {
                assert(false);
            }
            lemma_pow10_unfold(n as nat);
            lemma_pow10_increases(n as nat + 1, 20);
        }
        p = p * 10;
        n = n + 1;
    }
    proof {
        lemma_digit_count_unique(a as nat, n as nat);
    }
    n
}

/// The exact rounding of a magnitude `a` to a multiple of `m`, under a
/// policy already adjusted for the sign of the original value.
fn round_mag(a: u128, m: u128, p: Policy) -> (r: u128)
    requires
        1 <= m,
        a + m <= u128::MAX,
    ensures
        r as int == round_to_multiple(p, a as int, m as int),
        r <= a + m,
{
    proof {
        lemma_fundamental_div_mod(a as int, m as int);
        lemma_mod_bound(a as int, m as int);
    }
    let rem = a % m;
    let down = a - rem;
    match p {
        Policy::Down => down,
        Policy::Up => if rem == 0 { a } else { down + m },
        Policy::Nearest => if rem < m - rem { down } else { down + m },
    }
}

/// Rounds a signed value by rounding its magnitude, with the policy
/// reflected across zero for a negative value.
fn round_signed(x: i128, m: u128, p: Policy) -> (r: i128)
    requires
        1 <= m,
        m as int <= pow10(20),
        -(u64::MAX as int) <= x <= u64::MAX as int,
    ensures
        r as int == round_to_multiple(p, x as int, m as int),
{
    proof {
        lemma_pow10_20();
    }
    if x >= 0 {
        let mag = round_mag(x as u128, m, p);
        mag as i128
    } else {
        let flipped = match p {
            Policy::Nearest => Policy::Nearest,
            Policy::Up => Policy::Down,
            Policy::Down => Policy::Up,
        };
        let mag = round_mag((-x) as u128, m, flipped);
        proof {
            lemma_round_negate_multiple(p, -(x as int), m as int);
        }
        -(mag as i128)
    }
}

/// Every scale of at least twenty zeros acts the same on a 64-bit-range
/// value once the result is clamped: the ideal multiple is zero or already
/// beyond the clamp range.
proof fn lemma_saturate_round_deep(p: Policy, x: int, z1: nat, z2: nat, lo: int, hi: int)
    requires
        20 <= z1,
        20 <= z2,
        2 * abs(x) < pow10(20),
        -pow10(20) < lo <= 0,
        0 <= hi < pow10(20),
    ensures
        saturate(round_to_multiple(p, x, pow10(z1)), lo, hi) == saturate(
            round_to_multiple(p, x, pow10(z2)),
            lo,
            hi,
        ),
{
    lemma_pow10_increases(20, z1);
    lemma_pow10_increases(20, z2);
    lemma_pow10_pos(20);
    lemma_round_small(p, x, pow10(z1));
    lemma_round_small(p, x, pow10(z2));
}

/// Rounds `x` to a multiple of ten to the `zeros`-th power and clamps the
/// result into `[lo, hi]`.
pub(crate) fn apply_zeros(x: i128, zeros: u32, lo: i128, hi: i128, p: Policy) -> (r: i128)
    requires
        lo <= x <= hi,
        lo <= 0 <= hi,
        i64::MIN as int <= lo,
        hi <= u64::MAX as int,
    ensures
        r as int == saturate(
            round_to_multiple(p, x as int, pow10(zeros as nat)),
            lo as int,
            hi as int,
        ),
{
    let zeff: u32 = if zeros > 20 {
        20
    } else {
        zeros
    };
    let m = pow10_u128(zeff);
    proof {
        lemma_pow10_pos(zeff as nat);
        lemma_pow10_increases(zeff as nat, 20);
        lemma_pow10_20();
    }
    let ideal = round_signed(x, m, p);
    proof {
        if zeros > 20 {
            lemma_saturate_round_deep(p, x as int, 20, zeros as nat, lo as int, hi as int);
        }
    }
    if ideal < lo {
        lo
    } else if ideal > hi {
        hi
    } else {
        ideal
    }
}

/// Rounds `x` to `sig_figs` significant figures and clamps the result into
/// `[lo, hi]`.
pub(crate) fn apply_sf(x: i128, sig_figs: u32, lo: i128, hi: i128, p: Policy) -> (r: i128)
    requires
        lo <= x <= hi,
        lo <= 0 <= hi,
        i64::MIN as int <= lo,
        hi <= u64::MAX as int,
    ensures
        r as int == saturate(
            round_to_sig_figs(p, x as int, sig_figs as nat),
            lo as int,
            hi as int,
        ),
{
    if x == 0 {
        return 0;
    }
    let a: u128 = if x < 0 {
        (-x) as u128
    } else {
        x as u128
    };
    assert(a as nat == abs(x as int));
    let digits = count_digits(a);
    if sig_figs >= digits {
        x
    } else {
        let zeros = digits - sig_figs;
        let m = pow10_u128(zeros);
        proof {
            lemma_pow10_pos(zeros as nat);
            lemma_pow10_increases(zeros as nat, 20);
        }
        let ideal = round_signed(x, m, p);
        if ideal < lo {
            lo
        } else if ideal > hi {
            hi
        } else {
            ideal
        }
    }
}

} // verus!
