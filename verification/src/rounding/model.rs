//! The mathematical model that the contracts of the rounding functions
//! speak of: powers of ten, rounding an integer to a multiple of a scale
//! factor, digit counting, significant-figure rounding, and saturation at
//! the bounds of a fixed-width integer kind.

use vstd::prelude::*;
use vstd::arithmetic::power::{pow, lemma_pow_adds, lemma_pow_positive, lemma_pow_increases};
use vstd::arithmetic::div_mod::{
    lemma_fundamental_div_mod, lemma_fundamental_div_mod_converse, lemma_mod_bound,
    lemma_mod_multiples_basic,
};
use vstd::math::abs;

verus! {

/// A rounding policy: to the nearest multiple with ties away from zero,
/// toward positive infinity, or toward negative infinity.
#[derive(Clone, Copy, PartialEq, Eq, Debug)]
pub enum Policy {
    Nearest,
    Up,
    Down,
}

/// The policy that plays the given policy's role on the other side of zero:
/// rounding toward positive infinity on a negated value is rounding toward
/// negative infinity on the original, and nearest stays nearest.
pub open spec fn mirror(p: Policy) -> Policy {
    match p {
        Policy::Nearest => Policy::Nearest,
        Policy::Up => Policy::Down,
        Policy::Down => Policy::Up,
    }
}

/// Ten raised to the `n`-th power.
pub open spec fn pow10(n: nat) -> int {
    pow(10, n)
}

/// The multiple of `m` that `x` rounds to under policy `p`, for `m > 0`:
/// `Down` picks the greatest multiple at or below `x`, `Up` the least
/// multiple at or above `x`, and `Nearest` the closer of the two, a tie
/// going away from zero.
pub open spec fn round_to_multiple(p: Policy, x: int, m: int) -> int {
    let below = m * (x / m);
    match p {
        Policy::Down => below,
        Policy::Up => if x % m == 0 { x } else { below + m },
        Policy::Nearest => {
            let r = x % m;
            if 2 * r < m {
                below
            } else if 2 * r > m {
                below + m
            } else if x >= 0 {
                below + m
            } else {
                below
            }
        },
    }
}

/// The number of digits in the integer part of a magnitude `a`, counted as
/// the least `n` with `a <= pow10(n)`. An exact power of ten counts as its
/// own exponent (1 has 0 digits, 10 has 1, 100 has 2), which matches
/// `ceil(log10(a))`.
pub open spec fn digit_count(a: nat) -> nat
    decreases a,
{
    if a <= 1 {
        0
    } else {
        1 + digit_count((a + 9) / 10)
    }
}

/// `x` rounded to `sig_figs` significant digits under policy `p`: zero stays
/// zero; asking for at least as many digits as the value has returns it
/// unchanged; otherwise the surplus digit positions are rounded away.
pub open spec fn round_to_sig_figs(p: Policy, x: int, sig_figs: nat) -> int {
    if x == 0 {
        0
    } else if sig_figs >= digit_count(abs(x)) {
        x
    } else {
        round_to_multiple(p, x, pow10((digit_count(abs(x)) - sig_figs) as nat))
    }
}

/// `x` clamped to the inclusive range `[lo, hi]`: the value an overscaled
/// rounding result narrows to when it leaves the range of a bounded kind.
pub open spec fn saturate(x: int, lo: int, hi: int) -> int {
    if x < lo {
        lo
    } else if x > hi {
        hi
    } else {
        x
    }
}

/// A power of ten is at least one.
pub proof fn lemma_pow10_pos(n: nat)
    ensures
        pow10(n) >= 1,
{
    lemma_pow_positive(10, n);
}

/// Powers of ten do not decrease with the exponent.
pub proof fn lemma_pow10_increases(m: nat, n: nat)
    requires
        m <= n,
    ensures
        pow10(m) <= pow10(n),
{
    lemma_pow_increases(10, m, n);
}

/// The twentieth power of ten, written out: the first power of ten above
/// the range of every 64-bit integer kind.
pub proof fn lemma_pow10_20()
    ensures
        pow10(20) == 100_000_000_000_000_000_000,
{
    assert(pow(10, 20) == 100_000_000_000_000_000_000int) by {
        reveal_with_fuel(pow, 21);
    }
}

/// One more power of ten multiplies by ten.
pub proof fn lemma_pow10_unfold(n: nat)
    ensures
        pow10(n + 1) == 10 * pow10(n),
{
    assert(pow(10, n + 1) == 10 * pow(10, n)) by {
        reveal_with_fuel(pow, 2);
    }
}

/// A magnitude of at least one is bounded by ten to its digit count and,
/// when it has any digits at all, exceeds the power of ten one position
/// lower: `digit_count` picks the least exponent whose power reaches `a`.
pub proof fn lemma_digit_count_bounds(a: nat)
    requires
        a >= 1,
    ensures
        a <= pow10(digit_count(a)),
        digit_count(a) >= 1 ==> pow10((digit_count(a) - 1) as nat) < a,
    decreases a,
{
    if a <= 1 {
        lemma_pow10_pos(0);
        assert(pow10(0) == 1) by {
            reveal_with_fuel(pow, 1);
        }
    } else {
        let b = (a + 9) / 10;
        lemma_fundamental_div_mod(a as int + 9, 10);
        lemma_mod_bound(a as int + 9, 10);
        assert(a <= 10 * b && 10 * b <= a + 9);
        assert(1 <= b < a);
        lemma_digit_count_bounds(b);
        let d = digit_count(b);
        assert(digit_count(a) == d + 1);
        lemma_pow10_unfold(d);
        assert(10 * b <= 10 * pow10(d));
        if d == 0 {
            assert(pow10(0) == 1) by {
                reveal_with_fuel(pow, 1);
            }
        } else {
            lemma_pow10_unfold((d - 1) as nat);
            assert(10 * pow10((d - 1) as nat) <= 10 * (b - 1));
        }
    }
}

/// The two bounds determine the digit count: no other exponent satisfies
/// them.
pub proof fn lemma_digit_count_unique(a: nat, n: nat)
    requires
        a >= 1,
        a <= pow10(n),
        n >= 1 ==> pow10((n - 1) as nat) < a,
    ensures
        digit_count(a) == n,
{
    let d = digit_count(a);
    lemma_digit_count_bounds(a);
    if d < n {
        lemma_pow10_increases(d, (n - 1) as nat);
        assert(false);
    }
    if d > n {
        lemma_pow10_increases(n, (d - 1) as nat);
        assert(false);
    }
}

/// A magnitude that a power of ten reaches has at most that many digits.
pub proof fn lemma_digit_count_le(a: nat, n: nat)
    requires
        a >= 1,
        a <= pow10(n),
    ensures
        digit_count(a) <= n,
{
    let d = digit_count(a);
    lemma_digit_count_bounds(a);
    if d > n {
        lemma_pow10_increases(n, (d - 1) as nat);
        assert(false);
    }
}

/// Ten to a lower power divides ten to a higher one.
pub proof fn lemma_pow10_divides(k: nat, j: nat)
    requires
        k <= j,
    ensures
        pow10(j) % pow10(k) == 0,
{
    lemma_pow_adds(10, k, (j - k) as nat);
    lemma_pow10_pos(k);
    lemma_mod_multiples_basic(pow10((j - k) as nat), pow10(k));
    assert(pow10(k) * pow10((j - k) as nat) == pow10((j - k) as nat) * pow10(k))
        by (nonlinear_arith);
}

/// Divisibility carries down: a multiple of `m` is a multiple of every
/// positive divisor of `m`.
pub proof fn lemma_multiple_of_divisor(r: int, m: int, m2: int)
    requires
        m >= 1,
        m2 >= 1,
        r % m == 0,
        m % m2 == 0,
    ensures
        r % m2 == 0,
{
    lemma_fundamental_div_mod(r, m);
    lemma_fundamental_div_mod(m, m2);
    assert(r == ((m / m2) * (r / m)) * m2) by (nonlinear_arith)
        requires
            r == m * (r / m),
            m == m2 * (m / m2),
    ;
    lemma_mod_multiples_basic((m / m2) * (r / m), m2);
}

/// Rounding cannot overshoot a bound that is itself a multiple of the
/// scale: the result stays within `[-b, b]` whenever `x` does.
pub proof fn lemma_round_bounded(p: Policy, x: int, m: int, b: int)
    requires
        m >= 1,
        b % m == 0,
        -b <= x <= b,
    ensures
        -b <= round_to_multiple(p, x, m) <= b,
{
    let q = x / m;
    let r = x % m;
    let bq = b / m;
    lemma_fundamental_div_mod(x, m);
    lemma_mod_bound(x, m);
    lemma_fundamental_div_mod(b, m);
    assert(q >= -bq) by (nonlinear_arith)
        requires
            m >= 1,
            x == m * q + r,
            0 <= r < m,
            b == m * bq,
            -b <= x,
    ;
    assert(m * q >= -b) by (nonlinear_arith)
        requires
            q >= -bq,
            m >= 1,
            b == m * bq,
    ;
    if r != 0 {
        assert(q + 1 <= bq) by (nonlinear_arith)
            requires
                m >= 1,
                x == m * q + r,
                0 < r < m,
                b == m * bq,
                x <= b,
        ;
        assert(m * q + m <= b) by (nonlinear_arith)
            requires
                q + 1 <= bq,
                m >= 1,
                b == m * bq,
        ;
    }
}

/// Rounding to a multiple of `m` yields a multiple of `m`.
pub proof fn lemma_round_is_multiple(p: Policy, x: int, m: int)
    requires
        m >= 1,
    ensures
        round_to_multiple(p, x, m) % m == 0,
{
    let q = x / m;
    lemma_fundamental_div_mod(x, m);
    lemma_mod_multiples_basic(q, m);
    lemma_mod_multiples_basic(q + 1, m);
    assert(m * q == q * m) by (nonlinear_arith);
    assert(m * q + m == (q + 1) * m) by (nonlinear_arith);
}

/// A value that is already a multiple of `m` rounds to itself under every
/// policy.
pub proof fn lemma_round_multiple_fixed(p: Policy, x: int, m: int)
    requires
        m >= 1,
        x % m == 0,
    ensures
        round_to_multiple(p, x, m) == x,
{
    lemma_fundamental_div_mod(x, m);
}

/// Rounding a negated value mirrors rounding the value: the nearest policy
/// is symmetric (ties away from zero on either side), and the directed
/// policies swap roles.
pub proof fn lemma_round_negate_multiple(p: Policy, x: int, m: int)
    requires
        m >= 1,
    ensures
        round_to_multiple(p, -x, m) == -round_to_multiple(mirror(p), x, m),
{
    let q = x / m;
    let r = x % m;
    lemma_fundamental_div_mod(x, m);
    lemma_mod_bound(x, m);
    if r == 0 {
        assert(-x == (-q) * m + 0) by (nonlinear_arith)
            requires
                x == m * q + r,
                r == 0,
        ;
        lemma_fundamental_div_mod_converse(-x, m, -q, 0);
        assert(m * ((-x) / m) == -(m * q)) by (nonlinear_arith)
            requires
                (-x) / m == -q,
        ;
    } else {
        assert(-x == (-q - 1) * m + (m - r)) by (nonlinear_arith)
            requires
                x == m * q + r,
        ;
        lemma_fundamental_div_mod_converse(-x, m, -q - 1, m - r);
        assert(m * ((-x) / m) == -(m * q) - m) by (nonlinear_arith)
            requires
                (-x) / m == -q - 1,
        ;
    }
}

/// A value smaller than half the scale factor rounds to zero under the
/// nearest policy, and to the adjacent multiple, or zero, under the
/// directed ones.
pub proof fn lemma_round_small(p: Policy, x: int, m: int)
    requires
        m >= 1,
        2 * abs(x) < m,
    ensures
        round_to_multiple(p, x, m) == match p {
            Policy::Nearest => 0int,
            Policy::Up => if x > 0 { m } else { 0int },
            Policy::Down => if x < 0 { -m } else { 0int },
        },
{
    if x >= 0 {
        lemma_fundamental_div_mod_converse(x, m, 0, x);
        assert(m * (x / m) == 0) by (nonlinear_arith)
            requires
                x / m == 0,
        ;
    } else {
        let y = -x;
        lemma_round_negate_multiple(p, y, m);
        lemma_fundamental_div_mod_converse(y, m, 0, y);
        assert(m * (y / m) == 0) by (nonlinear_arith)
            requires
                y / m == 0,
        ;
    }
}

} // verus!
