//! General laws of the rounding operations, stated over the same model the
//! operations' contracts use and proved once for every value.

use vstd::prelude::*;
use vstd::arithmetic::div_mod::{lemma_fundamental_div_mod, lemma_mod_bound};
use vstd::arithmetic::power::lemma_pow0;
use vstd::math::abs;
use crate::rounding::model::{
    digit_count, lemma_digit_count_bounds, lemma_digit_count_le, lemma_multiple_of_divisor,
    lemma_pow10_divides, lemma_pow10_pos, lemma_round_bounded, lemma_round_is_multiple,
    lemma_round_multiple_fixed, lemma_round_negate_multiple, mirror, pow10, round_to_multiple,
    round_to_sig_figs, saturate, Policy,
};

verus! {

/// Idempotence: a value that is already rounded at a power-of-ten scale
/// rounds to itself at the same scale, under every policy.
pub proof fn lemma_round_idempotent(p: Policy, x: int, zeros: nat)
    ensures
        round_to_multiple(p, round_to_multiple(p, x, pow10(zeros)), pow10(zeros))
            == round_to_multiple(p, x, pow10(zeros)),
{
    lemma_pow10_pos(zeros);
    lemma_round_is_multiple(p, x, pow10(zeros));
    lemma_round_multiple_fixed(p, round_to_multiple(p, x, pow10(zeros)), pow10(zeros));
}

/// Idempotence carries through saturation: when the rounded value fits the
/// kind's range, rounding the kind's result again at the same scale leaves
/// it unchanged.
pub proof fn lemma_round_saturated_idempotent(p: Policy, x: int, zeros: nat, lo: int, hi: int)
    requires
        lo <= round_to_multiple(p, x, pow10(zeros)) <= hi,
    ensures
        saturate(
            round_to_multiple(
                p,
                saturate(round_to_multiple(p, x, pow10(zeros)), lo, hi),
                pow10(zeros),
            ),
            lo,
            hi,
        ) == saturate(round_to_multiple(p, x, pow10(zeros)), lo, hi),
{
    lemma_round_idempotent(p, x, zeros);
}

/// Idempotence for significant figures: a value already rounded to a
/// number of significant figures rounds to itself at that same number,
/// under every policy. The rounded value never gains digits beyond the
/// original's count, so its own scale divides the one it was rounded at.
pub proof fn lemma_sig_figs_idempotent(p: Policy, x: int, sig_figs: nat)
    ensures
        round_to_sig_figs(p, round_to_sig_figs(p, x, sig_figs), sig_figs)
            == round_to_sig_figs(p, x, sig_figs),
{
    if x != 0 && sig_figs < digit_count(abs(x)) {
        let d = digit_count(abs(x));
        let m = pow10((d - sig_figs) as nat);
        let r = round_to_multiple(p, x, m);
        lemma_pow10_pos((d - sig_figs) as nat);
        lemma_pow10_pos(d);
        lemma_digit_count_bounds(abs(x));
        lemma_pow10_divides((d - sig_figs) as nat, d);
        lemma_round_bounded(p, x, m, pow10(d));
        lemma_round_is_multiple(p, x, m);
        if r != 0 {
            lemma_digit_count_le(abs(r), d);
            let d2 = digit_count(abs(r));
            if sig_figs < d2 {
                let m2 = pow10((d2 - sig_figs) as nat);
                lemma_pow10_pos((d2 - sig_figs) as nat);
                lemma_pow10_divides((d2 - sig_figs) as nat, (d - sig_figs) as nat);
                lemma_multiple_of_divisor(r, m, m2);
                lemma_round_multiple_fixed(p, r, m2);
            }
        }
    }
}

/// Idempotence for significant figures carries through saturation when the
/// rounded value fits the kind's range.
pub proof fn lemma_sig_figs_saturated_idempotent(
    p: Policy,
    x: int,
    sig_figs: nat,
    lo: int,
    hi: int,
)
    requires
        lo <= round_to_sig_figs(p, x, sig_figs) <= hi,
    ensures
        saturate(
            round_to_sig_figs(
                p,
                saturate(round_to_sig_figs(p, x, sig_figs), lo, hi),
                sig_figs,
            ),
            lo,
            hi,
        ) == saturate(round_to_sig_figs(p, x, sig_figs), lo, hi),
{
    lemma_sig_figs_idempotent(p, x, sig_figs);
}

/// Ordering: at any scale, rounding down never exceeds rounding to
/// nearest, which never exceeds rounding up.
pub proof fn lemma_round_ordering(x: int, zeros: nat)
    ensures
        round_to_multiple(Policy::Down, x, pow10(zeros))
            <= round_to_multiple(Policy::Nearest, x, pow10(zeros)),
        round_to_multiple(Policy::Nearest, x, pow10(zeros))
            <= round_to_multiple(Policy::Up, x, pow10(zeros)),
{
    lemma_pow10_pos(zeros);
    lemma_fundamental_div_mod(x, pow10(zeros));
    lemma_mod_bound(x, pow10(zeros));
}

/// Ordering survives saturation unconditionally, the clamp being monotone.
pub proof fn lemma_round_saturated_ordering(x: int, zeros: nat, lo: int, hi: int)
    requires
        lo <= hi,
    ensures
        saturate(round_to_multiple(Policy::Down, x, pow10(zeros)), lo, hi)
            <= saturate(round_to_multiple(Policy::Nearest, x, pow10(zeros)), lo, hi),
        saturate(round_to_multiple(Policy::Nearest, x, pow10(zeros)), lo, hi)
            <= saturate(round_to_multiple(Policy::Up, x, pow10(zeros)), lo, hi),
{
    lemma_round_ordering(x, zeros);
}

/// Ordering for significant figures: the digit count is fixed by the value
/// alone, so the three policies order at the same scale.
pub proof fn lemma_sig_figs_ordering(x: int, sig_figs: nat)
    ensures
        round_to_sig_figs(Policy::Down, x, sig_figs)
            <= round_to_sig_figs(Policy::Nearest, x, sig_figs),
        round_to_sig_figs(Policy::Nearest, x, sig_figs)
            <= round_to_sig_figs(Policy::Up, x, sig_figs),
{
    if x != 0 && sig_figs < digit_count(abs(x)) {
        lemma_round_ordering(x, (digit_count(abs(x)) - sig_figs) as nat);
    }
}

/// Ordering for significant figures survives saturation as well.
pub proof fn lemma_sig_figs_saturated_ordering(x: int, sig_figs: nat, lo: int, hi: int)
    requires
        lo <= hi,
    ensures
        saturate(round_to_sig_figs(Policy::Down, x, sig_figs), lo, hi)
            <= saturate(round_to_sig_figs(Policy::Nearest, x, sig_figs), lo, hi),
        saturate(round_to_sig_figs(Policy::Nearest, x, sig_figs), lo, hi)
            <= saturate(round_to_sig_figs(Policy::Up, x, sig_figs), lo, hi),
{
    lemma_sig_figs_ordering(x, sig_figs);
}

/// Zero is a fixed point of significant-figure rounding: it rounds to zero
/// at every number of significant figures, under every policy, and stays
/// zero through saturation into any kind's range.
pub proof fn lemma_sig_figs_zero(p: Policy, sig_figs: nat, lo: int, hi: int)
    requires
        lo <= 0 <= hi,
    ensures
        round_to_sig_figs(p, 0, sig_figs) == 0,
        saturate(round_to_sig_figs(p, 0, sig_figs), lo, hi) == 0,
{
}

/// Sign symmetry: nearest-rounding commutes with negation, a tie going
/// away from zero on either side, while the two directed policies swap
/// roles under it.
pub proof fn lemma_round_negate(p: Policy, x: int, zeros: nat)
    ensures
        round_to_multiple(p, -x, pow10(zeros)) == -round_to_multiple(mirror(p), x, pow10(zeros)),
{
    lemma_pow10_pos(zeros);
    lemma_round_negate_multiple(p, x, pow10(zeros));
}

/// Sign symmetry for significant figures: the digit count is blind to
/// sign, so negation flips the policy and the sign of the result.
pub proof fn lemma_sig_figs_negate(p: Policy, x: int, sig_figs: nat)
    ensures
        round_to_sig_figs(p, -x, sig_figs) == -round_to_sig_figs(mirror(p), x, sig_figs),
{
    if x != 0 {
        assert(abs(-x) == abs(x));
        if sig_figs < digit_count(abs(x)) {
            let scale = (digit_count(abs(x)) - sig_figs) as nat;
            lemma_pow10_pos(scale);
            lemma_round_negate_multiple(p, x, pow10(scale));
        }
    }
}

/// Identity at zero zeros: every integer is a multiple of one, so rounding
/// at scale zero returns the value unchanged under every policy, and
/// saturation at the kind's own bounds leaves it alone.
pub proof fn lemma_round_unit(p: Policy, x: int, lo: int, hi: int)
    requires
        lo <= x <= hi,
    ensures
        round_to_multiple(p, x, pow10(0)) == x,
        saturate(round_to_multiple(p, x, pow10(0)), lo, hi) == x,
{
    assert(pow10(0) == 1) by {
        lemma_pow0(10);
    }
    lemma_fundamental_div_mod(x, 1);
    lemma_mod_bound(x, 1);
    lemma_round_multiple_fixed(p, x, 1);
}

} // verus!
