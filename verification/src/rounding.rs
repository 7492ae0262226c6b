//! Rounding to a number of zeros or of significant figures.
//!
//! The entry points are generic over [`Roundable`], which the eight
//! fixed-width integer kinds implement. Each operation computes the exact
//! mathematical rounding of the value at a power-of-ten scale and narrows
//! it back into the kind's range, saturating at the bounds the way the
//! native narrowing conversion treats an out-of-range result.

pub mod model;
pub mod laws;

mod engine;

use vstd::prelude::*;
use vstd::math::abs;
use crate::rounding::engine::{apply_sf, apply_zeros, count_digits};
use crate::rounding::model::{digit_count, pow10, round_to_multiple, round_to_sig_figs, saturate, Policy};

verus! {

/// Rounds the number to the given number of zeros: to the nearest multiple
/// of ten to the `zeros`-th power, a tie going away from zero.
pub fn round_zeros<T: Roundable>(number: T, zeros: u32) -> (r: T)
    ensures
        r.int_value() == saturate(
            round_to_multiple(Policy::Nearest, number.int_value(), pow10(zeros as nat)),
            T::min_int(),
            T::max_int(),
        ),
{
    number.round_zeros(zeros)
}

/// Rounds the number up to the given number of zeros: to the least multiple
/// of ten to the `zeros`-th power at or above it.
pub fn ceil_zeros<T: Roundable>(number: T, zeros: u32) -> (r: T)
    ensures
        r.int_value() == saturate(
            round_to_multiple(Policy::Up, number.int_value(), pow10(zeros as nat)),
            T::min_int(),
            T::max_int(),
        ),
{
    number.ceil_zeros(zeros)
}

/// Rounds the number down to the given number of zeros: to the greatest
/// multiple of ten to the `zeros`-th power at or below it.
pub fn floor_zeros<T: Roundable>(number: T, zeros: u32) -> (r: T)
    ensures
        r.int_value() == saturate(
            round_to_multiple(Policy::Down, number.int_value(), pow10(zeros as nat)),
            T::min_int(),
            T::max_int(),
        ),
{
    number.floor_zeros(zeros)
}

/// Rounds the number to the given number of significant figures, a tie
/// going away from zero.
pub fn round_sf<T: Roundable>(number: T, sig_figs: u32) -> (r: T)
    ensures
        r.int_value() == saturate(
            round_to_sig_figs(Policy::Nearest, number.int_value(), sig_figs as nat),
            T::min_int(),
            T::max_int(),
        ),
{
    number.round_sf(sig_figs)
}

/// Rounds the number up to the given number of significant figures.
pub fn ceil_sf<T: Roundable>(number: T, sig_figs: u32) -> (r: T)
    ensures
        r.int_value() == saturate(
            round_to_sig_figs(Policy::Up, number.int_value(), sig_figs as nat),
            T::min_int(),
            T::max_int(),
        ),
{
    number.ceil_sf(sig_figs)
}

/// Rounds the number down to the given number of significant figures.
pub fn floor_sf<T: Roundable>(number: T, sig_figs: u32) -> (r: T)
    ensures
        r.int_value() == saturate(
            round_to_sig_figs(Policy::Down, number.int_value(), sig_figs as nat),
            T::min_int(),
            T::max_int(),
        ),
{
    number.floor_sf(sig_figs)
}

/// A fixed-width integer kind that the rounding operations apply to.
///
/// Each implementing kind names the mathematical integer a value stands for
/// and the bounds of its range. Every operation returns the exact
/// mathematical rounding of that integer at a power-of-ten scale, saturated
/// at the bounds when the rounded magnitude leaves the kind's range.
pub trait Roundable: Sized {
    /// The mathematical integer this value stands for.
    spec fn int_value(self) -> int;

    /// The least value of the kind.
    spec fn min_int() -> int;

    /// The greatest value of the kind.
    spec fn max_int() -> int;

    /// Rounds the number to the given number of zeros, a tie going away
    /// from zero.
    fn round_zeros(self, zeros: u32) -> (r: Self)
        ensures
            r.int_value() == saturate(
                round_to_multiple(Policy::Nearest, self.int_value(), pow10(zeros as nat)),
                Self::min_int(),
                Self::max_int(),
            ),
    ;

    /// Rounds the number up to the given number of zeros.
    fn ceil_zeros(self, zeros: u32) -> (r: Self)
        ensures
            r.int_value() == saturate(
                round_to_multiple(Policy::Up, self.int_value(), pow10(zeros as nat)),
                Self::min_int(),
                Self::max_int(),
            ),
    ;

    /// Rounds the number down to the given number of zeros.
    fn floor_zeros(self, zeros: u32) -> (r: Self)
        ensures
            r.int_value() == saturate(
                round_to_multiple(Policy::Down, self.int_value(), pow10(zeros as nat)),
                Self::min_int(),
                Self::max_int(),
            ),
    ;

    /// Rounds the number to the given number of significant figures, a tie
    /// going away from zero.
    fn round_sf(self, sig_figs: u32) -> (r: Self)
        ensures
            r.int_value() == saturate(
                round_to_sig_figs(Policy::Nearest, self.int_value(), sig_figs as nat),
                Self::min_int(),
                Self::max_int(),
            ),
    ;

    /// Rounds the number up to the given number of significant figures.
    fn ceil_sf(self, sig_figs: u32) -> (r: Self)
        ensures
            r.int_value() == saturate(
                round_to_sig_figs(Policy::Up, self.int_value(), sig_figs as nat),
                Self::min_int(),
                Self::max_int(),
            ),
    ;

    /// Rounds the number down to the given number of significant figures.
    fn floor_sf(self, sig_figs: u32) -> (r: Self)
        ensures
            r.int_value() == saturate(
                round_to_sig_figs(Policy::Down, self.int_value(), sig_figs as nat),
                Self::min_int(),
                Self::max_int(),
            ),
    ;

    /// The number of digits in the value's integer part, an exact power of
    /// ten counting as its own exponent.
    fn get_digits(&self) -> (r: u32)
        ensures
            r as nat == digit_count(abs((*self).int_value())),
    ;
}

impl Roundable for i8 {
    open spec fn int_value(self) -> int {
        self as int
    }

    open spec fn min_int() -> int {
        i8::MIN as int
    }

    open spec fn max_int() -> int {
        i8::MAX as int
    }

    fn round_zeros(self, zeros: u32) -> i8 {
        apply_zeros(self as i128, zeros, i8::MIN as i128, i8::MAX as i128, Policy::Nearest) as i8
    }

    fn ceil_zeros(self, zeros: u32) -> i8 {
        apply_zeros(self as i128, zeros, i8::MIN as i128, i8::MAX as i128, Policy::Up) as i8
    }

    fn floor_zeros(self, zeros: u32) -> i8 {
        apply_zeros(self as i128, zeros, i8::MIN as i128, i8::MAX as i128, Policy::Down) as i8
    }

    fn round_sf(self, sig_figs: u32) -> i8 {
        apply_sf(self as i128, sig_figs, i8::MIN as i128, i8::MAX as i128, Policy::Nearest) as i8
    }

    fn ceil_sf(self, sig_figs: u32) -> i8 {
        apply_sf(self as i128, sig_figs, i8::MIN as i128, i8::MAX as i128, Policy::Up) as i8
    }

    fn floor_sf(self, sig_figs: u32) -> i8 {
        apply_sf(self as i128, sig_figs, i8::MIN as i128, i8::MAX as i128, Policy::Down) as i8
    }

    fn get_digits(&self) -> u32 {
        let v = *self as i128;
        if v == 0 {
            0
        } else if v < 0 {
            count_digits((-v) as u128)
        } else {
            count_digits(v as u128)
        }
    }
}

impl Roundable for i16 {
    open spec fn int_value(self) -> int {
        self as int
    }

    open spec fn min_int() -> int {
        i16::MIN as int
    }

    open spec fn max_int() -> int {
        i16::MAX as int
    }

    fn round_zeros(self, zeros: u32) -> i16 {
        apply_zeros(self as i128, zeros, i16::MIN as i128, i16::MAX as i128, Policy::Nearest)
            as i16
    }

    fn ceil_zeros(self, zeros: u32) -> i16 {
        apply_zeros(self as i128, zeros, i16::MIN as i128, i16::MAX as i128, Policy::Up) as i16
    }

    fn floor_zeros(self, zeros: u32) -> i16 {
        apply_zeros(self as i128, zeros, i16::MIN as i128, i16::MAX as i128, Policy::Down) as i16
    }

    fn round_sf(self, sig_figs: u32) -> i16 {
        apply_sf(self as i128, sig_figs, i16::MIN as i128, i16::MAX as i128, Policy::Nearest)
            as i16
    }

    fn ceil_sf(self, sig_figs: u32) -> i16 {
        apply_sf(self as i128, sig_figs, i16::MIN as i128, i16::MAX as i128, Policy::Up) as i16
    }

    fn floor_sf(self, sig_figs: u32) -> i16 {
        apply_sf(self as i128, sig_figs, i16::MIN as i128, i16::MAX as i128, Policy::Down) as i16
    }

    fn get_digits(&self) -> u32 {
        let v = *self as i128;
        if v == 0 {
            0
        } else if v < 0 {
            count_digits((-v) as u128)
        } else {
            count_digits(v as u128)
        }
    }
}

impl Roundable for i32 {
    open spec fn int_value(self) -> int {
        self as int
    }

    open spec fn min_int() -> int {
        i32::MIN as int
    }

    open spec fn max_int() -> int {
        i32::MAX as int
    }

    fn round_zeros(self, zeros: u32) -> i32 {
        apply_zeros(self as i128, zeros, i32::MIN as i128, i32::MAX as i128, Policy::Nearest)
            as i32
    }

    fn ceil_zeros(self, zeros: u32) -> i32 {
        apply_zeros(self as i128, zeros, i32::MIN as i128, i32::MAX as i128, Policy::Up) as i32
    }

    fn floor_zeros(self, zeros: u32) -> i32 {
        apply_zeros(self as i128, zeros, i32::MIN as i128, i32::MAX as i128, Policy::Down) as i32
    }

    fn round_sf(self, sig_figs: u32) -> i32 {
        apply_sf(self as i128, sig_figs, i32::MIN as i128, i32::MAX as i128, Policy::Nearest)
            as i32
    }

    fn ceil_sf(self, sig_figs: u32) -> i32 {
        apply_sf(self as i128, sig_figs, i32::MIN as i128, i32::MAX as i128, Policy::Up) as i32
    }

    fn floor_sf(self, sig_figs: u32) -> i32 {
        apply_sf(self as i128, sig_figs, i32::MIN as i128, i32::MAX as i128, Policy::Down) as i32
    }

    fn get_digits(&self) -> u32 {
        let v = *self as i128;
        if v == 0 {
            0
        } else if v < 0 {
            count_digits((-v) as u128)
        } else {
            count_digits(v as u128)
        }
    }
}

impl Roundable for i64 {
    open spec fn int_value(self) -> int {
        self as int
    }

    open spec fn min_int() -> int {
        i64::MIN as int
    }

    open spec fn max_int() -> int {
        i64::MAX as int
    }

    fn round_zeros(self, zeros: u32) -> i64 {
        apply_zeros(self as i128, zeros, i64::MIN as i128, i64::MAX as i128, Policy::Nearest)
            as i64
    }

    fn ceil_zeros(self, zeros: u32) -> i64 {
        apply_zeros(self as i128, zeros, i64::MIN as i128, i64::MAX as i128, Policy::Up) as i64
    }

    fn floor_zeros(self, zeros: u32) -> i64 {
        apply_zeros(self as i128, zeros, i64::MIN as i128, i64::MAX as i128, Policy::Down) as i64
    }

    fn round_sf(self, sig_figs: u32) -> i64 {
        apply_sf(self as i128, sig_figs, i64::MIN as i128, i64::MAX as i128, Policy::Nearest)
            as i64
    }

    fn ceil_sf(self, sig_figs: u32) -> i64 {
        apply_sf(self as i128, sig_figs, i64::MIN as i128, i64::MAX as i128, Policy::Up) as i64
    }

    fn floor_sf(self, sig_figs: u32) -> i64 {
        apply_sf(self as i128, sig_figs, i64::MIN as i128, i64::MAX as i128, Policy::Down) as i64
    }

    fn get_digits(&self) -> u32 {
        let v = *self as i128;
        if v == 0 {
            0
        } else if v < 0 {
            count_digits((-v) as u128)
        } else {
            count_digits(v as u128)
        }
    }
}

impl Roundable for u8 {
    open spec fn int_value(self) -> int {
        self as int
    }

    open spec fn min_int() -> int {
        0
    }

    open spec fn max_int() -> int {
        u8::MAX as int
    }

    fn round_zeros(self, zeros: u32) -> u8 {
        apply_zeros(self as i128, zeros, 0, u8::MAX as i128, Policy::Nearest) as u8
    }

    fn ceil_zeros(self, zeros: u32) -> u8 {
        apply_zeros(self as i128, zeros, 0, u8::MAX as i128, Policy::Up) as u8
    }

    fn floor_zeros(self, zeros: u32) -> u8 {
        apply_zeros(self as i128, zeros, 0, u8::MAX as i128, Policy::Down) as u8
    }

    fn round_sf(self, sig_figs: u32) -> u8 {
        apply_sf(self as i128, sig_figs, 0, u8::MAX as i128, Policy::Nearest) as u8
    }

    fn ceil_sf(self, sig_figs: u32) -> u8 {
        apply_sf(self as i128, sig_figs, 0, u8::MAX as i128, Policy::Up) as u8
    }

    fn floor_sf(self, sig_figs: u32) -> u8 {
        apply_sf(self as i128, sig_figs, 0, u8::MAX as i128, Policy::Down) as u8
    }

    fn get_digits(&self) -> u32 {
        if *self == 0 {
            0
        } else {
            count_digits(*self as u128)
        }
    }
}

impl Roundable for u16 {
    open spec fn int_value(self) -> int {
        self as int
    }

    open spec fn min_int() -> int {
        0
    }

    open spec fn max_int() -> int {
        u16::MAX as int
    }

    fn round_zeros(self, zeros: u32) -> u16 {
        apply_zeros(self as i128, zeros, 0, u16::MAX as i128, Policy::Nearest) as u16
    }

    fn ceil_zeros(self, zeros: u32) -> u16 {
        apply_zeros(self as i128, zeros, 0, u16::MAX as i128, Policy::Up) as u16
    }

    fn floor_zeros(self, zeros: u32) -> u16 {
        apply_zeros(self as i128, zeros, 0, u16::MAX as i128, Policy::Down) as u16
    }

    fn round_sf(self, sig_figs: u32) -> u16 {
        apply_sf(self as i128, sig_figs, 0, u16::MAX as i128, Policy::Nearest) as u16
    }

    fn ceil_sf(self, sig_figs: u32) -> u16 {
        apply_sf(self as i128, sig_figs, 0, u16::MAX as i128, Policy::Up) as u16
    }

    fn floor_sf(self, sig_figs: u32) -> u16 {
        apply_sf(self as i128, sig_figs, 0, u16::MAX as i128, Policy::Down) as u16
    }

    fn get_digits(&self) -> u32 {
        if *self == 0 {
            0
        } else {
            count_digits(*self as u128)
        }
    }
}

impl Roundable for u32 {
    open spec fn int_value(self) -> int {
        self as int
    }

    open spec fn min_int() -> int {
        0
    }

    open spec fn max_int() -> int {
        u32::MAX as int
    }

    fn round_zeros(self, zeros: u32) -> u32 {
        apply_zeros(self as i128, zeros, 0, u32::MAX as i128, Policy::Nearest) as u32
    }

    fn ceil_zeros(self, zeros: u32) -> u32 {
        apply_zeros(self as i128, zeros, 0, u32::MAX as i128, Policy::Up) as u32
    }

    fn floor_zeros(self, zeros: u32) -> u32 {
        apply_zeros(self as i128, zeros, 0, u32::MAX as i128, Policy::Down) as u32
    }

    fn round_sf(self, sig_figs: u32) -> u32 {
        apply_sf(self as i128, sig_figs, 0, u32::MAX as i128, Policy::Nearest) as u32
    }

    fn ceil_sf(self, sig_figs: u32) -> u32 {
        apply_sf(self as i128, sig_figs, 0, u32::MAX as i128, Policy::Up) as u32
    }

    fn floor_sf(self, sig_figs: u32) -> u32 {
        apply_sf(self as i128, sig_figs, 0, u32::MAX as i128, Policy::Down) as u32
    }

    fn get_digits(&self) -> u32 {
        if *self == 0 {
            0
        } else {
            count_digits(*self as u128)
        }
    }
}

impl Roundable for u64 {
    open spec fn int_value(self) -> int {
        self as int
    }

    open spec fn min_int() -> int {
        0
    }

    open spec fn max_int() -> int {
        u64::MAX as int
    }

    fn round_zeros(self, zeros: u32) -> u64 {
        apply_zeros(self as i128, zeros, 0, u64::MAX as i128, Policy::Nearest) as u64
    }

    fn ceil_zeros(self, zeros: u32) -> u64 {
        apply_zeros(self as i128, zeros, 0, u64::MAX as i128, Policy::Up) as u64
    }

    fn floor_zeros(self, zeros: u32) -> u64 {
        apply_zeros(self as i128, zeros, 0, u64::MAX as i128, Policy::Down) as u64
    }

    fn round_sf(self, sig_figs: u32) -> u64 {
        apply_sf(self as i128, sig_figs, 0, u64::MAX as i128, Policy::Nearest) as u64
    }

    fn ceil_sf(self, sig_figs: u32) -> u64 {
        apply_sf(self as i128, sig_figs, 0, u64::MAX as i128, Policy::Up) as u64
    }

    fn floor_sf(self, sig_figs: u32) -> u64 {
        apply_sf(self as i128, sig_figs, 0, u64::MAX as i128, Policy::Down) as u64
    }

    fn get_digits(&self) -> u32 {
        if *self == 0 {
            0
        } else {
            count_digits(*self as u128)
        }
    }
}

} // verus!
