use common_math::rounding::ceil_sf;
use common_math::rounding::ceil_zeros;
use common_math::rounding::floor_sf;
use common_math::rounding::floor_zeros;
use common_math::rounding::round_sf;
use common_math::rounding::round_zeros;
use common_math::rounding::Roundable;

#[test]
fn test_round_zeros() {
    assert_eq!(round_zeros(123_i32, 2), 100_i32);
    assert_eq!(round_zeros(12345_u64, 1), 12350_u64);
}

#[test]
fn test_ceil_zeros() {
    assert_eq!(ceil_zeros(123_i32, 2), 200_i32);
    assert_eq!(ceil_zeros(123453789_u64, 4), 123460000);
    assert_eq!(ceil_zeros(12345_u32, 0), 12345_u32);
    assert_eq!(ceil_zeros(-12645_i32, 3), -12000_i32);
}

#[test]
fn test_floor_zeros() {
    assert_eq!(floor_zeros(156_i32, 2), 100_i32);
    assert_eq!(floor_zeros(-12345_i64, 3), -13000_i64);
}

#[test]
fn test_round_sf() {
    assert_eq!(round_sf(12345_i32, 3), 12300_i32);
    assert_eq!(round_sf(123456789_u64, 5), 123460000_u64);
    assert_eq!(round_sf(-123456_i64, 2), -120000_i64)
}

#[test]
fn test_identity_at_zero_zeros() {
    assert_eq!(round_zeros(123_i8, 0), 123_i8);
    assert_eq!(round_zeros(i8::MIN, 0), i8::MIN);
    assert_eq!(ceil_zeros(-32768_i16, 0), -32768_i16);
    assert_eq!(floor_zeros(32767_i16, 0), 32767_i16);
    assert_eq!(round_zeros(-2047483647_i32, 0), -2047483647_i32);
    assert_eq!(ceil_zeros(i64::MIN, 0), i64::MIN);
    assert_eq!(floor_zeros(i64::MAX, 0), i64::MAX);
    assert_eq!(round_zeros(255_u8, 0), 255_u8);
    assert_eq!(ceil_zeros(65535_u16, 0), 65535_u16);
    assert_eq!(floor_zeros(4294967295_u32, 0), 4294967295_u32);
    assert_eq!(round_zeros(u64::MAX, 0), u64::MAX);
    assert_eq!(round_zeros(0_u32, 0), 0_u32);
}

#[test]
fn test_sig_figs_zero_fixed_point() {
    assert_eq!(round_sf(0_i32, 0), 0_i32);
    assert_eq!(round_sf(0_i32, 3), 0_i32);
    assert_eq!(round_sf(0_u64, 1000000), 0_u64);
    assert_eq!(ceil_sf(0_i8, 2), 0_i8);
    assert_eq!(ceil_sf(0_u16, 0), 0_u16);
    assert_eq!(floor_sf(0_i64, 7), 0_i64);
    assert_eq!(floor_sf(0_u8, 1), 0_u8);
}

#[test]
fn test_idempotence() {
    let r = round_zeros(123456_i64, 3);
    assert_eq!(r, 123000_i64);
    assert_eq!(round_zeros(r, 3), r);
    let c = ceil_zeros(123456_i64, 3);
    assert_eq!(c, 124000_i64);
    assert_eq!(ceil_zeros(c, 3), c);
    let f = floor_zeros(-123456_i64, 3);
    assert_eq!(f, -124000_i64);
    assert_eq!(floor_zeros(f, 3), f);
    let u = round_zeros(987_u16, 1);
    assert_eq!(u, 990_u16);
    assert_eq!(round_zeros(u, 1), u);
    let s = round_sf(999_i32, 1);
    assert_eq!(s, 1000_i32);
    assert_eq!(round_sf(s, 1), s);
    let t = ceil_sf(95_u8, 1);
    assert_eq!(t, 100_u8);
    assert_eq!(ceil_sf(t, 1), t);
    let v = floor_sf(-104_i16, 2);
    assert_eq!(v, -110_i16);
    assert_eq!(floor_sf(v, 2), v);
}

#[test]
fn test_ordering() {
    assert!(floor_zeros(12345_i32, 2) <= round_zeros(12345_i32, 2));
    assert!(round_zeros(12345_i32, 2) <= ceil_zeros(12345_i32, 2));
    assert!(floor_zeros(-12345_i32, 2) <= round_zeros(-12345_i32, 2));
    assert!(round_zeros(-12345_i32, 2) <= ceil_zeros(-12345_i32, 2));
    assert!(floor_zeros(98765_u32, 3) <= round_zeros(98765_u32, 3));
    assert!(round_zeros(98765_u32, 3) <= ceil_zeros(98765_u32, 3));
    assert!(floor_sf(-5555_i16, 2) <= round_sf(-5555_i16, 2));
    assert!(round_sf(-5555_i16, 2) <= ceil_sf(-5555_i16, 2));
    assert!(floor_sf(5555_u16, 2) <= round_sf(5555_u16, 2));
    assert!(round_sf(5555_u16, 2) <= ceil_sf(5555_u16, 2));
}

#[test]
fn test_sign_symmetry() {
    assert_eq!(round_zeros(-123456_i64, 2), -round_zeros(123456_i64, 2));
    assert_eq!(round_zeros(-25_i32, 1), -round_zeros(25_i32, 1));
    assert_eq!(ceil_zeros(-12345_i64, 3), -floor_zeros(12345_i64, 3));
    assert_eq!(floor_zeros(-12345_i64, 3), -ceil_zeros(12345_i64, 3));
    assert_eq!(round_sf(-12345_i32, 2), -round_sf(12345_i32, 2));
    assert_eq!(ceil_sf(-987_i16, 1), -floor_sf(987_i16, 1));
    assert_eq!(floor_sf(-987_i16, 1), -ceil_sf(987_i16, 1));
}

#[test]
fn test_ties_away_from_zero() {
    assert_eq!(round_zeros(25_i32, 1), 30_i32);
    assert_eq!(round_zeros(-25_i32, 1), -30_i32);
    assert_eq!(round_zeros(15_u8, 1), 20_u8);
    assert_eq!(round_zeros(250_u16, 2), 300_u16);
    assert_eq!(round_zeros(-1500_i64, 3), -2000_i64);
    assert_eq!(round_sf(15_i32, 1), 20_i32);
    assert_eq!(round_sf(-450_i32, 1), -500_i32);
}

#[test]
fn test_saturation_at_kind_bounds() {
    assert_eq!(round_zeros(126_i8, 1), 127_i8);
    assert_eq!(ceil_zeros(96_i8, 3), 127_i8);
    assert_eq!(floor_zeros(-96_i8, 3), -128_i8);
    assert_eq!(ceil_zeros(200_u8, 3), 255_u8);
    assert_eq!(round_zeros(255_u8, 3), 0_u8);
    assert_eq!(ceil_zeros(1_u8, 30), 255_u8);
    assert_eq!(floor_zeros(1_u8, 30), 0_u8);
    assert_eq!(round_zeros(1_u8, 30), 0_u8);
    assert_eq!(floor_zeros(-1_i16, 25), i16::MIN);
    assert_eq!(round_zeros(u64::MAX, 1), u64::MAX);
    assert_eq!(round_zeros(i64::MIN, 3), i64::MIN);
    assert_eq!(ceil_sf(250_u8, 1), 255_u8);
}

#[test]
fn test_get_digits() {
    assert_eq!(0_i32.get_digits(), 0);
    assert_eq!(1_i32.get_digits(), 0);
    assert_eq!(9_i32.get_digits(), 1);
    assert_eq!(10_i32.get_digits(), 1);
    assert_eq!(11_i32.get_digits(), 2);
    assert_eq!(100_u8.get_digits(), 2);
    assert_eq!(101_u16.get_digits(), 3);
    assert_eq!((-999_i16).get_digits(), 3);
    assert_eq!((-1000_i16).get_digits(), 3);
    assert_eq!(u64::MAX.get_digits(), 20);
    assert_eq!(i64::MIN.get_digits(), 19);
}

#[test]
fn test_sig_figs_at_least_digit_count() {
    assert_eq!(round_sf(123_i32, 3), 123_i32);
    assert_eq!(round_sf(123_i32, 5), 123_i32);
    assert_eq!(ceil_sf(987_u32, 3), 987_u32);
    assert_eq!(floor_sf(-123_i64, 10), -123_i64);
    assert_eq!(round_sf(7_u8, 1), 7_u8);
}

#[test]
fn test_sig_figs_zero_figures() {
    assert_eq!(round_sf(123_i32, 0), 0_i32);
    assert_eq!(ceil_sf(123_i32, 0), 1000_i32);
    assert_eq!(floor_sf(123_i32, 0), 0_i32);
    assert_eq!(ceil_sf(-123_i32, 0), 0_i32);
    assert_eq!(floor_sf(-123_i32, 0), -1000_i32);
    assert_eq!(round_sf(789_u16, 0), 1000_u16);
}

#[test]
fn test_sig_figs_at_power_of_ten() {
    assert_eq!(round_sf(100_i32, 1), 100_i32);
    assert_eq!(ceil_sf(100_i32, 1), 100_i32);
    assert_eq!(floor_sf(100_i32, 1), 100_i32);
    assert_eq!(round_sf(1000_i64, 2), 1000_i64);
    assert_eq!(round_sf(101_i32, 1), 100_i32);
    assert_eq!(ceil_sf(101_i32, 1), 200_i32);
}

#[test]
fn test_exact_above_float_precision() {
    assert_eq!(round_zeros(9007199254740993_u64, 1), 9007199254740990_u64);
    assert_eq!(ceil_zeros(9007199254740993_u64, 1), 9007199254741000_u64);
    assert_eq!(floor_zeros(u64::MAX, 1), 18446744073709551610_u64);
    assert_eq!(round_sf(18014398509481985_i64, 16), 18014398509481990_i64);
}
