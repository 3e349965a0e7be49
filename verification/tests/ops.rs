use melodium_libs::ops::boolean;
use melodium_libs::ops::boolean_streams;
use melodium_libs::ops::generic;
use melodium_libs::ops::generic_streams;
use melodium_libs::ops::int128;
use melodium_libs::ops::int64;
use melodium_libs::ops::int64_streams;
use melodium_libs::ops::num;
use melodium_libs::ops::num_streams;
use melodium_libs::ops::strings;
use melodium_libs::ops::strings_streams;
use melodium_libs::ops::uint64;
use melodium_libs::ops::uint64_streams;

#[test]
fn wrapping_arithmetic_of_num() {
    assert_eq!(num::add(i8::MAX, 1i8), i8::MIN);
    assert_eq!(num::wrapping_sub(0u8, 1u8), 255u8);
    assert_eq!(num::mul(16u8, 16u8), 0u8);
    assert_eq!(num::wrapping_neg(i32::MIN), i32::MIN);
    assert_eq!(num::neg(5i16), -5i16);
}

#[test]
fn checked_arithmetic_of_num() {
    assert_eq!(num::checked_add(250u8, 5u8), Some(255u8));
    assert_eq!(num::checked_add(250u8, 6u8), None);
    assert_eq!(num::checked_sub(3u32, 4u32), None);
    assert_eq!(num::checked_mul(-3i64, 7i64), Some(-21i64));
    assert_eq!(num::checked_neg(i8::MIN), None);
    assert_eq!(num::checked_div(7i32, 0i32), None);
    assert_eq!(num::checked_div(i32::MIN, -1i32), None);
    assert_eq!(num::checked_rem(-7i32, 2i32), Some(-1i32));
    assert_eq!(num::checked_pow(2u16, 16), None);
    assert_eq!(num::checked_pow(3i32, 4), Some(81i32));
}

#[test]
fn saturating_arithmetic_of_num() {
    assert_eq!(num::saturating_add(120i8, 10i8), 127i8);
    assert_eq!(num::saturating_sub(-120i8, 10i8), -128i8);
    assert_eq!(num::saturating_mul(-100i8, 2i8), -128i8);
    assert_eq!(num::saturating_sub(3u64, 5u64), 0u64);
}

#[test]
fn division_of_num_truncates_and_gives_zero_on_zero_divisor() {
    assert_eq!(num::div(-7i32, 2i32), -3i32);
    assert_eq!(num::rem(-7i32, 2i32), -1i32);
    assert_eq!(num::div(7u32, 0u32), 0u32);
    assert_eq!(num::rem(7u32, 0u32), 0u32);
    assert_eq!(num::div(i64::MIN, -1i64), i64::MIN);
}

#[test]
fn euclidean_division_of_num() {
    assert_eq!(num::euclid_div(-7i32, 2i32), -4i32);
    assert_eq!(num::euclid_rem(-7i32, 2i32), 1i32);
    assert_eq!(num::euclid_div(7i32, -2i32), -3i32);
    assert_eq!(num::euclid_rem(7i32, -2i32), 1i32);
    assert_eq!(num::checked_euclid_div(1i8, 0i8), None);
    assert_eq!(num::checked_euclid_rem(-7i8, 3i8), Some(2i8));
}

#[test]
fn signs_of_num() {
    assert_eq!(num::abs(-5i32), Some(5i32));
    assert_eq!(num::abs(i32::MIN), None);
    assert_eq!(num::signum(-9i64), -1i64);
    assert_eq!(num::signum(0i64), 0i64);
    assert!(num::is_positive(3i8));
    assert!(!num::is_positive(0i8));
    assert!(num::is_negative(-3i8));
    assert_eq!(num::pow(2u8, 9), 0u8);
}

#[test]
fn num_streams_pair_values_and_stop_with_shorter_input() {
    let r = num_streams::add(&vec![1i32, 2, 3], &vec![10i32, 20]);
    assert_eq!(r, vec![11, 22]);
    let r = num_streams::checked_div(&vec![6u8, 1], &vec![3u8, 0]);
    assert_eq!(r, vec![Some(2u8), None]);
    let r = num_streams::abs(&vec![-1i8, i8::MIN]);
    assert_eq!(r, vec![Some(1i8), None]);
    let r = num_streams::pow(&vec![2u32, 3u32], 3);
    assert_eq!(r, vec![8u32, 27u32]);
}

#[test]
fn typed_integer_operations() {
    assert_eq!(uint64::add(2, 3), 5);
    assert_eq!(uint64::sub(9, 3), 6);
    assert_eq!(uint64::mult(6, 7), 42);
    assert_eq!(uint64::div(7, 2), 3);
    assert_eq!(uint64::rem(7, 2), 1);
    assert_eq!(uint64::pow(2, 10), 1024);
    assert_eq!(uint64::min(4, 9), 4);
    assert_eq!(uint64::max(4, 9), 9);
    assert!(uint64::ge(4, 4));
    assert!(!uint64::gt(4, 4));
    assert!(uint64::le(3, 4));
    assert!(uint64::lt(3, 4));
    assert!(uint64::equal(4, 4));
    assert!(uint64::not_equal(4, 5));
    assert_eq!(int64::div(-7, 2), -3);
    assert_eq!(int64::rem(-7, 2), -1);
    assert_eq!(int64::abs(-12), 12);
    assert_eq!(int64::pow(-2, 3), -8);
    assert_eq!(int128::mult(-4, 5), -20);
    assert_eq!(int128::abs(-7), 7);
}

#[test]
fn typed_integer_streams() {
    assert_eq!(uint64_streams::add(&vec![1, 2], &vec![3, 4, 5]), vec![4, 6]);
    assert_eq!(uint64_streams::lower_equal(&vec![1, 5], &vec![1, 4]), vec![true, false]);
    assert_eq!(int64_streams::abs(&vec![-3, 4]), vec![3, 4]);
    assert_eq!(int64_streams::max(&vec![-3, 4], &vec![2, 1]), vec![2, 4]);
}

#[test]
fn boolean_operations() {
    assert!(boolean::and(true, true));
    assert!(!boolean::and(true, false));
    assert!(boolean::or(false, true));
    assert!(boolean::xor(true, false));
    assert!(!boolean::xor(true, true));
    assert!(boolean::not(false));
    assert!(boolean::equal(false, false));
    assert!(boolean::not_equal(false, true));
    assert_eq!(boolean_streams::and(&vec![true, true, false], &vec![true, false]), vec![true, false]);
    assert_eq!(boolean_streams::not(&vec![true, false]), vec![false, true]);
}

#[test]
fn generic_comparisons() {
    assert!(generic::gt(5u8, 3u8));
    assert!(generic::le(-3i64, -3i64));
    assert_eq!(generic::min(-3i16, 2i16), -3i16);
    assert_eq!(generic::max(-3i16, 2i16), 2i16);
    assert_eq!(generic::clamp(15u32, 0u32, 10u32), 10u32);
    assert_eq!(generic::clamp(5u32, 0u32, 10u32), 5u32);
    assert_eq!(generic_streams::clamp(&vec![-5i32, 5, 50], 0, 10), vec![0, 5, 10]);
    assert_eq!(generic_streams::greater_than(&vec![1u8, 9], &vec![2u8, 3]), vec![false, true]);
}

#[test]
fn string_equality() {
    let a = String::from("mélodium");
    let b = String::from("mélodium");
    let c = String::from("melodium");
    assert!(strings::equal(&a, &b));
    assert!(strings::not_equal(&a, &c));
    assert_eq!(strings_streams::equal(&vec![a.clone(), a], &vec![b, c]), vec![true, false]);
}

#[test]
fn wrapping_subtraction_undoes_addition() {
    for (a, b) in [(200u8, 100u8), (0, 255), (17, 0)] {
        assert_eq!(num::wrapping_sub(num::wrapping_add(a, b), b), a);
    }
    for (a, b) in [(i16::MAX, 1i16), (i16::MIN, -1), (-5, 7)] {
        assert_eq!(num::wrapping_sub(num::wrapping_add(a, b), b), a);
    }
    assert_eq!(num::checked_add(100i32, 23i32), Some(num::wrapping_add(100i32, 23i32)));
    assert_eq!(num::saturating_add(100i32, 23i32), num::wrapping_add(100i32, 23i32));
}
