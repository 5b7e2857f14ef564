use lexical_atoi::api::{
    atoi128_impl, atoi128_slice, atoi16_impl, atoi16_radix_slice, atoi32_impl, atoi32_slice,
    atoi64_impl, atoi8_impl, atoi8_slice, atoisize_slice, atou128_impl, atou128_slice,
    atou16_impl, atou32_impl, atou32_radix_slice, atou64_impl, atou64_slice, atou8_impl,
    atou8_radix_slice, atou8_slice, atousize_slice, try_atoi128_slice, try_atoi16_radix_slice,
    try_atoi32_slice, try_atoi8_slice, try_atoisize_slice, try_atou128_slice,
    try_atou16_radix_slice, try_atou8_radix_slice, try_atou8_slice, try_atousize_slice,
};
use lexical_atoi::atoi::{checked, filter_sign, signed, unchecked, unsigned, value};
use lexical_atoi::digit::{char_to_digit, ltrim_char_slice, INVALID_DIGIT};
use lexical_atoi::error::{
    classify, empty_error, invalid_digit_error, overflow_error, success, ErrorCode, ParseError,
    Parsed,
};
use lexical_atoi::integer::Integer;
use lexical_atoi::notation::Sign;
use lexical_atoi::numeral::Policy;

// Digits.

#[test]
fn digit_values_of_decimal_digits() {
    for (i, c) in b"0123456789".iter().enumerate() {
        assert_eq!(char_to_digit(*c), i as u8);
    }
}

#[test]
fn digit_values_of_letters() {
    for (i, c) in b"abcdefghijklmnopqrstuvwxyz".iter().enumerate() {
        assert_eq!(char_to_digit(*c), 10 + i as u8);
    }
    for (i, c) in b"ABCDEFGHIJKLMNOPQRSTUVWXYZ".iter().enumerate() {
        assert_eq!(char_to_digit(*c), 10 + i as u8);
    }
}

#[test]
fn digit_value_of_everything_else_is_the_sentinel() {
    let mut sentinels = 0;
    for c in 0..=255u8 {
        let d = char_to_digit(c);
        if c.is_ascii_alphanumeric() {
            assert!(d < 36);
        } else {
            assert_eq!(d, INVALID_DIGIT);
            sentinels += 1;
        }
    }
    assert_eq!(sentinels, 256 - 62);
    assert!(INVALID_DIGIT >= 36);
    assert!(INVALID_DIGIT <= 127);
    assert_eq!(char_to_digit(b'/'), INVALID_DIGIT);
    assert_eq!(char_to_digit(b':'), INVALID_DIGIT);
    assert_eq!(char_to_digit(b'@'), INVALID_DIGIT);
    assert_eq!(char_to_digit(b'['), INVALID_DIGIT);
    assert_eq!(char_to_digit(b'`'), INVALID_DIGIT);
    assert_eq!(char_to_digit(b'{'), INVALID_DIGIT);
}

#[test]
fn trims_leading_bytes() {
    assert_eq!(ltrim_char_slice(b"0012300", b'0'), (&b"12300"[..], 2));
    assert_eq!(ltrim_char_slice(b"12300", b'0'), (&b"12300"[..], 0));
    assert_eq!(ltrim_char_slice(b"0000", b'0'), (&b""[..], 4));
    assert_eq!(ltrim_char_slice(b"", b'0'), (&b""[..], 0));
    assert_eq!(ltrim_char_slice(b"xxy", b'x'), (&b"y"[..], 2));
}

// Integer capability.

#[test]
fn integer_operations_of_u8() {
    assert_eq!(<u8 as Integer>::zero(), 0);
    assert_eq!(<u8 as Integer>::from_small(36), 36);
    assert!(<u8 as Integer>::less_than(9, 10));
    assert!(!<u8 as Integer>::less_than(10, 10));
    assert_eq!(<u8 as Integer>::overflowing_mul(25, 10), (250, false));
    assert_eq!(<u8 as Integer>::overflowing_mul(26, 10), (4, true));
    assert_eq!(<u8 as Integer>::overflowing_add(250, 5), (255, false));
    assert_eq!(<u8 as Integer>::overflowing_add(250, 6), (0, true));
    assert_eq!(<u8 as Integer>::checked_mul(25, 10), Some(250));
    assert_eq!(<u8 as Integer>::checked_mul(26, 10), None);
    assert_eq!(<u8 as Integer>::checked_add(250, 5), Some(255));
    assert_eq!(<u8 as Integer>::checked_add(250, 6), None);
    assert_eq!(<u8 as Integer>::wrapping_neg(1), 255);
    assert_eq!(<u8 as Integer>::wrapping_neg(0), 0);
}

#[test]
fn integer_operations_of_i8() {
    assert_eq!(<i8 as Integer>::zero(), 0);
    assert_eq!(<i8 as Integer>::from_small(99), 99);
    assert!(<i8 as Integer>::less_than(-1, 0));
    assert_eq!(<i8 as Integer>::overflowing_mul(12, 10), (120, false));
    assert_eq!(<i8 as Integer>::overflowing_mul(13, 10), (-126, true));
    assert_eq!(<i8 as Integer>::overflowing_mul(-13, 10), (126, true));
    assert_eq!(<i8 as Integer>::overflowing_add(120, 7), (127, false));
    assert_eq!(<i8 as Integer>::overflowing_add(120, 8), (-128, true));
    assert_eq!(<i8 as Integer>::overflowing_add(-128, -1), (127, true));
    assert_eq!(<i8 as Integer>::checked_mul(-64, 2), Some(-128));
    assert_eq!(<i8 as Integer>::checked_mul(64, 2), None);
    assert_eq!(<i8 as Integer>::checked_add(-128, -1), None);
    assert_eq!(<i8 as Integer>::wrapping_neg(127), -127);
    assert_eq!(<i8 as Integer>::wrapping_neg(-128), -128);
}

#[test]
fn integer_operations_agree_with_the_primitives() {
    for a in 0..=255u8 {
        for b in 0..=255u8 {
            assert_eq!(<u8 as Integer>::overflowing_mul(a, b), a.overflowing_mul(b));
            assert_eq!(<u8 as Integer>::overflowing_add(a, b), a.overflowing_add(b));
            let (x, y) = (a as i8, b as i8);
            assert_eq!(<i8 as Integer>::overflowing_mul(x, y), x.overflowing_mul(y));
            assert_eq!(<i8 as Integer>::overflowing_add(x, y), x.overflowing_add(y));
        }
        assert_eq!(<u8 as Integer>::wrapping_neg(a), a.wrapping_neg());
        assert_eq!(<i8 as Integer>::wrapping_neg(a as i8), (a as i8).wrapping_neg());
    }
}

#[test]
fn integer_operations_of_the_wide_types() {
    assert_eq!(<u128 as Integer>::overflowing_mul(u128::MAX, 2), (u128::MAX - 1, true));
    assert_eq!(<i128 as Integer>::overflowing_mul(i128::MIN, -1), (i128::MIN, true));
    assert_eq!(<i128 as Integer>::wrapping_neg(i128::MIN), i128::MIN);
    assert_eq!(<u64 as Integer>::wrapping_neg(1), u64::MAX);
    assert_eq!(<usize as Integer>::overflowing_add(usize::MAX, 1), (0, true));
    assert_eq!(<isize as Integer>::overflowing_add(isize::MAX, 1), (isize::MIN, true));
    assert_eq!(<i64 as Integer>::checked_mul(i64::MAX, 2), None);
    assert_eq!(<u32 as Integer>::checked_add(u32::MAX, 0), Some(u32::MAX));
    assert_eq!(<i16 as Integer>::overflowing_mul(3276, 10), (32760, false));
    assert_eq!(<u16 as Integer>::overflowing_mul(6553, 10), (65530, false));
    assert_eq!(<i32 as Integer>::wrapping_neg(5), -5);
}

// Accumulation.

#[test]
fn wrapping_accumulation_stops_at_the_first_invalid_digit() {
    let mut value: u32 = 0;
    assert_eq!(unchecked(&mut value, 10, b"12a45"), (2, None));
    assert_eq!(value, 12);
}

#[test]
fn wrapping_accumulation_continues_from_the_given_value() {
    let mut value: u32 = 7;
    assert_eq!(unchecked(&mut value, 10, b"12"), (2, None));
    assert_eq!(value, 712);
    let mut negative: i8 = -1;
    assert_eq!(unchecked(&mut negative, 10, b"2"), (1, None));
    assert_eq!(negative, -8);
    let mut low: i8 = -13;
    assert_eq!(unchecked(&mut low, 10, b"5"), (1, Some(0)));
    assert_eq!(low, -125);
}

#[test]
fn wrapping_accumulation_of_an_empty_buffer() {
    let mut value: u16 = 5;
    assert_eq!(unchecked(&mut value, 10, b""), (0, None));
    assert_eq!(value, 5);
    assert_eq!(checked(&mut value, 10, b""), (0, None));
    assert_eq!(value, 5);
}

#[test]
fn wrapping_accumulation_marks_the_first_overflow_only() {
    let mut value: u8 = 0;
    assert_eq!(unchecked(&mut value, 10, b"25699"), (5, Some(2)));
    assert_eq!(value, (25699u32 % 256) as u8);
}

#[test]
fn checked_accumulation_freezes_the_value() {
    let mut value: u8 = 0;
    assert_eq!(checked(&mut value, 10, b"25699"), (5, Some(2)));
    assert_eq!(value, 25);
    let mut wide: u8 = 0;
    assert_eq!(checked(&mut wide, 10, b"255"), (3, None));
    assert_eq!(wide, 255);
}

#[test]
fn checked_accumulation_stops_at_the_first_invalid_digit() {
    let mut value: i16 = 0;
    assert_eq!(checked(&mut value, 16, b"7fg"), (2, None));
    assert_eq!(value, 0x7f);
    let mut over: i16 = 0;
    assert_eq!(checked(&mut over, 16, b"8000 1"), (4, Some(3)));
    assert_eq!(over, 0x800);
}

#[test]
fn no_byte_is_a_digit_in_a_radix_below_one() {
    let mut value: i8 = 3;
    assert_eq!(unchecked(&mut value, 0, b"000"), (0, None));
    assert_eq!(unchecked(&mut value, -5, b"123"), (0, None));
    assert_eq!(checked(&mut value, 0, b"000"), (0, None));
    assert_eq!(value, 3);
}

#[test]
fn long_input_wraps_into_eight_bits() {
    let s = b"1234567891234567890123";
    let mut value: u8 = 0;
    assert_eq!(unchecked(&mut value, 10, s), (s.len(), Some(3)));
    assert_eq!(value, 203);
    assert_eq!(atou8_impl(10, s), (203, s.len(), true));
}

#[test]
fn long_input_wraps_into_sixty_four_bits() {
    let s = b"1234567891234567890123";
    assert_eq!(atou64_impl(10, s), (17082782369737483467, s.len(), true));
    assert_eq!(value::<u64>(10, s, Policy::Wrapping), (17082782369737483467, s.len(), Some(20)));
    assert_eq!(value::<u64>(10, s, Policy::Checked), (12345678912345678901, s.len(), Some(20)));
}

// Zeros and signs.

#[test]
fn value_skips_leading_zeros() {
    assert_eq!(value::<u8>(10, b"007", Policy::Wrapping), (7, 3, None));
    assert_eq!(value::<u8>(10, b"7", Policy::Wrapping), (7, 1, None));
    assert_eq!(value::<u8>(10, b"000", Policy::Wrapping), (0, 3, None));
    assert_eq!(value::<u8>(10, b"", Policy::Wrapping), (0, 0, None));
    assert_eq!(value::<u8>(10, b"00x", Policy::Checked), (0, 2, None));
}

#[test]
fn value_reports_the_marker_in_the_whole_buffer() {
    assert_eq!(value::<u8>(10, b"00256", Policy::Wrapping), (0, 5, Some(4)));
    assert_eq!(value::<u8>(10, b"00256", Policy::Checked), (25, 5, Some(4)));
    assert_eq!(filter_sign::<u8>(10, b"+00256", Policy::Wrapping), (0, Sign::Positive, 6, Some(5)));
    assert_eq!(filter_sign::<u8>(10, b"-00256", Policy::Checked), (25, Sign::Negative, 6, Some(5)));
}

#[test]
fn value_does_not_read_a_sign() {
    assert_eq!(value::<i32>(10, b"-5", Policy::Wrapping), (0, 0, None));
    assert_eq!(value::<i32>(10, b"+5", Policy::Wrapping), (0, 0, None));
}

#[test]
fn filter_sign_reads_one_sign() {
    assert_eq!(filter_sign::<i32>(10, b"12", Policy::Wrapping), (12, Sign::Positive, 2, None));
    assert_eq!(filter_sign::<i32>(10, b"+12", Policy::Wrapping), (12, Sign::Positive, 3, None));
    assert_eq!(filter_sign::<i32>(10, b"-12", Policy::Wrapping), (12, Sign::Negative, 3, None));
    assert_eq!(filter_sign::<i32>(10, b"--12", Policy::Wrapping), (0, Sign::Negative, 1, None));
    assert_eq!(filter_sign::<i32>(10, b"+-12", Policy::Wrapping), (0, Sign::Positive, 1, None));
    assert_eq!(filter_sign::<i32>(10, b"-0+1", Policy::Wrapping), (0, Sign::Negative, 2, None));
}

#[test]
fn filter_sign_of_a_lone_sign_or_nothing() {
    assert_eq!(filter_sign::<i32>(10, b"", Policy::Wrapping), (0, Sign::Positive, 0, None));
    assert_eq!(filter_sign::<i32>(10, b"+", Policy::Wrapping), (0, Sign::Positive, 0, None));
    assert_eq!(filter_sign::<i32>(10, b"-", Policy::Wrapping), (0, Sign::Negative, 0, None));
    assert_eq!(filter_sign::<u8>(10, b"-", Policy::Checked), (0, Sign::Negative, 0, None));
}

#[test]
fn unsigned_negative_is_never_processed() {
    assert_eq!(unsigned::<u8>(10, b"-1", Policy::Wrapping), (255, 0, false));
    assert_eq!(unsigned::<u8>(10, b"-12", Policy::Wrapping), (244, 0, false));
    assert_eq!(unsigned::<u8>(10, b"-12x", Policy::Wrapping), (244, 0, false));
    assert_eq!(unsigned::<u8>(10, b"-x", Policy::Wrapping), (0, 0, false));
    assert_eq!(unsigned::<u8>(10, b"-0", Policy::Wrapping), (0, 0, false));
    assert_eq!(unsigned::<u8>(10, b"-256", Policy::Wrapping), (0, 0, true));
    assert_eq!(unsigned::<u8>(10, b"-257", Policy::Wrapping), (255, 0, true));
    assert_eq!(unsigned::<u8>(10, b"-257", Policy::Checked), (231, 0, true));
    assert_eq!(atou64_impl(10, b"-18446744073709551615"), (1, 0, false));
}

#[test]
fn unsigned_positive_keeps_its_length() {
    assert_eq!(unsigned::<u8>(10, b"+12", Policy::Wrapping), (12, 3, false));
    assert_eq!(unsigned::<u8>(10, b"12", Policy::Wrapping), (12, 2, false));
    assert_eq!(unsigned::<u16>(10, b"+65535", Policy::Checked), (65535, 6, false));
}

#[test]
fn signed_negation_is_symmetric() {
    for digits in ["0", "1", "123", "2147483647", "2147483648", "4294967295", "99999999999", "12a"] {
        let negative = format!("-{}", digits);
        let (v, n, t) = atoi32_impl(10, digits.as_bytes());
        assert_eq!(atoi32_impl(10, negative.as_bytes()), (v.wrapping_neg(), n + 1, t));
    }
    assert_eq!(atoi32_impl(10, b"-123"), (-123, 4, false));
    assert_eq!(atoi32_impl(10, b"123"), (123, 3, false));
}

#[test]
fn signed_negation_reaches_the_minimum() {
    assert_eq!(signed::<i8>(10, b"-128", Policy::Wrapping), (-128, 4, true));
    assert_eq!(signed::<i8>(10, b"-127", Policy::Wrapping), (-127, 4, false));
    assert_eq!(signed::<i8>(10, b"-128", Policy::Checked), (-12, 4, true));
    assert_eq!(atoi64_impl(10, b"-9223372036854775808"), (i64::MIN, 20, true));
    assert_eq!(atoi16_impl(10, b"-32767"), (-32767, 6, false));
}

#[test]
fn leading_zeros_are_neutral() {
    assert_eq!(atou8_impl(10, b"007"), (7, 3, false));
    assert_eq!(atou8_impl(10, b"7"), (7, 1, false));
    assert_eq!(atoi8_impl(10, b"007"), (7, 3, false));
    assert_eq!(atoi8_impl(10, b"7"), (7, 1, false));
    for rest in ["", "7", "255", "256", "9a", "x", "0"] {
        for zeros in 0..5usize {
            let padded = format!("{}{}", "0".repeat(zeros), rest);
            let (v, n, t) = atou8_impl(10, rest.as_bytes());
            assert_eq!(atou8_impl(10, padded.as_bytes()), (v, n + zeros, t));
            let (v, n, t) = atoi16_impl(10, rest.as_bytes());
            assert_eq!(atoi16_impl(10, padded.as_bytes()), (v, n + zeros, t));
        }
    }
}

#[test]
fn zeros_in_front_of_a_sign_end_the_numeral() {
    assert_eq!(atoi8_impl(10, b"00+7"), (0, 2, false));
    assert_eq!(atoi8_impl(10, b"+7"), (7, 2, false));
    assert_eq!(atoi8_impl(10, b"+007"), (7, 4, false));
}

#[test]
fn truncation_ignores_what_follows() {
    assert_eq!(atou8_impl(10, b"255"), (255, 3, false));
    assert_eq!(atou8_impl(10, b"256"), (0, 3, true));
    assert_eq!(atou8_impl(10, b"256xyz"), (0, 3, true));
    assert_eq!(atou8_impl(10, b"2560").2, true);
    assert_eq!(atou8_impl(10, b"255x"), (255, 3, false));
    assert_eq!(atoi8_impl(10, b"127"), (127, 3, false));
    assert_eq!(atoi8_impl(10, b"128"), (-128, 3, true));
    assert_eq!(atoi8_impl(10, b"128 "), (-128, 3, true));
}

#[test]
fn truncation_is_the_same_under_both_policies() {
    for s in ["", "0", "255", "256", "-256", "+300x", "99999", "12a"] {
        let w = unsigned::<u8>(10, s.as_bytes(), Policy::Wrapping);
        let c = unsigned::<u8>(10, s.as_bytes(), Policy::Checked);
        assert_eq!((w.1, w.2), (c.1, c.2));
        if !w.2 {
            assert_eq!(w.0, c.0);
        }
    }
}

// Round trips.

#[test]
fn decimal_round_trip_of_every_u8() {
    for v in 0..=255u8 {
        let s = format!("{}", v);
        assert_eq!(atou8_impl(10, s.as_bytes()), (v, s.len(), false));
        assert_eq!(try_atou8_slice(s.as_bytes()), success(v));
        assert_eq!(unsigned::<u8>(10, s.as_bytes(), Policy::Checked), (v, s.len(), false));
    }
}

#[test]
fn decimal_round_trip_of_every_non_negative_i8() {
    for v in 0..=127i8 {
        let s = format!("{}", v);
        assert_eq!(atoi8_impl(10, s.as_bytes()), (v, s.len(), false));
        assert_eq!(try_atoi8_slice(s.as_bytes()), success(v));
    }
}

#[test]
fn decimal_round_trip_of_the_largest_values() {
    let s = format!("{}", u16::MAX);
    assert_eq!(atou16_impl(10, s.as_bytes()), (u16::MAX, s.len(), false));
    let s = format!("{}", i16::MAX);
    assert_eq!(atoi16_impl(10, s.as_bytes()), (i16::MAX, s.len(), false));
    let s = format!("{}", u32::MAX);
    assert_eq!(atou32_impl(10, s.as_bytes()), (u32::MAX, s.len(), false));
    let s = format!("{}", i32::MAX);
    assert_eq!(atoi32_impl(10, s.as_bytes()), (i32::MAX, s.len(), false));
    let s = format!("{}", u64::MAX);
    assert_eq!(atou64_impl(10, s.as_bytes()), (u64::MAX, s.len(), false));
    let s = format!("{}", i64::MAX);
    assert_eq!(atoi64_impl(10, s.as_bytes()), (i64::MAX, s.len(), false));
    let s = format!("{}", u128::MAX);
    assert_eq!(atou128_impl(10, s.as_bytes()), (u128::MAX, s.len(), false));
    let s = format!("{}", i128::MAX);
    assert_eq!(atoi128_impl(10, s.as_bytes()), (i128::MAX, s.len(), false));
    let s = format!("{}", usize::MAX);
    assert_eq!(atousize_slice(s.as_bytes()), usize::MAX);
    assert_eq!(try_atousize_slice(s.as_bytes()), success(usize::MAX));
    let s = format!("{}", isize::MAX);
    assert_eq!(atoisize_slice(s.as_bytes()), isize::MAX);
    assert_eq!(try_atoisize_slice(s.as_bytes()), success(isize::MAX));
}

#[test]
fn one_past_the_largest_value_overflows() {
    assert_eq!(try_atou128_slice(b"340282366920938463463374607431768211456"), overflow_error(0));
    assert_eq!(
        try_atoi128_slice(b"170141183460469231731687303715884105728"),
        overflow_error(i128::MIN)
    );
    assert_eq!(atou128_slice(b"340282366920938463463374607431768211457"), 1);
    assert_eq!(atoi128_slice(b"-170141183460469231731687303715884105727"), i128::MIN + 1);
    assert_eq!(atou64_slice(b"18446744073709551616"), 0);
    assert_eq!(atoi32_slice(b"-2147483648"), i32::MIN);
    assert_eq!(atoi8_slice(b"-128"), -128);
}

// Radix.

#[test]
fn radix_thirty_six_reads_both_cases() {
    assert_eq!(atoi16_radix_slice(36, b"ya"), 1234);
    assert_eq!(atoi16_radix_slice(36, b"Ya"), 1234);
    assert_eq!(atou32_radix_slice(36, b"zz"), 35 * 36 + 35);
    assert_eq!(atou32_radix_slice(36, b"ZZ"), 35 * 36 + 35);
}

#[test]
fn radix_bounds_the_digits() {
    assert_eq!(atou8_radix_slice(2, b"1012"), 5);
    assert_eq!(try_atou8_radix_slice(2, b"1012"), invalid_digit_error(5, 3));
    assert_eq!(try_atou8_radix_slice(2, b"11111111"), success(255));
    assert_eq!(try_atou8_radix_slice(2, b"100000000"), overflow_error(0));
    assert_eq!(try_atou16_radix_slice(16, b"ffff"), success(65535));
    assert_eq!(try_atou16_radix_slice(16, b"FFFG"), invalid_digit_error(0xfff, 3));
    assert_eq!(try_atoi16_radix_slice(16, b"-7fff"), success(-32767));
    assert_eq!(try_atoi16_radix_slice(35, b"z"), invalid_digit_error(0, 0));
    assert_eq!(try_atoi16_radix_slice(36, b"z"), success(35));
    assert_eq!(try_atoi16_radix_slice(10, b"1_0"), invalid_digit_error(1, 1));
}

// Classification.

#[test]
fn classifies_each_outcome() {
    assert_eq!(classify(0u8, 0, false, 0), empty_error(0));
    assert_eq!(classify(7u8, 3, true, 3), overflow_error(7));
    assert_eq!(classify(7u8, 1, true, 3), overflow_error(7));
    assert_eq!(classify(7u8, 1, false, 3), invalid_digit_error(7, 1));
    assert_eq!(classify(7u8, 3, false, 3), success(7));
    assert_eq!(classify(7u8, 0, true, 0), empty_error(7));
}

#[test]
fn error_constructors_fill_the_record() {
    assert_eq!(
        success(5i32),
        Parsed { value: 5, error: ParseError { code: ErrorCode::Success, index: 0 } }
    );
    assert_eq!(
        overflow_error(5i32),
        Parsed { value: 5, error: ParseError { code: ErrorCode::Overflow, index: 0 } }
    );
    assert_eq!(
        invalid_digit_error(5i32, 9),
        Parsed { value: 5, error: ParseError { code: ErrorCode::InvalidDigit, index: 9 } }
    );
    assert_eq!(
        empty_error(5i32),
        Parsed { value: 5, error: ParseError { code: ErrorCode::Empty, index: 0 } }
    );
}

#[test]
fn invalid_digit_is_reported_at_its_position() {
    assert_eq!(atou8_impl(10, b"12a"), (12, 2, false));
    assert_eq!(try_atou8_slice(b"12a"), invalid_digit_error(12, 2));
    assert_eq!(try_atoi8_slice(b"12a"), invalid_digit_error(12, 2));
    assert_eq!(try_atoi32_slice(b"-12a"), invalid_digit_error(-12, 3));
    assert_eq!(try_atoi32_slice(b"12 "), invalid_digit_error(12, 2));
}

#[test]
fn overflow_outranks_an_invalid_digit() {
    let r = try_atou8_slice(b"256");
    assert_eq!(r.error.code, ErrorCode::Overflow);
    assert_eq!(r, overflow_error(0));
    let r = try_atou8_slice(b"9999a");
    assert_eq!(r.error.code, ErrorCode::Overflow);
    assert_eq!(r.value, (9999u32 % 256) as u8);
    assert_eq!(r.error.index, 0);
}

#[test]
fn empty_and_lone_signs_are_errors() {
    assert_eq!(try_atou8_slice(b""), empty_error(0));
    assert_eq!(try_atoi8_slice(b""), empty_error(0));
    assert_eq!(try_atou8_slice(b"+"), invalid_digit_error(0, 0));
    assert_eq!(try_atou8_slice(b"-"), invalid_digit_error(0, 0));
    assert_eq!(try_atoi8_slice(b"+"), invalid_digit_error(0, 0));
    assert_eq!(try_atoi8_slice(b"-"), invalid_digit_error(0, 0));
}

#[test]
fn negative_input_is_invalid_for_an_unsigned_target() {
    assert_eq!(try_atou8_slice(b"-1"), invalid_digit_error(255, 0));
    assert_eq!(try_atou8_slice(b"-0"), invalid_digit_error(0, 0));
    assert_eq!(try_atou8_slice(b"-300"), overflow_error(212));
    assert_eq!(atou8_slice(b"-300"), 212);
}

#[test]
fn double_signs_are_invalid() {
    assert_eq!(try_atou8_slice(b"++1"), invalid_digit_error(0, 1));
    assert_eq!(try_atou8_slice(b"+-1"), invalid_digit_error(0, 1));
    assert_eq!(try_atoi8_slice(b"--1"), invalid_digit_error(0, 1));
    assert_eq!(try_atoi8_slice(b"-+1"), invalid_digit_error(0, 1));
}
