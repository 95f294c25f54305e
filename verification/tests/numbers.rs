use atletiek_nu_api::decimal::Decimal;
use atletiek_nu_api::number::{
    keep_digits, number_to_text, parse_i32, parse_i64, parse_u16, parse_u32, parse_u8,
    parse_unsigned,
};

#[test]
fn unsigned_numbers_are_read_as_std_reads_them() {
    for text in ["0", "7", "007", "+5", "65535", "65536", "", "+", "-0", "-1", "1a", " 1", "4294967295", "4294967296"] {
        assert_eq!(parse_u32(text), text.parse::<u32>().ok(), "u32 {:?}", text);
        assert_eq!(parse_u16(text), text.parse::<u16>().ok(), "u16 {:?}", text);
        assert_eq!(parse_u8(text), text.parse::<u8>().ok(), "u8 {:?}", text);
    }
}

#[test]
fn signed_numbers_are_read_as_std_reads_them() {
    for text in [
        "0", "-0", "+0", "-1", "+1", "2016", "-2147483648", "-2147483649", "2147483647",
        "2147483648", "-9223372036854775808", "-9223372036854775809", "9223372036854775807",
        "9223372036854775808", "", "-", "+", "--1", "1-", "12-3",
    ] {
        assert_eq!(parse_i32(text), text.parse::<i32>().ok(), "i32 {:?}", text);
        assert_eq!(parse_i64(text), text.parse::<i64>().ok(), "i64 {:?}", text);
    }
}

#[test]
fn unsigned_numbers_respect_the_bound() {
    assert_eq!(parse_unsigned("100", 100), Some(100));
    assert_eq!(parse_unsigned("101", 100), None);
    assert_eq!(parse_unsigned("18446744073709551615", u64::MAX), Some(u64::MAX));
    assert_eq!(parse_unsigned("18446744073709551616", u64::MAX), None);
    assert_eq!(parse_unsigned("99999999999999999999999999", u64::MAX), None);
}

#[test]
fn digits_are_kept_and_the_rest_dropped() {
    assert_eq!(keep_digits("20160609Venlo (NLD)"), "20160609");
    assert_eq!(keep_digits("abc"), "");
    assert_eq!(keep_digits("1-2-3"), "123");
}

#[test]
fn numbers_are_written_in_decimal() {
    for n in [0u64, 1, 9, 10, 11, 99, 100, 1436, 43200, 86400, u64::MAX] {
        assert_eq!(number_to_text(n), n.to_string());
    }
}

#[test]
fn decimals_are_read_exactly() {
    assert_eq!(Decimal::parse("9.62"), Some(Decimal { negative: false, digits: 962, scale: 2 }));
    assert_eq!(Decimal::parse("-2"), Some(Decimal { negative: true, digits: 2, scale: 0 }));
    assert_eq!(Decimal::parse("9999998"), Some(Decimal { negative: false, digits: 9999998, scale: 0 }));
    assert_eq!(Decimal::parse("+3.5"), Some(Decimal { negative: false, digits: 35, scale: 1 }));
    assert_eq!(Decimal::parse(".5"), Some(Decimal { negative: false, digits: 5, scale: 1 }));
    assert_eq!(Decimal::parse("5."), Some(Decimal { negative: false, digits: 5, scale: 0 }));
    assert_eq!(Decimal::parse("0.050"), Some(Decimal { negative: false, digits: 50, scale: 3 }));
}

#[test]
fn text_that_is_no_decimal_is_refused() {
    for text in ["", ".", "-", "+", "1.2.3", "1e5", "NaN", "inf", "12a", " 1", "--1", "1,5"] {
        assert_eq!(Decimal::parse(text), None, "{:?}", text);
    }
    assert_eq!(Decimal::parse("18446744073709551616"), None);
    assert_eq!(
        Decimal::parse("18446744073709551615"),
        Some(Decimal { negative: false, digits: u64::MAX, scale: 0 })
    );
}

#[test]
fn decimals_compare_with_whole_numbers() {
    let d = |text: &str| Decimal::parse(text).unwrap();
    assert!(d("-2").is_below_zero());
    assert!(d("-0.001").is_below_zero());
    assert!(!d("-0").is_below_zero());
    assert!(!d("0").is_below_zero());
    assert!(!d("3").is_below_zero());
    assert!(d("9999998").is_above(10000));
    assert!(d("10000.01").is_above(10000));
    assert!(!d("10000").is_above(10000));
    assert!(!d("10000.00").is_above(10000));
    assert!(!d("9999.99").is_above(10000));
    assert!(!d("-20000").is_above(10000));
    assert!(d("0.0000000000000000001").is_above(0));
    assert!(!d("0.00000000000000000000000000").is_above(0));
    assert!(!d("1.00000000000000000").is_above(10000));
}

#[test]
fn decimals_round_half_away_from_zero() {
    let d = |text: &str| Decimal::parse(text).unwrap();
    assert_eq!(d("1.2345").rounded(3), Decimal { negative: false, digits: 1235, scale: 3 });
    assert_eq!(d("1.2344").rounded(3), Decimal { negative: false, digits: 1234, scale: 3 });
    assert_eq!(d("-1.2345").rounded(3), Decimal { negative: true, digits: 1235, scale: 3 });
    assert_eq!(d("1.2").rounded(3), Decimal { negative: false, digits: 12, scale: 1 });
    assert_eq!(d("0.9999").rounded(2), Decimal { negative: false, digits: 100, scale: 2 });
    assert_eq!(d("0.5").rounded(0), Decimal { negative: false, digits: 1, scale: 0 });
    assert_eq!(d("0.49").rounded(0), Decimal { negative: false, digits: 0, scale: 0 });
    assert_eq!(
        d("0.00000000000000000000000001").rounded(2),
        Decimal { negative: false, digits: 0, scale: 2 }
    );
}

#[test]
fn decimals_shift_and_take_a_whole_part() {
    let d = |text: &str| Decimal::parse(text).unwrap();
    assert_eq!(d("84").shifted_down(2), Some(Decimal { negative: false, digits: 84, scale: 2 }));
    assert_eq!(
        (Decimal { negative: false, digits: 1, scale: u32::MAX }).shifted_down(1),
        None
    );
    assert_eq!(d(".45").with_whole(83), Some(Decimal { negative: false, digits: 8345, scale: 2 }));
    assert_eq!(d("-0.45").with_whole(83), None);
    assert_eq!(d("0.5").with_whole(u64::MAX), None);
    assert_eq!(d("7").with_whole(0), Some(Decimal { negative: false, digits: 7, scale: 0 }));
}
