use rbxlx2vmf::number::{push_decimal, push_fixed, push_integer, push_signed_fixed};
use rbxlx2vmf::text::{
    after_name, after_spaces, holds, parse_decimal, parse_trailing, parse_unsigned, position_of,
    position_of_pattern, scale, span_is, trim, Span,
};

fn whole(s: &str) -> Span {
    Span { start: 0, end: s.len() }
}

fn decimal(s: &str) -> Option<i64> {
    parse_decimal(s.as_bytes(), whole(s))
}

fn fixed(n: u128, width: u32) -> String {
    let mut out = String::from(">");
    push_fixed(&mut out, n, width);
    out
}

#[test]
fn decimal_text_of_whole_numbers() {
    let mut out = String::from("n=");
    push_decimal(&mut out, 0);
    out.push(',');
    push_decimal(&mut out, 7);
    out.push(',');
    push_decimal(&mut out, 10);
    out.push(',');
    push_decimal(&mut out, 18_446_744_073_709_551_615);
    out.push(',');
    push_decimal(&mut out, u128::MAX);
    assert_eq!(out, "n=0,7,10,18446744073709551615,340282366920938463463374607431768211455");
    let mut out = String::new();
    push_integer(&mut out, -42);
    out.push(' ');
    push_integer(&mut out, 0);
    out.push(' ');
    push_integer(&mut out, i64::MIN);
    out.push(' ');
    push_integer(&mut out, i64::MAX);
    assert_eq!(out, "-42 0 -9223372036854775808 9223372036854775807");
}

#[test]
fn fixed_point_text_stops_at_the_last_digit_that_counts() {
    assert_eq!(fixed(0, 6), ">0");
    assert_eq!(fixed(468_750, 6), ">0.46875");
    assert_eq!(fixed(1_000_000, 6), ">1");
    assert_eq!(fixed(1_000_001, 6), ">1.000001");
    assert_eq!(fixed(12_500_000, 6), ">12.5");
    assert_eq!(fixed(5, 7), ">0.0000005");
    assert_eq!(fixed(300_000_000, 7), ">30");
    assert_eq!(fixed(123, 0), ">123");
    assert_eq!(fixed(1_234_567_891, 9), ">1.234567891");
    let mut out = String::new();
    push_signed_fixed(&mut out, -5 * 15_000_001, 7);
    out.push(' ');
    push_signed_fixed(&mut out, 5 * 3, 7);
    out.push(' ');
    push_signed_fixed(&mut out, 0, 7);
    assert_eq!(out, "-7.5000005 0.0000015 0");
}

#[test]
fn numbers_are_read_in_thousandths() {
    assert_eq!(decimal("4"), Some(4000));
    assert_eq!(decimal("4.5"), Some(4500));
    assert_eq!(decimal("-0.25"), Some(-250));
    assert_eq!(decimal("+1.0005"), Some(1001));
    assert_eq!(decimal("1.0004999"), Some(1000));
    assert_eq!(decimal("-1.0005"), Some(-1001));
    assert_eq!(decimal("0.99999994"), Some(1000));
    assert_eq!(decimal("-4.37113883e-08"), Some(0));
    assert_eq!(decimal("1.5e3"), Some(1_500_000));
    assert_eq!(decimal("1.5E+3"), Some(1_500_000));
    assert_eq!(decimal("25e-1"), Some(2500));
    assert_eq!(decimal(".5"), Some(500));
    assert_eq!(decimal("5."), Some(5000));
    assert_eq!(decimal("  \t12.125\r\n "), Some(12125));
    assert_eq!(decimal("0.0004"), Some(0));
    assert_eq!(decimal("0.0005"), Some(1));
    assert_eq!(decimal("000000000000000000000000000000000000000001"), Some(1000));
    assert_eq!(decimal("0e999999999999999999999999999999999999999999"), Some(0));
    assert_eq!(decimal("1e-999999999999999999999999999999999999999999"), Some(0));
    assert_eq!(decimal("1000000000000000"), Some(1_000_000_000_000_000_000));
}

#[test]
fn what_is_no_number_is_refused() {
    for text in [
        "", " ", ".", "-", "+", "e5", "1e", "1e+", "1.2.3", "1 2", "0x10", "1,5", "abc", "1e5x", "--1",
        "1e1.5", "inf", "NaN",
    ] {
        assert_eq!(decimal(text), None, "{:?}", text);
    }
    assert_eq!(decimal("1000000000000001"), None);
    assert_eq!(decimal("1e16"), None);
    assert_eq!(decimal("1e31"), None);
    assert_eq!(decimal("1e999999999999999999999999999999999999999999"), None);
    assert_eq!(decimal("1000000000000000000000000000000"), None);
    assert_eq!(decimal("1000000000000000000000000000000e-40"), None);
    let s = "12345";
    assert_eq!(parse_decimal(s.as_bytes(), Span { start: 1, end: 3 }), Some(23000));
    assert_eq!(parse_decimal(s.as_bytes(), Span { start: 3, end: 1 }), None);
    assert_eq!(parse_decimal(s.as_bytes(), Span { start: 0, end: 6 }), None);
}

#[test]
fn scaling_rounds_halves_up() {
    assert_eq!(scale(0, 1000), Some(0));
    assert_eq!(scale(15, 2), Some(1500));
    assert_eq!(scale(15, -1), Some(2));
    assert_eq!(scale(14, -1), Some(1));
    assert_eq!(scale(149, -2), Some(1));
    assert_eq!(scale(150, -2), Some(2));
    assert_eq!(scale(1, 18), Some(1_000_000_000_000_000_000));
    assert_eq!(scale(1, 19), None);
    assert_eq!(scale(2, 18), None);
    assert_eq!(scale(1, 31), None);
    assert_eq!(scale(7, -32), Some(0));
    assert_eq!(scale(999_999_999_999_999_999_999_999_999_999, -31), Some(0));
    assert_eq!(scale(999_999_999_999_999_999_999_999_999_999, -30), Some(1));
    assert_eq!(scale(1_000_000_000_000_000_000_000_000_000_000, -30), None);
}

#[test]
fn whole_numbers_and_identifiers() {
    let u = |s: &str| parse_unsigned(s.as_bytes(), whole(s));
    assert_eq!(u("0"), Some(0));
    assert_eq!(u(" 256 "), Some(256));
    assert_eq!(u("4288914085"), Some(4_288_914_085));
    assert_eq!(u("18446744073709551615"), Some(u64::MAX));
    assert_eq!(u("18446744073709551616"), None);
    assert_eq!(u("99999999999999999999999999999999999999999999999999"), None);
    assert_eq!(u(""), None);
    assert_eq!(u("-1"), None);
    assert_eq!(u("+1"), None);
    assert_eq!(u("1.0"), None);
    assert_eq!(u("12a"), None);
    let t = |s: &str| parse_trailing(s.as_bytes(), whole(s));
    assert_eq!(t("http://www.roblox.com/asset/?id=123456"), Some(123_456));
    assert_eq!(t("rbxassetid://987  \n"), Some(987));
    assert_eq!(t("42"), Some(42));
    assert_eq!(t("rbxasset://textures/face.png"), None);
    assert_eq!(t(""), None);
    assert_eq!(t("id=18446744073709551616"), None);
    assert_eq!(t("id=00000000000000000000000000000000000000000000001"), Some(1));
}

#[test]
fn scanning_bytes() {
    let s = b"  <Item  class=\"Part\">x-->";
    assert_eq!(after_spaces(s, 0), 2);
    assert_eq!(after_spaces(s, 2), 2);
    assert_eq!(after_spaces(s, s.len()), s.len());
    assert_eq!(after_name(s, 3), 7);
    assert_eq!(after_name(s, 2), 2);
    assert_eq!(position_of(s, 0, b'<'), 2);
    assert_eq!(position_of(s, 3, b'<'), s.len());
    assert!(holds(s, 2, b"<Item"));
    assert!(!holds(s, 3, b"<Item"));
    assert!(!holds(s, s.len() - 2, b"-->"));
    assert!(holds(s, 5, b""));
    assert_eq!(position_of_pattern(s, 0, b"-->"), s.len() - 3);
    assert_eq!(position_of_pattern(s, 0, b"<!--"), s.len());
    assert!(span_is(s, Span { start: 16, end: 20 }, b"Part"));
    assert!(!span_is(s, Span { start: 16, end: 19 }, b"Part"));
    assert!(!span_is(s, Span { start: 20, end: 16 }, b""));
    assert_eq!(trim(b" \t ab c \n", Span { start: 0, end: 9 }), Span { start: 3, end: 7 });
    assert_eq!(trim(b"    ", Span { start: 1, end: 3 }), Span { start: 3, end: 3 });
    assert_eq!(trim(b"ab", Span { start: 0, end: 2 }), Span { start: 0, end: 2 });
    assert_eq!(trim(b"ab", Span { start: 2, end: 1 }), Span { start: 0, end: 0 });
}
