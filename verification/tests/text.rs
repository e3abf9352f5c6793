use riemap_backend::text::{
    date_string, decimal_text, signed_decimal_text, tenths_text, text_contains, text_ends_with,
    text_precedes, wide_decimal_text, zero_padded_text,
};

#[test]
fn decimal_rendering_has_no_leading_zeros() {
    assert_eq!(decimal_text(0), "0");
    assert_eq!(decimal_text(7), "7");
    assert_eq!(decimal_text(10), "10");
    assert_eq!(decimal_text(1010), "1010");
    assert_eq!(decimal_text(u64::MAX), "18446744073709551615");
    assert_eq!(wide_decimal_text(u128::MAX), "340282366920938463463374607431768211455");
}

#[test]
fn signed_rendering_marks_negative_numbers() {
    assert_eq!(signed_decimal_text(0), "0");
    assert_eq!(signed_decimal_text(42), "42");
    assert_eq!(signed_decimal_text(-3), "-3");
    assert_eq!(signed_decimal_text(i64::MIN), "-9223372036854775808");
    assert_eq!(signed_decimal_text(i64::MAX), "9223372036854775807");
}

#[test]
fn tenths_are_rendered_with_one_decimal_place() {
    assert_eq!(tenths_text(0), "0.0");
    assert_eq!(tenths_text(5), "0.5");
    assert_eq!(tenths_text(99), "9.9");
    assert_eq!(tenths_text(1000), "100.0");
}

#[test]
fn text_order_is_by_code_point() {
    assert!(text_precedes("", "a"));
    assert!(!text_precedes("a", ""));
    assert!(!text_precedes("a", "a"));
    assert!(text_precedes("a", "b"));
    assert!(text_precedes("a", "ab"));
    assert!(text_precedes("Z", "a"));
    assert!(text_precedes("abc", "abd"));
    assert!(!text_precedes("abd", "abc"));
    assert!(text_precedes("z", "é"));
    assert!(text_precedes("é", "日本"));
}

#[test]
fn text_order_agrees_with_byte_order() {
    let words = ["", "a", "ab", "b", "Z", "é", "éa", "日本", "zz", "~", "\u{10FFFF}"];
    for a in words {
        for b in words {
            assert_eq!(text_precedes(a, b), a.as_bytes() < b.as_bytes());
        }
    }
}

#[test]
fn infix_and_suffix_tests() {
    assert!(text_contains("liechtenstein-2024-01-15.osm.pbf", "2024-01-15"));
    assert!(text_contains("abc", ""));
    assert!(text_contains("", ""));
    assert!(!text_contains("", "a"));
    assert!(!text_contains("abc", "abcd"));
    assert!(text_contains("abc", "c"));
    assert!(!text_contains("abc", "ca"));
    assert!(text_ends_with("x.osm.pbf", ".osm.pbf"));
    assert!(text_ends_with("x", ""));
    assert!(!text_ends_with("pbf", ".pbf"));
    assert!(!text_ends_with("x.pbf.bak", ".pbf"));
}

#[test]
fn dates_are_padded_with_zeros() {
    assert_eq!(date_string(2024, 1, 5), "2024-01-05");
    assert_eq!(date_string(2024, 12, 31), "2024-12-31");
    assert_eq!(date_string(987, 10, 9), "0987-10-09");
    assert_eq!(date_string(0, 1, 1), "0000-01-01");
    assert_eq!(date_string(12345, 1, 1), "12345-01-01");
    assert_eq!(date_string(-44, 3, 15), "-0044-03-15");
    assert_eq!(date_string(i32::MIN, 1, 1), "-2147483648-01-01");
    assert_eq!(zero_padded_text(7, 0), "7");
    assert_eq!(zero_padded_text(7, 3), "007");
    assert_eq!(zero_padded_text(1234, 3), "1234");
}
