//! Texts, numbers and sorting.

use mikan::number::{decimal, parse_decimal};
use mikan::sorting::descending_order;
use mikan::text::{behind, contains, lines, to_lower, to_upper, trim};

#[test]
fn reads_and_writes_numbers() {
    assert_eq!(decimal(0), "0");
    assert_eq!(decimal(u64::MAX), "18446744073709551615");
    assert_eq!(parse_decimal(b"18446744073709551615", u64::MAX), Some(u64::MAX));
    assert_eq!(parse_decimal(b"18446744073709551616", u64::MAX), None);
    assert_eq!(parse_decimal(b"+07", 10), Some(7));
    assert_eq!(parse_decimal(b"11", 10), None);
    assert_eq!(parse_decimal(b"", 10), None);
    assert_eq!(parse_decimal(b"+", 10), None);
    assert_eq!(parse_decimal(b"-1", 10), None);
}

#[test]
fn takes_texts_apart() {
    assert_eq!(lines("a\r\nb\n\nc\r"), vec!["a", "b", "", "c\r"]);
    assert_eq!(lines("a\n"), vec!["a"]);
    assert!(lines("").is_empty());
    assert_eq!(trim(" \u{3000}a b\t\n"), "a b");
    assert_eq!(to_lower("ÀB1"), "Àb1");
    assert_eq!(to_upper("àb1"), "àB1");
    assert!(contains("abc", "") && contains("abc", "bc") && !contains("abc", "cb"));
    assert_eq!(behind("k REG_SZ v REG_SZ", "REG_SZ").as_deref(), Some(" v REG_SZ"));
    assert_eq!(behind("k", "REG_SZ"), None);
}

#[test]
fn sorts_in_descending_order_and_keeps_ties() {
    assert_eq!(descending_order(&vec![1i64, 3, 2, 3]), vec![1, 3, 2, 0]);
    let texts = vec!["b".to_string(), "".to_string(), "ba".to_string(), "b".to_string()];
    assert_eq!(descending_order(&texts), vec![2, 0, 3, 1]);
    assert_eq!(descending_order(&Vec::<i64>::new()), Vec::<usize>::new());
}
