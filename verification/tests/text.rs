//! Texts and sets of bytes.

use cosigner::byteset::ByteSet;
use cosigner::text::{
    behind, contains, decimal_text, hex_of_len, is_text_le, join, parse_i64, parse_unsigned,
    position, push_decimal, push_signed, same_bytes, same_text, split, starts_with, trim, until,
};

#[test]
fn numbers_are_written_in_decimal() {
    assert_eq!(decimal_text(0), "0");
    assert_eq!(decimal_text(u64::MAX), "18446744073709551615");
    let mut out = "n=".to_string();
    push_decimal(&mut out, 10_203);
    push_signed(&mut out, -40);
    push_signed(&mut out, i64::MIN);
    assert_eq!(out, "n=10203-40-9223372036854775808");
}

#[test]
fn numbers_are_read_as_rust_reads_them() {
    for text in ["0", "7", "+7", "007", "18446744073709551615", "18446744073709551616", "", "+",
        "-1", "1 ", " 1", "1_0", "x"]
    {
        assert_eq!(parse_unsigned(text, u64::MAX), text.parse::<u64>().ok(), "{text:?}");
        assert_eq!(
            parse_unsigned(text, 65_535),
            text.parse::<u16>().ok().map(u64::from),
            "{text:?}"
        );
    }
    for text in ["0", "-0", "-9223372036854775808", "9223372036854775807", "9223372036854775808",
        "-9223372036854775809", "+5", "-", "--1", ""]
    {
        assert_eq!(parse_i64(text), text.parse::<i64>().ok(), "{text:?}");
    }
}

#[test]
fn texts_are_trimmed_split_and_joined_as_in_std() {
    for text in ["", "  a b\t\n", "\u{2003}x\u{85}", "plain", "\u{feff}kept"] {
        assert_eq!(trim(text), text.trim());
    }
    for text in ["", "a", "a,b", ",a,,b,", ",,"] {
        let parts: Vec<String> = text.split(',').map(|p| p.to_string()).collect();
        assert_eq!(split(text, ','), parts);
        assert_eq!(join(&parts, ","), text);
    }
    assert_eq!(join(&vec![], ", "), "");
    assert_eq!(until("a/b/c", '/'), "a");
    assert_eq!(behind("a/b/c", '/'), "b/c");
    assert_eq!(position("a/b", '/'), 1);
    assert_eq!(position("ab", '/'), 2);
    assert_eq!(until("ab", '/'), "ab");
}

#[test]
fn texts_are_compared_as_in_std() {
    let samples = ["", "a", "ab", "b", "B", "\u{e9}", "\u{10000}", "\u{ffff}"];
    for a in samples {
        for b in samples {
            assert_eq!(same_text(a, b), a == b);
            assert_eq!(is_text_le(a, b), a <= b, "{a:?} {b:?}");
            assert_eq!(starts_with(a, b), a.starts_with(b));
            assert_eq!(contains(a, b), a.contains(b));
            assert_eq!(same_bytes(a.as_bytes(), b.as_bytes()), a == b);
        }
    }
    assert!(contains("duplicate column name: x", "duplicate column"));
    assert!(hex_of_len("00fFAA", 6));
    assert!(!hex_of_len("00fFAA", 8));
    assert!(!hex_of_len("00fFAg", 6));
}

#[test]
fn a_set_holds_each_string_once() {
    let mut set = ByteSet::new();
    for n in 0u32..500 {
        set.insert(n.to_le_bytes().to_vec());
        set.insert((n / 2).to_le_bytes().to_vec());
    }
    assert_eq!(set.len(), 500);
    assert!(set.contains(&499u32.to_le_bytes().to_vec()));
    assert!(!set.contains(&500u32.to_le_bytes().to_vec()));
    assert!(!set.contains(&vec![]));
}
