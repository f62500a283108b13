//! Text, numbers and order.

use focus_launcher::number::{parse_number, to_decimal, to_hex_id};
use focus_launcher::order::sorted_positions;
use focus_launcher::text::{
    contains, is_whitespace, join_words, same, split_lines, split_on, split_whitespace,
    to_ascii_lowercase, trim,
};

#[test]
fn white_space_is_unicodes() {
    for code in 0..0x11_0000u32 {
        if let Some(c) = char::from_u32(code) {
            assert_eq!(is_whitespace(c), c.is_whitespace(), "at {code:x}");
        }
    }
}

#[test]
fn text_is_cut_as_the_standard_library_cuts_it() {
    for s in [
        "", " ", "a", " a b\t c ", "a\nb\r\nc", "\n", "a\n", "a\r", "a\r\r\n\rb", "\u{3000}x\u{85}",
        "a:b::c:", ":", "é\u{a0}ß",
    ] {
        assert_eq!(trim(s), s.trim());
        assert_eq!(split_whitespace(s), s.split_whitespace().collect::<Vec<_>>());
        assert_eq!(split_lines(s), s.lines().collect::<Vec<_>>());
        assert_eq!(split_on(s, ':'), s.split(':').collect::<Vec<_>>());
        assert_eq!(
            join_words(&split_whitespace(s)),
            s.split_whitespace().collect::<Vec<_>>().join(" ")
        );
        for needle in ["", "a", "b\t", "\n", "zz", "é"] {
            assert_eq!(contains(s, needle), s.contains(needle));
            assert_eq!(same(s, needle), s == needle);
        }
        assert_eq!(to_ascii_lowercase(s), s.to_ascii_lowercase());
    }
    assert_eq!(to_ascii_lowercase("GNOME-Classic:ÄZ"), "gnome-classic:Äz");
}

#[test]
fn numbers_are_written() {
    assert_eq!(to_decimal(0), "0");
    assert_eq!(to_decimal(1200), "1200");
    assert_eq!(to_decimal(u64::MAX), "18446744073709551615");
    assert_eq!(to_hex_id(0), "0x00000000");
    assert_eq!(to_hex_id(0x03e0_0007), "0x03e00007");
    assert_eq!(to_hex_id(u64::MAX), "0xffffffffffffffff");
}

#[test]
fn numbers_are_read_as_the_standard_library_reads_them() {
    for s in [
        "", "+", "-", "0", "-0", "+0", "007", "+12", "++1", "1 ", "1a", "18446744073709551615",
        "18446744073709551616", "99999999999999999999999", "٣",
    ] {
        assert_eq!(parse_number(s, u64::MAX), s.parse::<u64>().ok(), "on {s:?}");
    }
    assert_eq!(parse_number("4294967296", u32::MAX as u64), None);
    assert_eq!(parse_number(&to_decimal(77), u64::MAX), Some(77));
}

#[test]
fn sorting_is_stable() {
    let key = |s: &str| s.chars().collect::<Vec<char>>();
    let keys = vec![key("b"), key("a"), key("b"), key(""), key("ab"), key("a")];
    assert_eq!(sorted_positions(&keys), vec![3, 1, 5, 4, 0, 2]);
}
