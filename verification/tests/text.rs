//! The string operations.
use hermes_desktop::text::bytes::keep_last_bytes;
use hermes_desktop::text::number::write_decimal;
use hermes_desktop::text::order::in_order;
use hermes_desktop::text::scan::{
    contains, has_char, join_text, split_lines, split_text, starts_with,
};
use hermes_desktop::text::{chars_of, is_empty, str_eq, trim, trim_end, trim_end_char, white_space};

#[test]
fn white_space_is_what_the_standard_library_takes_for_it() {
    for code in 0..=0x10ffffu32 {
        if let Some(c) = char::from_u32(code) {
            assert_eq!(white_space(c), c.is_whitespace(), "U+{code:04X}");
        }
    }
}

#[test]
fn trimming_agrees_with_the_standard_library() {
    for s in ["", " ", "a", " a ", "\t\n a b \u{3000}", "\u{a0}x\u{2028}", "\u{200b}x", "a\r\n"] {
        assert_eq!(trim(s), s.trim());
        assert_eq!(trim_end(s), s.trim_end());
    }
    assert_eq!(trim_end_char("a//", '/'), "a");
    assert_eq!(trim_end_char("//", '/'), "");
    assert_eq!(trim_end_char("/a", '/'), "/a");
}

#[test]
fn splitting_agrees_with_the_standard_library() {
    for s in ["", ":", "a", "a:b", ":a::b:", "é:😀"] {
        let expected: Vec<&str> = s.split(':').collect();
        let pieces = split_text(s, ':');
        assert_eq!(pieces, expected);
        assert_eq!(join_text(&pieces, ":"), s);
    }
    for s in ["", "\n", "a", "a\n", "a\r\nb", "a\n\nb\r", "\r\n\r", "a\rb\n"] {
        let expected: Vec<&str> = s.lines().collect();
        assert_eq!(split_lines(s), expected);
    }
    assert_eq!(join_text(&Vec::new(), ","), "");
}

#[test]
fn searching_agrees_with_the_standard_library() {
    for s in ["", "a", "abab", "xabaz", "éab"] {
        for p in ["", "a", "ab", "aba", "z", "é"] {
            assert_eq!(contains(s, p), s.contains(p), "{s:?} {p:?}");
            assert_eq!(starts_with(s, p), s.starts_with(p), "{s:?} {p:?}");
        }
        assert_eq!(has_char(s, 'b'), s.contains('b'));
        assert_eq!(is_empty(s), s.is_empty());
        assert!(str_eq(s, s));
    }
    assert!(!str_eq("a", "b"));
}

#[test]
fn numbers_are_written_in_decimal() {
    for n in [0u64, 7, 10, 99, 100, 65535, 1234567890, u64::MAX] {
        assert_eq!(write_decimal(n), n.to_string());
    }
}

#[test]
fn texts_are_ordered_as_the_standard_library_orders_them() {
    let words = ["", "a", "ab", "b", "é", "z", "\u{ffff}", "😀", "a\u{10000}"];
    for a in words {
        for b in words {
            assert_eq!(in_order(&chars_of(a), &chars_of(b)), a <= b, "{a:?} {b:?}");
        }
    }
}

#[test]
fn a_tail_never_splits_a_character() {
    assert_eq!(keep_last_bytes("abcdef", 3), "def");
    assert_eq!(keep_last_bytes("abc", 3), "abc");
    assert_eq!(keep_last_bytes("aéb", 2), "b");
    assert_eq!(keep_last_bytes("aéb", 3), "éb");
    assert_eq!(keep_last_bytes("x😀y", 4), "y");
    assert_eq!(keep_last_bytes("x😀y", 5), "😀y");
    assert_eq!(keep_last_bytes("", 0), "");
    // A bound below the width of the last character cuts nothing off.
    assert_eq!(keep_last_bytes("x😀", 2), "x😀");
}
