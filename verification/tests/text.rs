use proxywifi::text::{
    before, decimal, is_whitespace, join, lines, same_text, split, split_whitespace, to_lowercase,
    trim,
};

#[test]
fn white_space_is_what_unicode_says() {
    for n in 0..=0x10ffffu32 {
        if let Some(c) = char::from_u32(n) {
            assert_eq!(is_whitespace(c), c.is_whitespace(), "{n:x}");
        }
    }
}

#[test]
fn trimming_agrees_with_std() {
    for s in ["", " ", "a", " a b\t", "\u{3000}x\u{a0}", "  \n\t\n", "\u{200b}"] {
        assert_eq!(trim(s), s.trim());
    }
}

#[test]
fn pieces_agree_with_std() {
    for s in ["", ":", "a", "a:b", ":a::b:", "é:ü"] {
        assert_eq!(split(s, ':'), s.split(':').collect::<Vec<_>>());
    }
    for s in ["", " ", "a", " a  b ", "HTTP/1.1 200 OK\r\n", "\u{2003}x\u{2003}"] {
        assert_eq!(split_whitespace(s), s.split_whitespace().collect::<Vec<_>>());
    }
    for s in ["", "\n", "a", "a\n", "a\r\nb\n\n", "a\rb\r", "\r\n\r\n", "a\n\r"] {
        assert_eq!(lines(s), s.lines().collect::<Vec<_>>(), "{s:?}");
    }
}

#[test]
fn order_agrees_with_std() {
    let words = ["", "a", "ab", "b", "B", "é", "z", "aa"];
    for a in words {
        for b in words {
            assert_eq!(before(a, b), a < b);
            assert_eq!(same_text(a, b), a == b);
        }
    }
}

#[test]
fn numbers_and_letters_are_printed() {
    assert_eq!(decimal(0), "0");
    assert_eq!(decimal(10), "10");
    assert_eq!(decimal(u64::MAX), "18446744073709551615");
    assert_eq!(to_lowercase("SOCKS5 É"), "socks5 É");
    assert_eq!(join(&vec!["a".to_string(), "b".to_string()], " "), "a b");
    assert_eq!(join(&vec![], " "), "");
}
