use cockatiel_client::number;
use cockatiel_client::text;

#[test]
fn white_space_is_that_of_the_standard_library() {
    for n in 0..=0x10ffffu32 {
        if let Some(c) = char::from_u32(n) {
            assert_eq!(text::is_white_space(c), c.is_whitespace(), "{:x}", n);
        }
    }
}

#[test]
fn trimming_agrees_with_the_standard_library() {
    for s in ["", " ", "a", " a ", "\t a b \r\n", "\u{a0}x\u{3000}", "\u{200b}y", "é ", "  \n  "] {
        assert_eq!(text::trim(s), s.trim());
    }
    for s in ["", "\"", "\"\"a\"", "a\"b", "\"a\"", " \"a\" "] {
        assert_eq!(text::strip(s, text::Margin::Quote), s.trim_matches('"'));
    }
}

#[test]
fn lines_agree_with_the_standard_library() {
    for s in [
        "", "\n", "a", "a\n", "a\nb", "a\r\nb\r\n", "a\r", "a\r\r\nb", "\n\n", "\r\n", "a\n\r", "ä\nö\n\nü",
    ] {
        let expected: Vec<String> = s.lines().map(|l| l.to_string()).collect();
        assert_eq!(text::lines(s), expected, "{:?}", s);
    }
}

#[test]
fn lines_are_joined_with_a_separator() {
    let parts = vec!["a".to_string(), "".to_string(), "c".to_string()];
    assert_eq!(text::join(&parts, ", "), "a, , c");
    assert_eq!(text::join(&vec![], ", "), "");
    assert_eq!(text::join(&vec!["x".to_string()], ", "), "x");
}

#[test]
fn texts_are_compared_and_searched() {
    assert!(text::same("abc", "abc"));
    assert!(!text::same("abc", "abd"));
    assert!(!text::same("abc", "ab"));
    assert!(text::starts_with("KEY=1", "KEY="));
    assert!(!text::starts_with("KEY", "KEY="));
    assert!(text::starts_with("x", ""));
    assert_eq!(text::find("a=b=c", '='), 1);
    assert_eq!(text::find("abc", '='), 3);
    assert_eq!(text::concat2("a", "b"), "ab");
    assert_eq!(text::characters("aé"), vec!['a', 'é']);
}

#[test]
fn numbers_are_read_as_the_standard_library_reads_them() {
    for s in [
        "", "+", "-", "0", "-0", "+0", "00012", "1", "+1", "-1", "65535", "65536", "+65535", "99999999999999999999",
        "2147483647", "2147483648", "-2147483648", "-2147483649", " 1", "1 ", "1_0", "1.0", "0x10", "١", "--1", "+-1",
    ] {
        assert_eq!(number::parse_u16(s), s.parse::<u16>().ok(), "{:?}", s);
        assert_eq!(number::parse_i32(s), s.parse::<i32>().ok(), "{:?}", s);
    }
}

#[test]
fn numbers_are_written_as_the_standard_library_writes_them() {
    for n in [0u64, 7, 10, 99, 100, 9734, 65535, u64::MAX] {
        assert_eq!(number::natural(n), n.to_string());
    }
    for n in [0i64, 7, -7, 10, -10, i64::MAX, i64::MIN] {
        assert_eq!(number::integer(n), n.to_string());
    }
}
