use cemconv::text::{characters, is_whitespace_char, push_decimal, split_whitespace, str_eq};

#[test]
fn whitespace_is_the_unicode_property() {
    for c in ['\t', '\n', '\u{b}', '\u{c}', '\r', ' ', '\u{85}', '\u{a0}', '\u{1680}',
              '\u{2000}', '\u{2005}', '\u{200a}', '\u{2028}', '\u{2029}', '\u{202f}',
              '\u{205f}', '\u{3000}'] {
        assert!(is_whitespace_char(c));
    }
    for c in ['a', '0', '#', '\u{8}', '\u{e}', '\u{1f}', '!', '\u{84}', '\u{86}', '\u{200b}',
              '\u{1fff}', '\u{2027}', '\u{202a}', '\u{2060}', '\u{3001}', '\u{feff}'] {
        assert!(!is_whitespace_char(c));
    }
}

#[test]
fn whitespace_agrees_with_std_on_every_char() {
    let mut code: u32 = 0;
    while code <= 0x10ffff {
        if let Some(c) = char::from_u32(code) {
            assert_eq!(is_whitespace_char(c), c.is_whitespace());
        }
        code += 1;
    }
}

#[test]
fn split_gives_the_words_in_order() {
    assert_eq!(split_whitespace("a b c"), vec!["a", "b", "c"]);
    assert_eq!(split_whitespace("frame1-mesh frame2-mesh"), vec!["frame1-mesh", "frame2-mesh"]);
    assert_eq!(split_whitespace("one"), vec!["one"]);
}

#[test]
fn split_ignores_leading_trailing_and_repeated_whitespace() {
    assert_eq!(split_whitespace("  a  \t b\n\n c \r\n"), vec!["a", "b", "c"]);
    assert_eq!(split_whitespace("\n            x_frame1-mesh\n            x_frame2-mesh\n          "),
               vec!["x_frame1-mesh", "x_frame2-mesh"]);
    assert!(split_whitespace("").is_empty());
    assert!(split_whitespace(" \t\n ").is_empty());
}

#[test]
fn split_counts_characters_not_bytes() {
    assert_eq!(split_whitespace("é\u{3000}ü ß"), vec!["é", "ü", "ß"]);
    assert_eq!(split_whitespace("日本 語"), vec!["日本", "語"]);
}

#[test]
fn split_agrees_with_std() {
    for text in ["", " ", "a", " a", "a ", "ab  cd", "\ta\nb\rc ", "x\u{a0}y", "  lead", "trail  ",
                 "a b c d e f g", "é è", "\u{2003}wide\u{2003}"] {
        let expected: Vec<String> = text.split_whitespace().map(str::to_owned).collect();
        assert_eq!(split_whitespace(text), expected);
    }
}

#[test]
fn characters_are_the_chars() {
    assert_eq!(characters("a#é"), vec!['a', '#', 'é']);
    assert!(characters("").is_empty());
}

#[test]
fn decimal_has_no_leading_zeros() {
    for (n, text) in [(0u64, "0"), (7, "7"), (9, "9"), (10, "10"), (42, "42"), (100, "100"),
                      (4294967295, "4294967295"), (4294967296, "4294967296"),
                      (18446744073709551615, "18446744073709551615")] {
        let mut out = String::from("n=");
        push_decimal(&mut out, n);
        assert_eq!(out, format!("n={}", text));
    }
}

#[test]
fn decimal_agrees_with_std() {
    let mut n: u64 = 0;
    while n < 3000 {
        let mut out = String::new();
        push_decimal(&mut out, n);
        assert_eq!(out, format!("{}", n));
        n += 1;
    }
}

#[test]
fn slices_are_equal_when_their_characters_are() {
    assert!(str_eq("", ""));
    assert!(str_eq("a", "a"));
    assert!(str_eq("instance_geometry", "instance_geometry"));
    assert!(str_eq("é日本", "é日本"));
    assert!(!str_eq("", "a"));
    assert!(!str_eq("a", ""));
    assert!(!str_eq("a", "b"));
    assert!(!str_eq("ab", "abc"));
    assert!(!str_eq("abc", "ab"));
    assert!(!str_eq("abc", "abd"));
    assert!(!str_eq("xbc", "abc"));
    assert!(!str_eq("é", "e"));
    assert!(!str_eq("cem", "cem2"));
}

#[test]
fn equality_agrees_with_std() {
    let samples = ["", "a", "b", "ab", "ba", "abc", "é", "e", "日本", "日", " ", "  ", "#a", "a#"];
    for a in samples {
        for b in samples {
            assert_eq!(str_eq(a, b), a == b);
        }
    }
}
