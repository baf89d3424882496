use cargo_rebuild_check::text::{
    append_chars, char_in, char_is_whitespace, find_char, join, lines, remove_all, rfind_char,
    rfind_str, skip_token, skip_whitespace, split, starts_at, strip_prefix, strip_suffix,
    to_chars, to_string, trim,
};

fn chars(s: &str) -> Vec<char> {
    s.chars().collect()
}

fn texts(pieces: &[Vec<char>]) -> Vec<String> {
    pieces.iter().map(|p| p.iter().collect()).collect()
}

#[test]
fn chars_and_back() {
    assert_eq!(to_chars("a\u{e9}\u{1f600}z"), vec!['a', '\u{e9}', '\u{1f600}', 'z']);
    assert_eq!(to_chars(""), Vec::<char>::new());
    assert_eq!(to_string(&chars("a\u{e9}\u{1f600}z")), "a\u{e9}\u{1f600}z");
    let mut text = String::from("ab");
    append_chars(&mut text, &chars("c\u{e9}"));
    append_chars(&mut text, &chars(""));
    assert_eq!(text, "abc\u{e9}");
}

#[test]
fn whitespace_is_what_the_standard_library_says() {
    let mut n: u32 = 0;
    while n <= 0x3100 {
        if let Some(c) = char::from_u32(n) {
            assert_eq!(char_is_whitespace(c), c.is_whitespace(), "U+{:04X}", n);
        }
        n += 1;
    }
    assert!(!char_is_whitespace('\u{feff}'));
    assert!(!char_is_whitespace('\u{10ffff}'));
}

#[test]
fn scanning() {
    let s = chars("  ab\tcd ");
    assert_eq!(skip_whitespace(&s, 0), 2);
    assert_eq!(skip_whitespace(&s, 2), 2);
    assert_eq!(skip_token(&s, 2), 4);
    assert_eq!(skip_whitespace(&s, 4), 5);
    assert_eq!(skip_token(&s, 5), 7);
    assert_eq!(skip_whitespace(&s, 7), 8);
    assert_eq!(skip_token(&s, 8), 8);
    assert_eq!(find_char(&s, 'b', 0), 3);
    assert_eq!(find_char(&s, 'b', 4), 8);
    assert_eq!(rfind_char(&chars("a#b#c"), '#'), Some(3));
    assert_eq!(rfind_char(&chars("abc"), '#'), None);
    assert_eq!(rfind_char(&chars(""), '#'), None);
}

#[test]
fn substrings() {
    let s = chars("x?rev=1?rev=2");
    let key = chars("?rev=");
    assert!(starts_at(&s, &key, 1));
    assert!(!starts_at(&s, &key, 2));
    assert!(!starts_at(&s, &key, 9));
    assert!(!starts_at(&s, &key, 100));
    assert_eq!(rfind_str(&s, &key), Some(7));
    assert_eq!(rfind_str(&s, &chars("?tag=")), None);
    assert_eq!(rfind_str(&s, &chars("")), Some(13));
    assert_eq!(rfind_str(&chars("?rev"), &key), None);
    assert!(char_in(&chars("()"), ')'));
    assert!(!char_in(&chars("()"), '['));
}

#[test]
fn removing_and_trimming() {
    assert_eq!(remove_all(&chars("(a(b)c)"), &chars("()")), chars("abc"));
    assert_eq!(remove_all(&chars("abc"), &chars("")), chars("abc"));
    assert_eq!(remove_all(&chars("((("), &chars("(")), chars(""));
    assert_eq!(trim(&chars(" \t a b \n")), &chars("a b")[..]);
    assert_eq!(trim(&chars(" \u{a0}\u{3000} ")), &chars("")[..]);
    assert_eq!(trim(&chars("ab")), &chars("ab")[..]);
    assert_eq!(trim(&chars("")), &chars("")[..]);
}

#[test]
fn stripping() {
    assert_eq!(strip_prefix(&chars("file:///x"), &chars("file://")), &chars("/x")[..]);
    assert_eq!(strip_prefix(&chars("/x/file://"), &chars("file://")), &chars("/x/file://")[..]);
    assert_eq!(strip_prefix(&chars("fil"), &chars("file://")), &chars("fil")[..]);
    assert_eq!(strip_suffix(&chars("a\"\""), &chars("\"")), &chars("a\"")[..]);
    assert_eq!(strip_suffix(&chars("a"), &chars("\"")), &chars("a")[..]);
    assert_eq!(strip_suffix(&chars(""), &chars("\"")), &chars("")[..]);
    assert_eq!(strip_suffix(&chars("ab"), &chars("")), &chars("ab")[..]);
}

#[test]
fn splitting() {
    assert_eq!(texts(&split(&chars("a,b,,c"), ',')), vec!["a", "b", "", "c"]);
    assert_eq!(texts(&split(&chars(""), ',')), vec![""]);
    assert_eq!(texts(&split(&chars(","), ',')), vec!["", ""]);
    assert_eq!(texts(&split(&chars("abc"), ',')), vec!["abc"]);
}

#[test]
fn lines_are_those_of_the_standard_library() {
    for text in [
        "",
        "\n",
        "a",
        "a\n",
        "a\nb",
        "a\r\nb\r\n",
        "a\r",
        "a\r\r\n",
        "\r\n",
        "\n\n",
        "a\n\nb\n",
        "\ra\n",
    ] {
        let expected: Vec<String> = text.lines().map(|l| l.to_string()).collect();
        assert_eq!(texts(&lines(&chars(text))), expected, "{:?}", text);
    }
}

#[test]
fn joining() {
    let parts = vec!["a".to_string(), "b".to_string(), "c".to_string()];
    assert_eq!(join(&parts, " "), "a b c");
    assert_eq!(join(&parts[..1].to_vec(), ", "), "a");
    assert_eq!(join(&Vec::new(), " "), "");
}
