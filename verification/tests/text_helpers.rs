use twig::text::{
    copy_text, find_chars, from_chars, has_prefix_at, is_whitespace, line_end, parse_number,
    push_decimal, same_chars, same_text, split_chars, split_words, starts_with,
    strip_prefix_at, text_lines, text_of, to_chars, trim, trim_bounds,
};

fn chars(s: &str) -> Vec<char> {
    s.chars().collect()
}

fn text(v: &[char]) -> String {
    v.iter().collect()
}

#[test]
fn white_space_is_what_std_calls_white_space() {
    for code in 0..=0x10ffffu32 {
        if let Some(c) = char::from_u32(code) {
            assert_eq!(is_whitespace(c), c.is_whitespace(), "U+{:04X}", code);
        }
    }
}

#[test]
fn trim_agrees_with_std() {
    for sample in [
        "",
        " ",
        "a",
        " a",
        "a ",
        "  a b  ",
        "\t\r\n x \u{a0}\u{2003}",
        "\u{3000}",
        "\u{feff} x",
        "no space",
        " \u{85}inner \u{85} space\u{85} ",
    ] {
        assert_eq!(trim(sample), sample.trim(), "{:?}", sample);
        let v = chars(sample);
        let (from, to) = trim_bounds(&v);
        assert_eq!(text(&v[from..to]), sample.trim());
    }
}

#[test]
fn chars_and_texts_convert_both_ways() {
    for sample in ["", "abc", "h\u{e9}llo \u{1f600}"] {
        assert_eq!(to_chars(sample), chars(sample));
        assert_eq!(text_of(&chars(sample)), sample);
        assert_eq!(copy_text(sample), sample);
    }
    assert_eq!(from_chars(&chars("hello"), 1, 3), "el");
    assert_eq!(from_chars(&chars("hello"), 2, 2), "");
    assert!(same_text("a\u{e9}", "a\u{e9}"));
    assert!(!same_text("a", "b"));
    assert!(!same_text("a", "ab"));
    assert!(same_chars(&vec![], &vec![]));
    assert!(!same_chars(&chars("ab"), &chars("a")));
}

#[test]
fn prefixes() {
    assert!(starts_with("%begin 1", "%begin"));
    assert!(starts_with("abc", ""));
    assert!(starts_with("", ""));
    assert!(!starts_with("%beg", "%begin"));
    assert!(!starts_with("x%begin", "%begin"));
    assert!(has_prefix_at(&chars("abcabc"), 3, &chars("abc")));
    assert!(!has_prefix_at(&chars("abcabc"), 4, &chars("abc")));
    assert!(has_prefix_at(&chars("abc"), 3, &chars("")));
}

#[test]
fn line_endings_are_cut_at_the_end_only() {
    for sample in ["", "a", "a\n", "a\r\n", "a\n\r\n\n", "\r", "a\rb\n", "a \n", "\n\na"] {
        let v = chars(sample);
        let end = line_end(&v);
        assert_eq!(text(&v[..end]), sample.trim_end_matches(['\r', '\n']), "{:?}", sample);
    }
}

#[test]
fn split_agrees_with_std() {
    for sample in ["", "a", "a\tb", "\t", "a\t\tb\t", "\ta", "0\t%1\tzsh\t/tmp\t42"] {
        let got: Vec<String> = split_chars(&chars(sample), '\t').iter().map(|f| text(f)).collect();
        let want: Vec<&str> = sample.split('\t').collect();
        assert_eq!(got, want, "{:?}", sample);
    }
}

#[test]
fn words_agree_with_std() {
    for sample in ["", "   ", "a", " a  b\tc\n", "%begin 1700 42 0", "\u{3000}x\u{a0}y", "end "] {
        let got: Vec<String> = split_words(&chars(sample)).iter().map(|f| text(f)).collect();
        let want: Vec<&str> = sample.split_whitespace().collect();
        assert_eq!(got, want, "{:?}", sample);
    }
}

#[test]
fn find_agrees_with_std() {
    for (hay, needle) in [
        ("", ""),
        ("abc", ""),
        ("a__b", "__"),
        ("a_b", "__"),
        ("a___b__c", "__"),
        ("__", "__"),
        ("ab", "abc"),
        ("\u{e9}__x", "__"),
    ] {
        let want = hay.find(needle).map(|byte| hay[..byte].chars().count());
        assert_eq!(find_chars(&chars(hay), &chars(needle)), want, "{:?} {:?}", hay, needle);
    }
}

#[test]
fn decimal_agrees_with_std() {
    for n in [0u128, 1, 9, 10, 11, 99, 100, 1234567890, u64::MAX as u128, u128::MAX] {
        let mut out = "n=".to_string();
        push_decimal(&mut out, n);
        assert_eq!(out, format!("n={}", n));
    }
}

#[test]
fn numbers_are_read_as_std_reads_them() {
    for sample in [
        "", "+", "-", "0", "00", "+0", "+12", "12", "-1", "1 ", " 1", "1a", "a1", "++1",
        "4294967295", "4294967296", "18446744073709551615", "18446744073709551616",
        "99999999999999999999999999", "\u{0661}", "1_000",
    ] {
        let v = chars(sample);
        assert_eq!(parse_number(&v, 0, v.len(), u64::MAX), sample.parse::<u64>().ok(), "{:?}", sample);
        assert_eq!(
            parse_number(&v, 0, v.len(), u32::MAX as u64),
            sample.parse::<u32>().ok().map(|n| n as u64),
            "{:?}",
            sample
        );
    }
    let v = chars("ab123cd");
    assert_eq!(parse_number(&v, 2, 5, 1000), Some(123));
    assert_eq!(parse_number(&v, 2, 5, 122), None);
    assert_eq!(parse_number(&v, 2, 2, 1000), None);
    assert_eq!(parse_number(&v, 2, 6, 1000), None);
}

#[test]
fn lines_agree_with_std() {
    for sample in [
        "", "a", "a\n", "a\nb", "a\r\nb\r\n", "\n", "\n\n", "a\n\nb", "a\r", "a\r\n\r", "\r\n",
        "a\rb\nc", "last\r\r\n", "x\n\r",
    ] {
        let want: Vec<&str> = sample.lines().collect();
        assert_eq!(text_lines(sample), want, "{:?}", sample);
    }
}

#[test]
fn prefixes_are_stripped_from_a_place_on() {
    let v = chars("  branch refs/heads/main");
    assert_eq!(strip_prefix_at(&v, 2, "branch "), Some("refs/heads/main".to_string()));
    assert_eq!(strip_prefix_at(&v, 0, "branch "), None);
    assert_eq!(strip_prefix_at(&v, 2, ""), Some("branch refs/heads/main".to_string()));
    assert_eq!(strip_prefix_at(&v, v.len(), ""), Some(String::new()));
    assert_eq!(strip_prefix_at(&v, v.len(), "x"), None);
}
