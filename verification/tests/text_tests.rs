use kirin::text::{
    find_from, same_text, split, split_after_first, split_words, starts_with, to_chars, to_string,
    trim, trim_end_matches, trim_start_matches, CharClass,
};

fn chars(s: &str) -> Vec<char> {
    to_chars(s)
}

fn strings(parts: Vec<&[char]>) -> Vec<String> {
    parts.into_iter().map(to_string).collect()
}

#[test]
fn to_chars_and_back_keep_the_text() {
    for s in ["", "a", "héllo wörld", "日本語", " \t x "] {
        let c = chars(s);
        assert_eq!(c, s.chars().collect::<Vec<char>>());
        assert_eq!(to_string(&c), s);
    }
}

#[test]
fn char_classes_agree_with_std() {
    for n in 0u32..0x3100 {
        if let Some(c) = char::from_u32(n) {
            assert_eq!(CharClass::Whitespace.has(c), c.is_whitespace(), "U+{:04X}", n);
            assert_eq!(
                CharClass::AsciiWhitespace.has(c),
                c.is_ascii_whitespace(),
                "U+{:04X}",
                n
            );
            assert_eq!(CharClass::Digit.has(c), c.is_ascii_digit(), "U+{:04X}", n);
            assert_eq!(CharClass::Only(',').has(c), c == ',', "U+{:04X}", n);
        }
    }
}

#[test]
fn vertical_tab_is_whitespace_but_not_ascii_whitespace() {
    assert!(CharClass::Whitespace.has('\u{0B}'));
    assert!(!CharClass::AsciiWhitespace.has('\u{0B}'));
}

#[test]
fn trim_agrees_with_std() {
    for s in [
        "",
        " ",
        "abc",
        "  abc",
        "abc  ",
        " \t\r\n abc def \n",
        "\u{2003}x\u{00A0}",
        " \u{3000} ",
        "a b",
    ] {
        assert_eq!(to_string(trim(&chars(s))), s.trim(), "{:?}", s);
    }
}

#[test]
fn trim_matches_takes_every_leading_or_trailing_match() {
    let c = chars("((1, 2))");
    let open = trim_start_matches(&c, CharClass::Only('('));
    assert_eq!(to_string(open), "1, 2))");
    let closed = trim_end_matches(open, CharClass::Only(')'));
    assert_eq!(to_string(closed), "1, 2");
    assert_eq!(to_string(trim_start_matches(&chars("(((("), CharClass::Only('('))), "");
    assert_eq!(to_string(trim_end_matches(&chars("))))"), CharClass::Only(')'))), "");
    assert_eq!(to_string(trim_end_matches(&chars("a)b"), CharClass::Only(')'))), "a)b");
}

#[test]
fn split_keeps_empty_pieces_as_std_does() {
    for s in ["", ",", "a", "a,b", "a,,b", ",a,", "1, Alice", ",,"] {
        let expected: Vec<String> = s.split(',').map(|p| p.to_string()).collect();
        assert_eq!(strings(split(&chars(s), CharClass::Only(','))), expected, "{:?}", s);
    }
}

#[test]
fn split_words_agrees_with_split_whitespace() {
    for s in [
        "",
        "   ",
        "SELECT * FROM users",
        "  SELECT   *\tFROM\nusers  ",
        "a",
        " a",
        "a ",
        "a\u{2003}b\u{0B}c",
    ] {
        let expected: Vec<String> = s.split_whitespace().map(|p| p.to_string()).collect();
        assert_eq!(strings(split_words(&chars(s), CharClass::Whitespace)), expected, "{:?}", s);
        let expected_ascii: Vec<String> =
            s.split_ascii_whitespace().map(|p| p.to_string()).collect();
        assert_eq!(
            strings(split_words(&chars(s), CharClass::AsciiWhitespace)),
            expected_ascii,
            "{:?}",
            s
        );
    }
}

#[test]
fn same_text_and_starts_with() {
    assert!(same_text(&chars("FROM"), &chars("FROM")));
    assert!(!same_text(&chars("FROM"), &chars("FRM")));
    assert!(!same_text(&chars("FROM"), &chars("from")));
    assert!(same_text(&chars(""), &chars("")));
    assert!(starts_with(&chars("SELECT * FROM t"), &chars("SELECT")));
    assert!(starts_with(&chars("SELECT"), &chars("SELECT")));
    assert!(starts_with(&chars("x"), &chars("")));
    assert!(!starts_with(&chars("SELEC"), &chars("SELECT")));
    assert!(!starts_with(&chars("xSELECT"), &chars("SELECT")));
}

#[test]
fn find_from_gives_the_first_place() {
    let s = chars("abcabcabc");
    let pat = chars("bc");
    assert_eq!(find_from(&s, &pat, 0), Some(1));
    assert_eq!(find_from(&s, &pat, 1), Some(1));
    assert_eq!(find_from(&s, &pat, 2), Some(4));
    assert_eq!(find_from(&s, &pat, 8), None);
    assert_eq!(find_from(&s, &pat, 100), None);
    assert_eq!(find_from(&s, &chars("x"), 0), None);
    assert_eq!(find_from(&s, &chars(""), 0), None);
    assert_eq!(find_from(&chars("ab"), &chars("abc"), 0), None);
    assert_eq!(find_from(&s, &chars("abcabcabc"), 0), Some(0));
}

#[test]
fn split_after_first_agrees_with_the_second_piece_of_std_split() {
    for s in [
        "",
        "VALUES",
        "INSERT INTO users VALUES (1, Alice)",
        "INSERT INTO VALUES VALUES (1)",
        "a VALUES b VALUES c VALUES d",
        "no marker here",
        "VALUESVALUES",
        "xVALUE",
        "values (1)",
    ] {
        let expected = s.split("VALUES").nth(1).map(|p| p.to_string());
        let c = chars(s);
        let found = split_after_first(&c, &chars("VALUES")).map(to_string);
        assert_eq!(found, expected, "{:?}", s);
    }
}
