use sentinel::text::{
    eq_ignore_ascii_case, find, from_chars, is_whitespace, same_text, split_at_each, to_chars,
};

#[test]
fn whitespace_is_that_of_unicode() {
    for u in 0..=0x10ffffu32 {
        if let Some(c) = char::from_u32(u) {
            assert_eq!(is_whitespace(c), c.is_whitespace());
        }
    }
}

#[test]
fn case_of_ascii_letters_is_ignored() {
    let samples = [
        "", "explorer.exe", "EXPLORER.EXE", "Explorer.exe", "explorer.ex", "explorer_exe", "\u{e9}",
        "\u{c9}", "@[`{", "AZaz", "azAZ", "k", "\u{212a}",
    ];
    for a in samples {
        for b in samples {
            assert_eq!(eq_ignore_ascii_case(a, b), a.eq_ignore_ascii_case(b));
            assert_eq!(same_text(a, b), a == b);
        }
    }
    assert!(eq_ignore_ascii_case("Tracker.EXE", "tracker.exe"));
    assert!(!eq_ignore_ascii_case("\u{e9}", "\u{c9}"));
}

#[test]
fn chars_and_strings_convert() {
    let s = "a\u{e9}\u{1f600}";
    assert_eq!(to_chars(s), vec!['a', '\u{e9}', '\u{1f600}']);
    assert_eq!(from_chars(&to_chars(s)), s);
    assert_eq!(from_chars(&[]), "");
}

#[test]
fn find_gives_the_first_occurrence() {
    let s = to_chars("abcabc");
    assert_eq!(find(&s, &to_chars("bc"), 0), Some(1));
    assert_eq!(find(&s, &to_chars("bc"), 2), Some(4));
    assert_eq!(find(&s, &to_chars("bc"), 5), None);
    assert_eq!(find(&s, &to_chars("abcabcd"), 0), None);
    assert_eq!(find(&s, &to_chars(""), 6), Some(6));
}

#[test]
fn split_gives_one_piece_more_than_separators() {
    for s in ["", ",", "a", "a,b", ",a,,b,", "\u{e9},x"] {
        let got: Vec<String> =
            split_at_each(&to_chars(s), ',').iter().map(|p| from_chars(p)).collect();
        let expected: Vec<String> = s.split(',').map(|p| p.to_string()).collect();
        assert_eq!(got, expected);
        assert_eq!(got.join(","), s);
    }
}
