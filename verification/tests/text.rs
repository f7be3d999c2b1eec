use ssh_list::text::{
    all_blank, chars_of, contains_char, contains_text, is_blank_char, lines_of, lowercase,
    matches_at, push_chars, replace_in, same_chars, starts_with, string_of, tokens_of,
    trim_of,
};

fn words(s: &str) -> Vec<String> {
    tokens_of(&chars_of(s)).iter().map(|w| string_of(w)).collect()
}

fn split(s: &str) -> Vec<String> {
    lines_of(&chars_of(s)).iter().map(|w| string_of(w)).collect()
}

#[test]
fn chars_and_strings_round_trip() {
    let cs = chars_of("héllo wörld");
    assert_eq!(cs.len(), 11);
    assert_eq!(string_of(&cs), "héllo wörld");
    assert_eq!(string_of(&chars_of("")), "");
}

#[test]
fn blanks_are_the_unicode_white_space() {
    for c in ['\t', '\n', '\u{b}', '\u{c}', '\r', ' ', '\u{85}', '\u{a0}', '\u{1680}', '\u{2000}',
        '\u{200a}', '\u{2028}', '\u{2029}', '\u{202f}', '\u{205f}', '\u{3000}']
    {
        assert!(is_blank_char(c));
    }
    for c in ['a', '0', '=', '\u{8}', '\u{e}', '\u{200b}', '\u{feff}', '\u{180e}'] {
        assert!(!is_blank_char(c));
    }
}

#[test]
fn blanks_agree_with_the_standard_library() {
    let mut n: u32 = 0;
    while n <= 0x10ffff {
        if let Some(c) = char::from_u32(n) {
            assert_eq!(is_blank_char(c), c.is_whitespace());
        }
        n += 1;
    }
}

#[test]
fn trim_drops_blanks_at_both_ends() {
    assert_eq!(string_of(&trim_of(&chars_of("  \t Host a b \r\n"))), "Host a b");
    assert_eq!(string_of(&trim_of(&chars_of("x"))), "x");
    assert_eq!(string_of(&trim_of(&chars_of(" \t "))), "");
    assert_eq!(string_of(&trim_of(&chars_of(""))), "");
}

#[test]
fn all_blank_tells_empty_text() {
    assert!(all_blank(&chars_of("")));
    assert!(all_blank(&chars_of(" \n\t")));
    assert!(!all_blank(&chars_of(" \n.")));
}

#[test]
fn tokens_are_the_runs_between_blanks() {
    assert_eq!(words("a bb  ccc"), vec!["a", "bb", "ccc"]);
    assert_eq!(words("  lead and trail\t"), vec!["lead", "and", "trail"]);
    assert_eq!(words(""), Vec::<String>::new());
    assert_eq!(words(" \t "), Vec::<String>::new());
    assert_eq!(words("one"), vec!["one"]);
}

#[test]
fn lines_end_at_line_feeds() {
    assert_eq!(split("a\nb\r\nc"), vec!["a", "b", "c"]);
    assert_eq!(split("a\n"), vec!["a"]);
    assert_eq!(split("a\n\nb"), vec!["a", "", "b"]);
    assert_eq!(split(""), Vec::<String>::new());
    assert_eq!(split("\n"), vec![""]);
    assert_eq!(split("a\rb\n"), vec!["a\rb"]);
    assert_eq!(split("last\r"), vec!["last\r"]);
}

#[test]
fn lines_agree_with_the_standard_library() {
    for text in ["", "\n", "a", "a\n", "a\r\n", "a\r", "\r\n\r\n", "x\ny\r\nz\r", "\r", "a\n\rb"] {
        let expected: Vec<String> = text.lines().map(|l| l.to_string()).collect();
        assert_eq!(split(text), expected);
    }
}

#[test]
fn replace_changes_every_occurrence() {
    assert_eq!(string_of(&replace_in(&chars_of("a=b=c"), '=', ' ')), "a b c");
    assert_eq!(string_of(&replace_in(&chars_of("abc"), '=', ' ')), "abc");
}

#[test]
fn comparisons_and_searches() {
    assert!(same_chars(&chars_of("abc"), &chars_of("abc")));
    assert!(!same_chars(&chars_of("abc"), &chars_of("abd")));
    assert!(!same_chars(&chars_of("abc"), &chars_of("ab")));
    assert!(starts_with(&chars_of("host a"), &chars_of("host ")));
    assert!(!starts_with(&chars_of("hostname a"), &chars_of("host ")));
    assert!(!starts_with(&chars_of("ho"), &chars_of("host ")));
    assert!(starts_with(&chars_of("x"), &chars_of("")));
    assert!(contains_char(&chars_of("a*b"), '*'));
    assert!(!contains_char(&chars_of("ab"), '*'));
    assert!(contains_text(&chars_of("ssh: Cannot fork"), &chars_of("Cannot fork")));
    assert!(!contains_text(&chars_of("ssh: cannot fork"), &chars_of("Cannot fork")));
    assert!(contains_text(&chars_of("abc"), &chars_of("")));
    assert!(contains_text(&chars_of(""), &chars_of("")));
    assert!(!contains_text(&chars_of("ab"), &chars_of("abc")));
    assert!(matches_at(&chars_of("xxabc"), &chars_of("abc"), 2));
    assert!(!matches_at(&chars_of("xxabc"), &chars_of("abc"), 1));
    assert!(!matches_at(&chars_of("xxabc"), &chars_of("abc"), 3));
    assert!(!matches_at(&chars_of("ab"), &chars_of("abc"), 0));
    assert!(matches_at(&chars_of("ab"), &chars_of(""), 2));
    assert!(!matches_at(&chars_of("ab"), &chars_of(""), 3));
}

#[test]
fn characters_are_appended() {
    let mut out = chars_of("ab");
    push_chars(&mut out, &chars_of("cd"));
    assert_eq!(string_of(&out), "abcd");
}

#[test]
fn lowercase_follows_unicode() {
    assert_eq!(string_of(&lowercase(&chars_of("HoSt"))), "host");
    assert_eq!(string_of(&lowercase(&chars_of("ÉCOLE"))), "école");
    assert_eq!(string_of(&lowercase(&chars_of("already"))), "already");
}
