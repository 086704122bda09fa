use simplestt::text::{chars_eq, chars_of, split_words, trim_chars, trim_str};

#[test]
fn trimming_unicode_whitespace() {
    assert_eq!(trim_str("  hi there \n"), "hi there".chars().collect::<Vec<_>>());
    assert_eq!(trim_str("\u{3000}x\u{a0}"), vec!['x']);
    assert_eq!(trim_str("   "), Vec::<char>::new());
    assert_eq!(trim_chars(&vec!['a']), vec!['a']);
}

#[test]
fn words_split_on_whitespace_runs() {
    let w = split_words(&chars_of("  one  two\tthree "));
    let w: Vec<String> = w.into_iter().map(|v| v.into_iter().collect()).collect();
    assert_eq!(w, vec!["one", "two", "three"]);
    assert!(split_words(&chars_of(" \n ")).is_empty());
}

#[test]
fn char_equality() {
    assert!(chars_eq(&chars_of("abc"), &chars_of("abc")));
    assert!(!chars_eq(&chars_of("abc"), &chars_of("abd")));
    assert!(!chars_eq(&chars_of("ab"), &chars_of("abc")));
}
