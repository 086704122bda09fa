use simplestt::injection::{needs_space_before, scan_codes, text_to_inject};

#[test]
fn space_needed_after_words() {
    assert!(needs_space_before(""));
    assert!(needs_space_before("hello"));
    assert!(!needs_space_before("hello "));
    assert!(!needs_space_before("hello\n"));
    assert!(!needs_space_before("hola\u{a0}"));
}

#[test]
fn utterances_are_separated() {
    assert_eq!(text_to_inject("hello", "world"), " world");
    assert_eq!(text_to_inject("", "world"), " world");
    assert_eq!(text_to_inject("hello ", "world"), "world");
    assert_eq!(text_to_inject("hello", " world"), " world");
    assert_eq!(text_to_inject("hello", ""), " ");
}

#[test]
fn scan_codes_truncate_to_sixteen_bits() {
    assert_eq!(scan_codes("aé"), vec![0x61, 0xE9]);
    assert_eq!(scan_codes("\u{1F600}"), vec![0xF600]);
    assert_eq!(scan_codes(""), Vec::<u16>::new());
}
