use simplestt::transcript::{finish_transcript, is_filler_transcript, is_hallucination, join_segments};

#[test]
fn filler_phrases_alone_are_hallucinations() {
    assert!(is_hallucination("Gracias."));
    assert!(is_hallucination("  OK! "));
    assert!(is_hallucination("Thank you."));
    assert!(is_hallucination("Sí"));
    assert!(is_hallucination("hmm"));
    assert!(is_hallucination("Subscribe!?"));
}

#[test]
fn short_text_with_a_filler_word_is_a_hallucination() {
    assert!(is_hallucination("um yes"));
    assert!(is_hallucination("the cat"));
    assert!(!is_hallucination("Uh, right."));
}

#[test]
fn real_sentences_pass() {
    assert!(!is_hallucination("hello world"));
    assert!(!is_hallucination("Thank you very much"));
    assert!(!is_hallucination("I think so"));
    assert!(!is_hallucination("buenos días a todos"));
    assert!(!is_hallucination(""));
}

#[test]
fn two_short_words_but_too_long_pass() {
    assert!(!is_hallucination("um extraordinarily"));
}

#[test]
fn verdict_on_lowered_text_is_case_sensitive() {
    assert!(is_filler_transcript("gracias"));
    assert!(!is_filler_transcript("Gracias"));
    assert!(is_filler_transcript("ok..."));
    assert!(is_filler_transcript("no ?"));
}

#[test]
fn segments_are_trimmed_and_joined() {
    let segs = vec![
        Some(" Hello".to_string()),
        None,
        Some("   ".to_string()),
        Some("world.  ".to_string()),
    ];
    assert_eq!(join_segments(&segs), "Hello world.");
    assert_eq!(join_segments(&vec![]), "");
    assert_eq!(join_segments(&vec![None, Some(" \t".to_string())]), "");
}

#[test]
fn finished_transcript_drops_empty_and_fillers() {
    let segs = vec![Some(" Hello".to_string()), Some("there ".to_string())];
    assert_eq!(finish_transcript(&segs), Some("Hello there".to_string()));
    assert_eq!(finish_transcript(&vec![Some("  ".to_string())]), None);
    assert_eq!(finish_transcript(&vec![Some(" Gracias. ".to_string())]), None);
    assert_eq!(finish_transcript(&vec![]), None);
}

#[test]
fn finished_transcript_has_no_surrounding_whitespace() {
    let segs = vec![Some("\n hola ".to_string()), Some(" mundo\n".to_string())];
    let text = finish_transcript(&segs).unwrap();
    assert_eq!(text, text.trim());
    assert_eq!(text, "hola mundo");
}
