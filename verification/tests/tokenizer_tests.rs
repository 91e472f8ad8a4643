//! Greedy tokenizer behavior: longest match, unknown fallback, termination
//! on ASCII and Unicode input, and rejection of empty input.

use text_embeddings_inference::errors::PipelineError;
use text_embeddings_inference::vocab::Vocabulary;

fn vocab(pairs: &[(&str, u32)], unk: u32) -> Vocabulary {
    let owned: Vec<(String, u32)> = pairs.iter().map(|(s, i)| (String::from(*s), *i)).collect();
    Vocabulary::new(owned, unk).expect("vocabulary should build")
}

#[test]
fn empty_input_is_rejected() {
    let v = vocab(&[("a", 1)], 0);
    assert!(matches!(v.tokenize(""), Err(PipelineError::EmptyInput)));
}

#[test]
fn longest_match_wins() {
    let v = vocab(&[("ab", 1), ("a", 2), ("b", 3)], 0);
    assert_eq!(v.tokenize("ab").unwrap(), vec![1]);
    assert_eq!(v.tokenize("aab").unwrap(), vec![2, 1]);
    assert_eq!(v.tokenize("ba").unwrap(), vec![3, 2]);
}

#[test]
fn greedy_matching_does_not_backtrack() {
    // At each position the longest match is taken even when a shorter one
    // would let the rest of the text match better.
    let v = vocab(&[("aa", 1), ("ab", 2), ("a", 3)], 0);
    assert_eq!(v.tokenize("aab").unwrap(), vec![1, 0]);
}

#[test]
fn unknown_characters_map_to_reserved_id() {
    let v = vocab(&[("a", 1)], 9);
    assert_eq!(v.tokenize("xa").unwrap(), vec![9, 1]);
    assert_eq!(v.tokenize("xyz").unwrap(), vec![9, 9, 9]);
}

#[test]
fn single_character_fallback_before_unknown() {
    let v = vocab(&[("abc", 1), ("b", 2)], 0);
    // "abd": no prefix of any length matches at position 0, so one unknown;
    // then "b" matches; then "d" is unknown again.
    assert_eq!(v.tokenize("abd").unwrap(), vec![0, 2, 0]);
}

#[test]
fn unicode_input_terminates_and_covers_every_character() {
    let v = vocab(&[("\u{65e5}\u{672c}", 7), ("\u{65e5}", 8), ("\u{e9}", 5)], 0);
    // Two-character key first, then the single character, then unknown.
    assert_eq!(
        v.tokenize("\u{65e5}\u{672c}\u{65e5}\u{e9}x").unwrap(),
        vec![7, 8, 5, 0]
    );
    let smiley = v.tokenize("\u{1f600}\u{1f600}").unwrap();
    assert_eq!(smiley, vec![0, 0]);
}

#[test]
fn nonempty_input_always_yields_tokens() {
    let v = vocab(&[("he", 1), ("l", 2), ("o wor", 3)], 42);
    for text in ["hello world", "x", " ", "\u{3b1}\u{3b2}\u{3b3}", "hehehe"] {
        let ids = v.tokenize(text).unwrap();
        assert!(!ids.is_empty());
    }
}

#[test]
fn duplicate_keys_are_rejected() {
    let pairs = vec![(String::from("a"), 1), (String::from("a"), 2)];
    assert!(matches!(
        Vocabulary::new(pairs, 0),
        Err(PipelineError::Tokenization(_))
    ));
}

#[test]
fn duplicate_ids_are_rejected() {
    let pairs = vec![(String::from("a"), 1), (String::from("b"), 1)];
    assert!(matches!(
        Vocabulary::new(pairs, 0),
        Err(PipelineError::Tokenization(_))
    ));
}
