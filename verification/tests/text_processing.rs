//! Normalization and pattern matching.

use brightstaff::natural::Ratio;
use brightstaff::signals::text_processing::{
    cosine_freq, jaccard, NormalizedMessage, NormalizedPattern, TokenCount,
};

fn ratio(num: u128, den: u128) -> Ratio {
    Ratio::new(num, den)
}

#[test]
fn normalize_lowercases_and_strips_punctuation() {
    let m = NormalizedMessage::from_text("Hello, World!", 2000);
    assert_eq!(m.tokens, vec!["hello".to_string(), "world".to_string()]);
}

#[test]
fn normalizes_smart_quotes() {
    let m = NormalizedMessage::from_text("don\u{2019}t", 2000);
    assert!(m.tokens.contains(&"don't".to_string()));
}

#[test]
fn truncates_long_text_with_head_tail() {
    let long = "a".repeat(3000);
    let m = NormalizedMessage::from_text(&long, 2000);
    // raw should be ~ 2000 chars (head + space + tail)
    assert!(m.raw.chars().count() <= 2001);
    assert!(m.raw.starts_with("aa"));
    assert!(m.raw.ends_with("aa"));
}

#[test]
fn contains_phrase_matches_consecutive_tokens() {
    let m = NormalizedMessage::from_text("I think this is great work", 2000);
    assert!(m.contains_phrase("this is great"));
    assert!(!m.contains_phrase("great this"));
}

#[test]
fn matches_pattern_via_exact_phrase() {
    let m = NormalizedMessage::from_text("No, I meant the second one", 2000);
    let p = NormalizedPattern::from_text("no i meant");
    assert!(m.matches_normalized_pattern(&p, ratio(65, 100), ratio(6, 10)));
}

#[test]
fn matches_pattern_via_char_ngram_fuzziness() {
    // Typo in "meant" -> "ment" so layer 0 (exact phrase) cannot match,
    // forcing the matcher to fall back to layer 1 (char n-gram Jaccard).
    let m = NormalizedMessage::from_text("No I ment", 2000);
    let p = NormalizedPattern::from_text("no i meant");
    assert!(m.matches_normalized_pattern(&p, ratio(4, 10), ratio(6, 10)));
}

#[test]
fn jaccard_identical_sets_is_one() {
    let a: Vec<String> = ["abc", "bcd"].iter().map(|s| s.to_string()).collect();
    let r = jaccard(&a, &a);
    assert!(r.den > 0);
    assert_eq!(r.num, r.den);
}

#[test]
fn cosine_freq_orthogonal_is_zero() {
    let a = vec![TokenCount {
        token: "hello".to_string(),
        count: 1,
    }];
    let b = vec![TokenCount {
        token: "world".to_string(),
        count: 1,
    }];
    let c = cosine_freq(&a, &b);
    assert!(!c.at_least(&ratio(1, 1_000_000)));
    assert!(c.at_least(&ratio(0, 1)));
}

#[test]
fn messages_are_compared_with_phrases() {
    let m = NormalizedMessage::from_text("abcd", 2000);
    let similar = m.ngram_similarity_with_pattern("ABCE");
    assert_eq!((similar.num, similar.den), (1, 3));
    let contained = m.char_ngram_containment("bcd!");
    assert_eq!((contained.num, contained.den), (1, 1));
    let contained = m.char_ngram_containment("xbcd");
    assert_eq!((contained.num, contained.den), (1, 2));

    let m = NormalizedMessage::from_text("go go stop", 2000);
    let c = m.token_cosine_similarity("GO now");
    let same = |n: &brightstaff::natural::Natural, v: u128| {
        let v = brightstaff::natural::Natural::new(v);
        n.at_least(&v) && v.at_least(n)
    };
    assert!(same(&c.dot, 2));
    assert!(same(&c.norms, 10));
}

#[test]
fn normalizing_again_keeps_the_tokens() {
    let text = "  \u{201c}Don\u{2019}t\u{201d} PANIC -- it's   fine!! ";
    let m = NormalizedMessage::from_text(text, 2000);
    assert_eq!(m.tokens, ["don't", "panic", "it's", "fine"]);
    let again = NormalizedMessage::from_text(&m.tokens.join(" "), 2000);
    assert_eq!(again.tokens, m.tokens);
    let p = NormalizedPattern::from_text(text);
    assert_eq!(p.tokens, m.tokens);
    assert_eq!(p.raw, text);
}

#[test]
fn lower_thresholds_lose_no_match() {
    let m = NormalizedMessage::from_text("please cancel my order today", 2000);
    let p = NormalizedPattern::from_text("cancel the order");
    let matches = |c: u128, t: u128| {
        m.matches_normalized_pattern(&p, ratio(c, 100), ratio(t, 100))
    };
    assert!(!matches(99, 99));
    assert!(matches(99, 40));
    assert!(matches(20, 40));
    let phrase = NormalizedPattern::from_text("my order");
    assert!(m.matches_normalized_pattern(&phrase, ratio(100, 1), ratio(100, 1)));
}
