//! Word lists shared by the interaction detectors.

use crate::text::{
    begins_with, lowercase, same_text, starts_with, trim_space, trimmed_space,
};
use vstd::prelude::*;

verus! {

/// Openings of messages that are friendly whatever their punctuation.
pub const POSITIVE_PREFIXES: [&'static str; 21] = [
    "yes", "yeah", "yep", "yup", "sure", "ok", "okay", "great", "awesome", "perfect", "thanks",
    "thank", "wonderful", "excellent", "amazing", "nice", "good", "cool", "absolutely",
    "definitely", "please",
];

/// Openings of messages that confirm what was said before.
pub const CONFIRMATION_PREFIXES: [&'static str; 18] = [
    "yes", "yeah", "yep", "yup", "correct", "right", "that's correct", "that's right",
    "that is correct", "that is right", "sure", "ok", "okay", "exactly", "absolutely",
    "definitely", "agreed", "confirmed",
];

/// Words that carry no content of their own.
pub const STOPWORDS: [&'static str; 75] = [
    "a", "an", "and", "are", "as", "at", "be", "been", "being", "but", "by", "can", "could",
    "did", "do", "does", "for", "from", "had", "has", "have", "he", "her", "his", "how", "i",
    "i'm", "if", "in", "into", "is", "it", "it's", "its", "just", "me", "my", "not", "of", "on",
    "or", "our", "please", "she", "so", "some", "than", "that", "that's", "the", "their",
    "them", "then", "there", "these", "they", "this", "those", "to", "up", "us", "was", "we",
    "were", "what", "when", "where", "which", "who", "why", "will", "with", "would", "you",
    "your",
];

/// Whether a text, in lower case and without the space around it, begins
/// with one of the prefixes.
pub open spec fn has_prefix(text: Seq<char>, prefixes: Seq<&'static str>) -> bool {
    exists|i: int|
        0 <= i < prefixes.len() && begins_with(
            trimmed_space(lowercase(text)),
            (#[trigger] prefixes[i])@,
        )
}

/// Tests a text, in lower case and without the space around it, for prefixes.
pub fn starts_with_prefix(text: &str, prefixes: &[&'static str]) -> (b: bool)
    ensures
        b == has_prefix(text@, prefixes@),
{
    let lowered: String = text.to_lowercase();
    let trimmed: String = trim_space(lowered.as_str());
    let mut i: usize = 0;
    while i < prefixes.len()
        invariant
            i <= prefixes.len(),
            trimmed@ == trimmed_space(lowercase(text@)),
            forall|j: int| 0 <= j < i ==> !begins_with(trimmed@, (#[trigger] prefixes@[j])@),
        decreases prefixes.len() - i,
    {
        if starts_with(trimmed.as_str(), prefixes[i]) {
            return true;
        }
        i += 1;
    }
    false
}

/// Whether a token is one of the stopwords.
pub open spec fn is_stopword(t: Seq<char>) -> bool {
    exists|i: int| 0 <= i < STOPWORDS@.len() && (#[trigger] STOPWORDS@[i])@ == t
}

/// Tests a token for being a stopword.
pub fn stopword(t: &str) -> (b: bool)
    ensures
        b == is_stopword(t@),
{
    let list: [&'static str; 75] = STOPWORDS;
    let mut i: usize = 0;
    while i < 75
        invariant
            i <= 75,
            list@ == STOPWORDS@,
            forall|j: int| 0 <= j < i ==> (#[trigger] STOPWORDS@[j])@ != t@,
        decreases 75 - i,
    {
        if same_text(list[i], t) {
            return true;
        }
        i += 1;
    }
    false
}

} // verus!
