//! Searching texts for tables of regular expressions, by `regex`.

use crate::text::{
    align_char_boundary, boundary_after, boundary_before, byte_len, byte_slice, bytes_in, concat3,
    join, joined, on_boundary, slice_bytes, texts,
};
use vstd::prelude::*;
use vstd::string::StringExecFns;

verus! {

/// The byte range of the first match of a regular expression in a text;
/// `None` where the expression does not match or is none.
pub uninterp spec fn regex_find(pattern: Seq<char>, text: Seq<char>) -> Option<(int, int)>;

/// The number of successive non-overlapping matches of a regular expression
/// in a text (0 where the expression is none).
pub uninterp spec fn regex_count(pattern: Seq<char>, text: Seq<char>) -> nat;

/// A byte range of a text.
#[derive(Debug, Clone, Copy, PartialEq, Eq, Structural)]
pub struct Span {
    pub start: usize,
    pub end: usize,
}

impl Span {
    /// Whether the span is a range of `text` that begins and ends on a boundary.
    pub open spec fn lies_in(self, text: Seq<char>) -> bool {
        &&& self.start <= self.end <= byte_len(text)
        &&& on_boundary(text, self.start as int)
        &&& on_boundary(text, self.end as int)
    }
}

/// The offsets of an optional span.
pub open spec fn span_view(s: Option<Span>) -> Option<(int, int)> {
    match s {
        Some(s) => Some((s.start as int, s.end as int)),
        None => None,
    }
}

/// `regex::Regex::new` and `Regex::find`: a function of the pattern and the
/// text alone, whose result is named; a match is a range of the text on
/// character boundaries.
#[verifier::external_body]
pub(crate) fn find_regex(pattern: &str, text: &str) -> (r: Option<Span>)
    ensures
        span_view(r) == regex_find(pattern@, text@),
        r is Some ==> r->0.lies_in(text@),
{
    regex::Regex::new(pattern).ok().and_then(|re| re.find(text).map(|m| (m.start(), m.end()))).map(
        |m| Span { start: m.0, end: m.1 },
    )
}

/// `regex::Regex::new` and `Regex::find_iter`, counted: a function of the
/// pattern and the text alone, whose result is named.
#[verifier::external_body]
pub(crate) fn count_regex(pattern: &str, text: &str) -> (n: usize)
    ensures
        n == regex_count(pattern@, text@),
{
    regex::Regex::new(pattern).map(|re| re.find_iter(text).count()).unwrap_or(0)
}

/// One expression that matches, regardless of case, what any of the patterns matches.
pub open spec fn combined(patterns: Seq<&'static str>) -> Seq<char> {
    "(?i)"@ + joined(
        Seq::new(patterns.len(), |i: int| "("@ + patterns[i]@ + ")"@),
        "|"@,
    )
}

/// The first match of any of the patterns.
pub open spec fn first_match(patterns: Seq<&'static str>, text: Seq<char>) -> Option<(int, int)> {
    regex_find(combined(patterns), text)
}

fn combine(patterns: &[&'static str]) -> (r: String)
    ensures
        r@ == combined(patterns@),
{
    let mut parts: Vec<String> = Vec::new();
    let mut i: usize = 0;
    while i < patterns.len()
        invariant
            i <= patterns.len(),
            parts@.len() == i,
            forall|j: int| 0 <= j < i ==> (#[trigger] parts@[j])@ == "("@ + patterns@[j]@ + ")"@,
        decreases patterns.len() - i,
    {
        parts.push(concat3("(", patterns[i], ")"));
        i += 1;
    }
    assert(texts(parts@) =~= Seq::new(patterns@.len(), |i: int| "("@ + patterns@[i]@ + ")"@));
    let mut r: String = "(?i)".to_owned();
    r.append(join(&parts, "|").as_str());
    r
}

/// Finds the first match of any of the patterns.
pub fn find_any(patterns: &[&'static str], text: &str) -> (r: Option<Span>)
    ensures
        span_view(r) == first_match(patterns@, text@),
        r is Some ==> r->0.lies_in(text@),
{
    let pattern: String = combine(patterns);
    find_regex(pattern.as_str(), text)
}

/// `text` around the byte range `start..end`, with `context` more bytes on
/// either side and an ellipsis where something is left out.
pub open spec fn snippet(text: Seq<char>, start: int, end: int, context: int) -> Seq<char> {
    let lo = boundary_before(text, if start < context { 0 } else { start - context });
    let hi = boundary_after(
        text,
        if end + context < byte_len(text) { end + context } else { byte_len(text) as int },
    );
    (if lo > 0 { "..."@ } else { Seq::empty() }) + byte_slice(text, lo, hi) + (if hi < byte_len(
        text,
    ) { "..."@ } else { Seq::empty() })
}

/// Build a context-window snippet around a match, with leading/trailing
/// ellipses when truncated. The match need not be one of `text`: its offsets
/// are moved to boundaries of `text`.
pub fn snippet_around(text: &str, m: Span, context: usize) -> (r: String)
    requires
        m.start <= m.end,
    ensures
        r@ == snippet(text@, m.start as int, m.end as int, context as int),
{
    let n: usize = bytes_in(text);
    let start: usize = align_char_boundary(text, m.start.saturating_sub(context), false);
    let wanted: usize = if m.end < n && context < n - m.end { m.end + context } else { n };
    let end: usize = align_char_boundary(text, wanted, true);
    let mut r: String = String::new();
    if start > 0 {
        r.append("...");
    }
    r.append(slice_bytes(text, start, end).as_str());
    if end < n {
        r.append("...");
    }
    assert(r@ =~= snippet(text@, m.start as int, m.end as int, context as int));
    r
}

} // verus!
