//! Text normalization and similarity primitives.

use crate::natural::{Natural, Ratio};
use crate::text::{
    all_low, all_words, char_is_alphanumeric, char_is_whitespace, chars_of, clone_texts, concat3,
    holds_text, is_ascii_text, is_low, is_low_char, is_punctuation, is_word, join, joined,
    lemma_joined_low, lemma_low_is_lowercase, lemma_lowercase_is_low, lemma_trimmed,
    lemma_words_are_words, lemma_words_low, lemma_words_of_joined, lowercase, same_text,
    split_words, text_of, texts, trim_punctuation, trimmed_punctuation, words,
};
use vstd::prelude::*;

verus! {

/// Size of character n-grams used for fuzzy similarity (3 = trigrams).
pub const NGRAM_SIZE: usize = 3;

// ---------------------------------------------------------------------------
// Sets and frequencies, as sequences without repetition
// ---------------------------------------------------------------------------

/// The elements of `s`, each at its first occurrence only.
pub open spec fn distinct(s: Seq<Seq<char>>) -> Seq<Seq<char>>
    decreases s.len(),
{
    if s.len() == 0 {
        Seq::empty()
    } else {
        let d = distinct(s.drop_last());
        if d.contains(s.last()) { d } else { d.push(s.last()) }
    }
}

/// How often `t` occurs in `s`.
pub open spec fn occurrences(s: Seq<Seq<char>>, t: Seq<char>) -> nat
    decreases s.len(),
{
    if s.len() == 0 {
        0
    } else {
        occurrences(s.drop_last(), t) + if s.last() == t { 1nat } else { 0 }
    }
}

/// Each distinct element of `s` with the number of its occurrences.
pub open spec fn frequencies(s: Seq<Seq<char>>) -> Seq<(Seq<char>, nat)> {
    let d = distinct(s);
    Seq::new(d.len(), |i: int| (d[i], occurrences(s, d[i])))
}

/// How many elements of `a` also stand in `b`.
pub open spec fn shared(a: Seq<Seq<char>>, b: Seq<Seq<char>>) -> nat
    decreases a.len(),
{
    if a.len() == 0 {
        0
    } else {
        shared(a.drop_last(), b) + if b.contains(a.last()) { 1nat } else { 0 }
    }
}

pub proof fn lemma_shared_bound(a: Seq<Seq<char>>, b: Seq<Seq<char>>)
    ensures
        shared(a, b) <= a.len(),
    decreases a.len(),
{
    if a.len() > 0 {
        lemma_shared_bound(a.drop_last(), b);
    }
}

proof fn lemma_occurrences_bound(s: Seq<Seq<char>>, t: Seq<char>)
    ensures
        occurrences(s, t) <= s.len(),
    decreases s.len(),
{
    if s.len() > 0 {
        lemma_occurrences_bound(s.drop_last(), t);
    }
}

/// A token and how often it occurs.
#[derive(Debug)]
pub struct TokenCount {
    pub token: String,
    pub count: usize,
}

impl Clone for TokenCount {
    fn clone(&self) -> (r: Self)
        ensures
            r.token@ == self.token@,
            r.count == self.count,
    {
        TokenCount { token: self.token.clone(), count: self.count }
    }
}

/// The counts held by a frequency table.
pub open spec fn counts(v: Seq<TokenCount>) -> Seq<(Seq<char>, nat)> {
    Seq::new(v.len(), |i: int| (v[i].token@, v[i].count as nat))
}

/// Drops every later occurrence of an element.
fn distinct_texts(v: Vec<String>) -> (r: Vec<String>)
    ensures
        texts(r@) == distinct(texts(v@)),
{
    let mut r: Vec<String> = Vec::new();
    let mut i: usize = 0;
    assert(texts(r@) =~= Seq::empty());
    while i < v.len()
        invariant
            i <= v.len(),
            texts(r@) == distinct(texts(v@).take(i as int)),
        decreases v.len() - i,
    {
        let ghost next = texts(v@).take(i + 1);
        assert(next.drop_last() =~= texts(v@).take(i as int));
        assert(next.last() == v@[i as int]@);
        if !holds_text(&r, v[i].as_str()) {
            let s: String = v[i].clone();
            assert(texts(r@.push(s)) =~= texts(r@).push(s@));
            r.push(s);
        }
        i += 1;
    }
    assert(texts(v@).take(v@.len() as int) =~= texts(v@));
    r
}

fn count_text(v: &Vec<String>, t: &str) -> (n: usize)
    ensures
        n == occurrences(texts(v@), t@),
{
    let mut n: usize = 0;
    let mut i: usize = 0;
    while i < v.len()
        invariant
            i <= v.len(),
            n <= i,
            n == occurrences(texts(v@).take(i as int), t@),
        decreases v.len() - i,
    {
        let ghost next = texts(v@).take(i + 1);
        assert(next.drop_last() =~= texts(v@).take(i as int));
        assert(next.last() == v@[i as int]@);
        if same_text(v[i].as_str(), t) {
            n += 1;
        }
        i += 1;
    }
    assert(texts(v@).take(v@.len() as int) =~= texts(v@));
    n
}

fn frequency_table(v: &Vec<String>) -> (r: Vec<TokenCount>)
    ensures
        counts(r@) == frequencies(texts(v@)),
{
    let d: Vec<String> = distinct_texts(clone_texts(v));
    let mut r: Vec<TokenCount> = Vec::new();
    let mut i: usize = 0;
    while i < d.len()
        invariant
            i <= d.len(),
            texts(d@) == distinct(texts(v@)),
            counts(r@) == frequencies(texts(v@)).take(i as int),
        decreases d.len() - i,
    {
        let n: usize = count_text(v, d[i].as_str());
        let entry: TokenCount = TokenCount { token: d[i].clone(), count: n };
        proof {
            assert(texts(d@)[i as int] == d@[i as int]@);
            assert(counts(r@.push(entry)) =~= counts(r@).push((entry.token@, n as nat)));
            assert(frequencies(texts(v@)).take(i + 1) =~= frequencies(texts(v@)).take(
                i as int,
            ).push((entry.token@, n as nat)));
        }
        r.push(entry);
        i += 1;
    }
    assert(counts(r@) =~= frequencies(texts(v@))) by {
        assert(texts(d@).len() == d@.len());
    }
    r
}

pub(crate) fn shared_count(a: &Vec<String>, b: &Vec<String>) -> (n: usize)
    ensures
        n == shared(texts(a@), texts(b@)),
        n <= a.len(),
{
    let mut n: usize = 0;
    let mut i: usize = 0;
    while i < a.len()
        invariant
            i <= a.len(),
            n <= i,
            n == shared(texts(a@).take(i as int), texts(b@)),
        decreases a.len() - i,
    {
        let ghost next = texts(a@).take(i + 1);
        assert(next.drop_last() =~= texts(a@).take(i as int));
        assert(next.last() == a@[i as int]@);
        if holds_text(b, a[i].as_str()) {
            n += 1;
        }
        i += 1;
    }
    assert(texts(a@).take(a@.len() as int) =~= texts(a@));
    n
}

// ---------------------------------------------------------------------------
// Similarity primitives
// ---------------------------------------------------------------------------

/// The Jaccard similarity of two sets: common elements over all elements,
/// 1 for two empty sets.
pub open spec fn jaccard_similarity(a: Seq<Seq<char>>, b: Seq<Seq<char>>) -> Ratio {
    if a.len() == 0 && b.len() == 0 {
        Ratio { num: 1, den: 1 }
    } else if a.len() == 0 || b.len() == 0 {
        Ratio { num: 0, den: 1 }
    } else {
        Ratio {
            num: shared(a, b) as u128,
            den: (a.len() + b.len() - shared(a, b)) as u128,
        }
    }
}

/// How much of `parts` the set `held` has: 0 when there are no parts.
pub open spec fn containment(parts: Seq<Seq<char>>, held: Seq<Seq<char>>) -> Ratio {
    if parts.len() == 0 {
        Ratio { num: 0, den: 1 }
    } else {
        Ratio { num: shared(parts, held) as u128, den: parts.len() as u128 }
    }
}

/// Jaccard similarity of two sets given without repetition.
pub fn jaccard(a: &Vec<String>, b: &Vec<String>) -> (r: Ratio)
    ensures
        r == jaccard_similarity(texts(a@), texts(b@)),
{
    if a.len() == 0 && b.len() == 0 {
        return Ratio::new(1, 1);
    }
    if a.len() == 0 || b.len() == 0 {
        return Ratio::new(0, 1);
    }
    let inter: usize = shared_count(a, b);
    let union: u128 = (a.len() - inter) as u128 + b.len() as u128;
    Ratio::new(inter as u128, union)
}

/// A cosine similarity, `dot / sqrt(norms)`.
pub struct Cosine {
    pub dot: Natural,
    pub norms: Natural,
}

/// The count of `t` in a frequency table (0 when it has none).
pub open spec fn count_of(table: Seq<(Seq<char>, nat)>, t: Seq<char>) -> nat
    decreases table.len(),
{
    if table.len() == 0 {
        0
    } else if table[0].0 == t {
        table[0].1
    } else {
        count_of(table.skip(1), t)
    }
}

/// The sum over the entries of `b` of the two tables' counts multiplied.
pub open spec fn dot_product(a: Seq<(Seq<char>, nat)>, b: Seq<(Seq<char>, nat)>) -> nat
    decreases b.len(),
{
    if b.len() == 0 {
        0
    } else {
        dot_product(a, b.drop_last()) + count_of(a, b.last().0) * b.last().1
    }
}

/// The sum of the squared counts of a table.
pub open spec fn square_sum(a: Seq<(Seq<char>, nat)>) -> nat
    decreases a.len(),
{
    if a.len() == 0 {
        0
    } else {
        square_sum(a.drop_last()) + a.last().1 * a.last().1
    }
}

/// The cosine of two frequency tables as the pair `(dot, norms)` that stands
/// for `dot / sqrt(norms)`: 1 for two empty tables, 0 when one is empty or
/// holds no count.
pub open spec fn cosine(a: Seq<(Seq<char>, nat)>, b: Seq<(Seq<char>, nat)>) -> (nat, nat) {
    if a.len() == 0 && b.len() == 0 {
        (1, 1)
    } else if a.len() == 0 || b.len() == 0 {
        (0, 1)
    } else if square_sum(a) == 0 || square_sum(b) == 0 {
        (0, 1)
    } else {
        (dot_product(a, b), square_sum(a) * square_sum(b))
    }
}

/// Whether `dot / sqrt(norms) >= t`, squared and cross-multiplied.
pub open spec fn cosine_at_least(c: (nat, nat), t: Ratio) -> bool {
    (c.0 * t.den as nat) * (c.0 * t.den as nat) >= (t.num as nat * t.num as nat) * c.1
}

impl Cosine {
    /// Whether the similarity is at least `threshold`.
    pub fn at_least(&self, threshold: &Ratio) -> (b: bool)
        ensures
            b == cosine_at_least((self.dot@, self.norms@), *threshold),
    {
        let den: Natural = Natural::new(threshold.den);
        let num: Natural = Natural::new(threshold.num);
        let scaled: Natural = self.dot.times(&den);
        let lhs: Natural = scaled.times(&scaled);
        let rhs: Natural = num.times(&num).times(&self.norms);
        lhs.at_least(&rhs)
    }
}

fn lookup_count(table: &Vec<TokenCount>, t: &str) -> (n: usize)
    ensures
        n == count_of(counts(table@), t@),
{
    let mut i: usize = 0;
    assert(counts(table@).skip(0) =~= counts(table@));
    while i < table.len()
        invariant
            i <= table.len(),
            count_of(counts(table@), t@) == count_of(counts(table@).skip(i as int), t@),
        decreases table.len() - i,
    {
        assert(counts(table@).skip(i as int)[0] == counts(table@)[i as int]);
        if same_text(table[i].token.as_str(), t) {
            return table[i].count;
        }
        assert(counts(table@).skip(i as int).skip(1) =~= counts(table@).skip(i + 1));
        i += 1;
    }
    0
}

fn sum_of_squares(table: &Vec<TokenCount>) -> (r: Natural)
    ensures
        r@ == square_sum(counts(table@)),
{
    let mut r: Natural = Natural::new(0);
    let mut i: usize = 0;
    while i < table.len()
        invariant
            i <= table.len(),
            r@ == square_sum(counts(table@).take(i as int)),
        decreases table.len() - i,
    {
        let ghost next = counts(table@).take(i + 1);
        assert(next.drop_last() =~= counts(table@).take(i as int));
        assert(next.last() == counts(table@)[i as int]);
        let c: Natural = Natural::new(table[i].count as u128);
        r = r.plus(&c.times(&c));
        i += 1;
    }
    assert(counts(table@).take(table@.len() as int) =~= counts(table@));
    r
}

/// Cosine similarity of two frequency tables.
pub fn cosine_freq(a: &Vec<TokenCount>, b: &Vec<TokenCount>) -> (r: Cosine)
    ensures
        (r.dot@, r.norms@) == cosine(counts(a@), counts(b@)),
{
    if a.len() == 0 && b.len() == 0 {
        return Cosine { dot: Natural::new(1), norms: Natural::new(1) };
    }
    if a.len() == 0 || b.len() == 0 {
        return Cosine { dot: Natural::new(0), norms: Natural::new(1) };
    }
    let mut dot: Natural = Natural::new(0);
    let mut i: usize = 0;
    while i < b.len()
        invariant
            i <= b.len(),
            dot@ == dot_product(counts(a@), counts(b@).take(i as int)),
        decreases b.len() - i,
    {
        let ghost next = counts(b@).take(i + 1);
        assert(next.drop_last() =~= counts(b@).take(i as int));
        assert(next.last() == counts(b@)[i as int]);
        let freq1: Natural = Natural::new(lookup_count(a, b[i].token.as_str()) as u128);
        let freq2: Natural = Natural::new(b[i].count as u128);
        dot = dot.plus(&freq1.times(&freq2));
        i += 1;
    }
    assert(counts(b@).take(b@.len() as int) =~= counts(b@));
    let n1: Natural = sum_of_squares(a);
    let n2: Natural = sum_of_squares(b);
    let one: Natural = Natural::new(1);
    if !n1.at_least(&one) || !n2.at_least(&one) {
        Cosine { dot: Natural::new(0), norms: one }
    } else {
        Cosine { dot, norms: n1.times(&n2) }
    }
}

/// The distinct runs of `n` consecutive characters of `s`.
pub open spec fn ngrams(s: Seq<char>, n: nat) -> Seq<Seq<char>> {
    if s.len() < n {
        Seq::empty()
    } else {
        distinct(Seq::new((s.len() - n + 1) as nat, |i: int| s.subrange(i, i + n)))
    }
}

/// Character n-grams of a text.
fn char_ngrams(s: &str, n: usize) -> (r: Vec<String>)
    ensures
        texts(r@) == ngrams(s@, n as nat),
{
    let chars: Vec<char> = chars_of(s);
    let mut all: Vec<String> = Vec::new();
    if chars.len() < n {
        assert(texts(all@) =~= Seq::empty());
        return all;
    }
    let ghost grams = Seq::new((s@.len() - n + 1) as nat, |i: int| s@.subrange(i, i + n));
    let last: usize = chars.len() - n;
    let mut i: usize = 0;
    loop
        invariant_except_break
            i <= last,
            texts(all@) == grams.take(i as int),
        invariant
            chars@ == s@,
            last + n == chars.len(),
            grams == Seq::new((s@.len() - n + 1) as nat, |i: int| s@.subrange(i, i + n)),
        ensures
            texts(all@) == grams,
        decreases last - i,
    {
        let g: String = text_of(&chars, i, i + n);
        proof {
            assert(texts(all@.push(g)) =~= texts(all@).push(g@));
            assert(grams.take(i + 1) =~= grams.take(i as int).push(grams[i as int]));
        }
        all.push(g);
        if i == last {
            assert(grams.take(i + 1) =~= grams);
            break;
        }
        i += 1;
    }
    distinct_texts(all)
}

// ---------------------------------------------------------------------------
// Normalization
// ---------------------------------------------------------------------------

/// The ASCII equivalent of a typographic quote or dash; every other
/// character is kept.
pub open spec fn plain_char(c: char) -> char {
    if c == '\u{2019}' || c == '\u{2018}' {
        '\''
    } else if c == '\u{201c}' || c == '\u{201d}' {
        '"'
    } else if c == '\u{2013}' || c == '\u{2014}' {
        '-'
    } else {
        c
    }
}

/// A text with its typographic quotes and dashes made plain.
pub open spec fn plain_punctuation(s: Seq<char>) -> Seq<char> {
    s.map_values(|c: char| plain_char(c))
}

fn replace_typographic(s: &str) -> (r: String)
    ensures
        r@ == plain_punctuation(s@),
{
    let chars: Vec<char> = chars_of(s);
    let mut r: String = String::new();
    let mut i: usize = 0;
    while i < chars.len()
        invariant
            i <= chars.len(),
            chars@ == s@,
            r@ == plain_punctuation(s@.take(i as int)),
        decreases chars.len() - i,
    {
        let c: char = chars[i];
        let p: char = if c == '\u{2019}' || c == '\u{2018}' {
            '\''
        } else if c == '\u{201c}' || c == '\u{201d}' {
            '"'
        } else if c == '\u{2013}' || c == '\u{2014}' {
            '-'
        } else {
            c
        };
        r.push(p);
        assert(r@ =~= plain_punctuation(s@.take(i + 1)));
        i += 1;
    }
    assert(s@.take(s@.len() as int) =~= s@);
    r
}

/// A text longer than `max` characters is cut down to its first fifth and
/// its end, with one space between them.
pub open spec fn shortened(text: Seq<char>, max: nat) -> Seq<char> {
    if text.len() <= max {
        text
    } else {
        let head_len = (max / 5) as int;
        let tail_len = if max > head_len + 1 { max - (head_len + 1) } else { 0 };
        text.take(head_len) + seq![' '] + text.skip(text.len() - tail_len)
    }
}

fn shorten(text: &str, max_length: usize) -> (r: String)
    ensures
        r@ == shortened(text@, max_length as nat),
{
    let chars: Vec<char> = chars_of(text);
    let n: usize = chars.len();
    if n <= max_length {
        return text.to_owned();
    }
    let head_len: usize = max_length / 5;
    let tail_len: usize = max_length.saturating_sub(head_len + 1);
    let head: String = text_of(&chars, 0, head_len);
    let tail: String = text_of(&chars, n - tail_len, n);
    let r: String = concat3(head.as_str(), " ", tail.as_str());
    proof {
        reveal_strlit(" ");
        assert(" "@ =~= seq![' ']);
        assert(r@ =~= shortened(text@, max_length as nat));
    }
    r
}

/// Words joined by single spaces.
pub open spec fn single_spaced(s: Seq<char>) -> Seq<char> {
    joined(words(s), " "@)
}

/// The normal form of a message: plain punctuation, lower case, single spaces.
pub open spec fn normal_message(raw: Seq<char>) -> Seq<char> {
    single_spaced(lowercase(plain_punctuation(raw)))
}

/// The normal form of a pattern: lower case, plain punctuation, single spaces.
pub open spec fn normal_pattern(raw: Seq<char>) -> Seq<char> {
    single_spaced(plain_punctuation(lowercase(raw)))
}

/// Words with the punctuation at their ends removed; what is then empty is dropped.
pub open spec fn stripped_words(ws: Seq<Seq<char>>) -> Seq<Seq<char>>
    decreases ws.len(),
{
    if ws.len() == 0 {
        Seq::empty()
    } else {
        let rest = stripped_words(ws.drop_last());
        let t = trimmed_punctuation(ws.last());
        if t.len() == 0 { rest } else { rest.push(t) }
    }
}

/// The tokens of a text in normal form.
pub open spec fn tokens_of(normal: Seq<char>) -> Seq<Seq<char>> {
    stripped_words(words(normal))
}

fn tokenize(normal: &str) -> (r: Vec<String>)
    ensures
        texts(r@) == tokens_of(normal@),
{
    let ws: Vec<String> = split_words(normal);
    let mut r: Vec<String> = Vec::new();
    let mut i: usize = 0;
    assert(texts(r@) =~= Seq::empty());
    while i < ws.len()
        invariant
            i <= ws.len(),
            texts(r@) == stripped_words(texts(ws@).take(i as int)),
        decreases ws.len() - i,
    {
        let ghost next = texts(ws@).take(i + 1);
        assert(next.drop_last() =~= texts(ws@).take(i as int));
        assert(next.last() == ws@[i as int]@);
        let t: String = trim_punctuation(ws[i].as_str());
        if !t.as_str().is_empty() {
            assert(texts(r@.push(t)) =~= texts(r@).push(t@));
            r.push(t);
        }
        i += 1;
    }
    assert(texts(ws@).take(ws@.len() as int) =~= texts(ws@));
    r
}

fn normalize_spaces(s: &str) -> (r: String)
    ensures
        r@ == single_spaced(s@),
{
    let ws: Vec<String> = split_words(s);
    join(&ws, " ")
}

/// Whether a character is part of a word or separates words.
pub open spec fn is_word_or_space(c: char) -> bool {
    char_is_alphanumeric(c) || c == '_' || char_is_whitespace(c)
}

/// The word characters and whitespace of `s`.
pub open spec fn word_chars(s: Seq<char>) -> Seq<char>
    decreases s.len(),
{
    if s.len() == 0 {
        Seq::empty()
    } else {
        let rest = word_chars(s.drop_last());
        if is_word_or_space(s.last()) { rest.push(s.last()) } else { rest }
    }
}

/// A text reduced to its words, without any punctuation.
pub open spec fn words_only(s: Seq<char>) -> Seq<char> {
    single_spaced(word_chars(s))
}

fn strip_non_word_chars(text: &str) -> (r: String)
    ensures
        r@ == words_only(text@),
{
    let chars: Vec<char> = chars_of(text);
    let mut out: String = String::new();
    let mut i: usize = 0;
    while i < chars.len()
        invariant
            i <= chars.len(),
            chars@ == text@,
            out@ == word_chars(text@.take(i as int)),
        decreases chars.len() - i,
    {
        let c: char = chars[i];
        let ghost next = text@.take(i + 1);
        assert(next.drop_last() =~= text@.take(i as int));
        assert(next.last() == c);
        if c.is_alphanumeric() || c == '_' || c.is_whitespace() {
            out.push(c);
        }
        i += 1;
    }
    assert(text@.take(text@.len() as int) =~= text@);
    normalize_spaces(out.as_str())
}

/// The distinct pairs of neighbouring tokens, each joined by a space.
pub open spec fn bigrams(tokens: Seq<Seq<char>>) -> Seq<Seq<char>> {
    distinct(
        Seq::new(
            (if tokens.len() == 0 { 0 } else { tokens.len() - 1 }) as nat,
            |i: int| tokens[i] + " "@ + tokens[i + 1],
        ),
    )
}

fn token_bigrams(tokens: &Vec<String>) -> (r: Vec<String>)
    ensures
        texts(r@) == bigrams(texts(tokens@)),
{
    let ghost ts = texts(tokens@);
    let ghost all = Seq::new(
        (if ts.len() == 0 { 0 } else { ts.len() - 1 }) as nat,
        |i: int| ts[i] + " "@ + ts[i + 1],
    );
    let mut pairs: Vec<String> = Vec::new();
    let n: usize = tokens.len().saturating_sub(1);
    let mut i: usize = 0;
    while i < n
        invariant
            i <= n,
            n == (if tokens@.len() == 0 { 0int } else { tokens@.len() - 1 }),
            ts == texts(tokens@),
            all == Seq::new(
                (if ts.len() == 0 { 0 } else { ts.len() - 1 }) as nat,
                |i: int| ts[i] + " "@ + ts[i + 1],
            ),
            texts(pairs@) == all.take(i as int),
        decreases n - i,
    {
        let pair: String = concat3(tokens[i].as_str(), " ", tokens[i + 1].as_str());
        assert(ts[i as int] == tokens@[i as int]@);
        assert(ts[i + 1] == tokens@[i + 1]@);
        proof {
            assert(texts(pairs@.push(pair)) =~= texts(pairs@).push(pair@));
            assert(all.take(i + 1) =~= all.take(i as int).push(all[i as int]));
        }
        pairs.push(pair);
        i += 1;
    }
    assert(all.take(n as int) =~= all);
    distinct_texts(pairs)
}

/// Whether `p` stands in `tokens` at position `i`.
pub open spec fn phrase_at(tokens: Seq<Seq<char>>, p: Seq<Seq<char>>, i: int) -> bool {
    &&& 0 <= i
    &&& i + p.len() <= tokens.len()
    &&& tokens.subrange(i, i + p.len()) == p
}

/// Whether the tokens of `p` stand consecutively somewhere in `tokens`.
pub open spec fn has_phrase(tokens: Seq<Seq<char>>, p: Seq<Seq<char>>) -> bool {
    exists|i: int| phrase_at(tokens, p, i)
}

fn find_phrase(tokens: &Vec<String>, p: &Vec<String>) -> (found: bool)
    ensures
        found == has_phrase(texts(tokens@), texts(p@)),
{
    if p.len() > tokens.len() {
        return false;
    }
    let last: usize = tokens.len() - p.len();
    let mut i: usize = 0;
    loop
        invariant
            i <= last,
            last + p.len() == tokens.len(),
            forall|j: int| 0 <= j < i ==> !phrase_at(texts(tokens@), texts(p@), j),
        decreases last - i,
    {
        let mut k: usize = 0;
        while k < p.len() && same_text(tokens[i + k].as_str(), p[k].as_str())
            invariant
                k <= p.len(),
                i + p.len() <= tokens.len(),
                forall|j: int| 0 <= j < k ==> texts(tokens@)[i + j] == texts(p@)[j],
            decreases p.len() - k,
        {
            k += 1;
        }
        if k == p.len() {
            assert(texts(tokens@).subrange(i as int, i + p@.len()) =~= texts(p@));
            assert(phrase_at(texts(tokens@), texts(p@), i as int));
            return true;
        }
        assert(!phrase_at(texts(tokens@), texts(p@), i as int)) by {
            assert(texts(tokens@).subrange(i as int, i + p@.len())[k as int] != texts(p@)[k as int]);
        }
        if i == last {
            return false;
        }
        i += 1;
    }
}

// ---------------------------------------------------------------------------
// Messages
// ---------------------------------------------------------------------------

/// Pre-processed message with normalized text and tokens for efficient matching.
#[derive(Debug)]
pub struct NormalizedMessage {
    pub raw: String,
    pub tokens: Vec<String>,
    pub token_set: Vec<String>,
    pub bigram_set: Vec<String>,
    pub char_ngram_set: Vec<String>,
    pub token_frequency: Vec<TokenCount>,
}

/// What a [`NormalizedMessage`] holds.
#[verifier::ext_equal]
pub struct MessageText {
    pub raw: Seq<char>,
    pub tokens: Seq<Seq<char>>,
    pub token_set: Seq<Seq<char>>,
    pub bigram_set: Seq<Seq<char>>,
    pub char_ngram_set: Seq<Seq<char>>,
    pub token_frequency: Seq<(Seq<char>, nat)>,
}

impl View for NormalizedMessage {
    type V = MessageText;

    open spec fn view(&self) -> MessageText {
        MessageText {
            raw: self.raw@,
            tokens: texts(self.tokens@),
            token_set: texts(self.token_set@),
            bigram_set: texts(self.bigram_set@),
            char_ngram_set: texts(self.char_ngram_set@),
            token_frequency: counts(self.token_frequency@),
        }
    }
}

/// The message made from a text of which at most `max_length` characters are kept.
pub open spec fn message_text(text: Seq<char>, max_length: nat) -> MessageText {
    let raw = shortened(text, max_length);
    let tokens = tokens_of(normal_message(raw));
    MessageText {
        raw,
        tokens,
        token_set: distinct(tokens),
        bigram_set: bigrams(tokens),
        char_ngram_set: ngrams(joined(tokens, " "@), NGRAM_SIZE as nat),
        token_frequency: frequencies(tokens),
    }
}

/// Whether the message holds words in a row; no words are in none.
pub open spec fn holds_phrase(m: MessageText, p: Seq<Seq<char>>) -> bool {
    if p.len() == 0 {
        false
    } else if p.len() == 1 {
        m.token_set.contains(p[0])
    } else {
        has_phrase(m.tokens, p)
    }
}

/// Whether the message matches the pattern: as an exact phrase, by n-gram
/// similarity, or by token cosine.
pub open spec fn pattern_matches(
    m: MessageText,
    p: PatternText,
    char_ngram_threshold: Ratio,
    token_cosine_threshold: Ratio,
) -> bool {
    ||| p.tokens.len() > 0 && has_phrase(m.tokens, p.tokens)
    ||| m.char_ngram_set.len() > 0 && p.char_ngram_set.len() > 0 && jaccard_similarity(
        m.char_ngram_set,
        p.char_ngram_set,
    ).spec_at_least(char_ngram_threshold)
    ||| m.token_frequency.len() > 0 && p.token_frequency.len() > 0 && cosine_at_least(
        cosine(m.token_frequency, p.token_frequency),
        token_cosine_threshold,
    )
}

fn clone_counts(v: &Vec<TokenCount>) -> (r: Vec<TokenCount>)
    ensures
        counts(r@) == counts(v@),
{
    let mut r: Vec<TokenCount> = Vec::new();
    let mut i: usize = 0;
    while i < v.len()
        invariant
            i <= v.len(),
            r@.len() == i,
            forall|j: int| 0 <= j < i ==> (#[trigger] r@[j]).token@ == v@[j].token@ && r@[j].count
                == v@[j].count,
        decreases v.len() - i,
    {
        r.push(v[i].clone());
        i += 1;
    }
    assert(counts(r@) =~= counts(v@));
    r
}

impl Clone for NormalizedMessage {
    fn clone(&self) -> (r: Self)
        ensures
            r@ == self@,
    {
        NormalizedMessage {
            raw: self.raw.clone(),
            tokens: clone_texts(&self.tokens),
            token_set: clone_texts(&self.token_set),
            bigram_set: clone_texts(&self.bigram_set),
            char_ngram_set: clone_texts(&self.char_ngram_set),
            token_frequency: clone_counts(&self.token_frequency),
        }
    }
}

impl Default for NormalizedMessage {
    fn default() -> (r: Self)
        ensures
            r.raw@.len() == 0,
            r.tokens@.len() == 0,
            r.token_set@.len() == 0,
            r.bigram_set@.len() == 0,
            r.char_ngram_set@.len() == 0,
            r.token_frequency@.len() == 0,
    {
        NormalizedMessage {
            raw: String::new(),
            tokens: Vec::new(),
            token_set: Vec::new(),
            bigram_set: Vec::new(),
            char_ngram_set: Vec::new(),
            token_frequency: Vec::new(),
        }
    }
}

impl NormalizedMessage {
    /// Create a normalized message from raw text, keeping the head and the
    /// tail of a text that exceeds `max_length` characters.
    pub fn from_text(text: &str, max_length: usize) -> (r: Self)
        ensures
            r@ == message_text(text@, max_length as nat),
    {
        let raw: String = shorten(text, max_length);
        let plain: String = replace_typographic(raw.as_str());
        let lower: String = plain.as_str().to_lowercase();
        let normalized: String = normalize_spaces(lower.as_str());
        let tokens: Vec<String> = tokenize(normalized.as_str());
        let token_set: Vec<String> = distinct_texts(clone_texts(&tokens));
        let bigram_set: Vec<String> = token_bigrams(&tokens);
        let tokens_text: String = join(&tokens, " ");
        let char_ngram_set: Vec<String> = char_ngrams(tokens_text.as_str(), NGRAM_SIZE);
        let token_frequency: Vec<TokenCount> = frequency_table(&tokens);
        NormalizedMessage {
            raw,
            tokens,
            token_set,
            bigram_set,
            char_ngram_set,
            token_frequency,
        }
    }

    /// Whether `token` is one of the message's tokens.
    pub fn contains_token(&self, token: &str) -> (b: bool)
        ensures
            b == self@.token_set.contains(token@),
    {
        holds_text(&self.token_set, token)
    }

    /// Whether the words of `phrase` stand consecutively in the message.
    pub fn contains_phrase(&self, phrase: &str) -> (b: bool)
        ensures
            b == holds_phrase(self@, words(phrase@)),
    {
        let phrase_tokens: Vec<String> = split_words(phrase);
        assert(texts(phrase_tokens@).len() == phrase_tokens@.len());
        if phrase_tokens.len() == 0 {
            return false;
        }
        if phrase_tokens.len() == 1 {
            return self.contains_token(phrase_tokens[0].as_str());
        }
        find_phrase(&self.tokens, &phrase_tokens)
    }

    /// Character n-gram (Jaccard) similarity vs another normalized message.
    pub fn ngram_similarity_with_message(&self, other: &NormalizedMessage) -> (r: Ratio)
        ensures
            r == jaccard_similarity(self@.char_ngram_set, other@.char_ngram_set),
    {
        jaccard(&self.char_ngram_set, &other.char_ngram_set)
    }

    /// Character n-gram (Jaccard) similarity vs a raw pattern string.
    pub fn ngram_similarity_with_pattern(&self, pattern: &str) -> (r: Ratio)
        ensures
            r == jaccard_similarity(
                self@.char_ngram_set,
                ngrams(words_only(lowercase(pattern@)), NGRAM_SIZE as nat),
            ),
    {
        let normalized: String = strip_non_word_chars(pattern.to_lowercase().as_str());
        let pattern_ngrams: Vec<String> = char_ngrams(normalized.as_str(), NGRAM_SIZE);
        jaccard(&self.char_ngram_set, &pattern_ngrams)
    }

    /// Fraction of pattern's ngrams contained in this message's ngram set.
    pub fn char_ngram_containment(&self, pattern: &str) -> (r: Ratio)
        ensures
            r == containment(
                ngrams(words_only(lowercase(pattern@)), NGRAM_SIZE as nat),
                self@.char_ngram_set,
            ),
    {
        let normalized: String = strip_non_word_chars(pattern.to_lowercase().as_str());
        let pattern_ngrams: Vec<String> = char_ngrams(normalized.as_str(), NGRAM_SIZE);
        assert(texts(pattern_ngrams@).len() == pattern_ngrams@.len());
        if pattern_ngrams.len() == 0 {
            return Ratio::new(0, 1);
        }
        let contained: usize = shared_count(&pattern_ngrams, &self.char_ngram_set);
        Ratio::new(contained as u128, pattern_ngrams.len() as u128)
    }

    /// Token-frequency cosine similarity vs a raw pattern string.
    pub fn token_cosine_similarity(&self, pattern: &str) -> (r: Cosine)
        ensures
            (r.dot@, r.norms@) == cosine(
                self@.token_frequency,
                frequencies(tokens_of(lowercase(pattern@))),
            ),
    {
        let tokens: Vec<String> = tokenize(pattern.to_lowercase().as_str());
        let pattern_freq: Vec<TokenCount> = frequency_table(&tokens);
        cosine_freq(&self.token_frequency, &pattern_freq)
    }

    /// Layered match against a pre-normalized pattern: exact phrase, then
    /// char-ngram Jaccard, then token cosine.
    pub fn matches_normalized_pattern(
        &self,
        pattern: &NormalizedPattern,
        char_ngram_threshold: Ratio,
        token_cosine_threshold: Ratio,
    ) -> (b: bool)
        ensures
            b == pattern_matches(self@, pattern@, char_ngram_threshold, token_cosine_threshold),
    {
        if pattern.tokens.len() > 0 && find_phrase(&self.tokens, &pattern.tokens) {
            return true;
        }
        if self.char_ngram_set.len() > 0 && pattern.char_ngram_set.len() > 0 {
            let sim: Ratio = jaccard(&self.char_ngram_set, &pattern.char_ngram_set);
            if sim.at_least(&char_ngram_threshold) {
                return true;
            }
        }
        if self.token_frequency.len() > 0 && pattern.token_frequency.len() > 0 {
            let sim: Cosine = cosine_freq(&self.token_frequency, &pattern.token_frequency);
            if sim.at_least(&token_cosine_threshold) {
                return true;
            }
        }
        false
    }
}

// ---------------------------------------------------------------------------
// Patterns
// ---------------------------------------------------------------------------

/// Pre-processed pattern with normalized text and pre-computed n-grams/tokens.
#[derive(Debug)]
pub struct NormalizedPattern {
    pub raw: String,
    pub tokens: Vec<String>,
    pub char_ngram_set: Vec<String>,
    pub token_frequency: Vec<TokenCount>,
}

/// What a [`NormalizedPattern`] holds.
#[verifier::ext_equal]
pub struct PatternText {
    pub raw: Seq<char>,
    pub tokens: Seq<Seq<char>>,
    pub char_ngram_set: Seq<Seq<char>>,
    pub token_frequency: Seq<(Seq<char>, nat)>,
}

impl View for NormalizedPattern {
    type V = PatternText;

    open spec fn view(&self) -> PatternText {
        PatternText {
            raw: self.raw@,
            tokens: texts(self.tokens@),
            char_ngram_set: texts(self.char_ngram_set@),
            token_frequency: counts(self.token_frequency@),
        }
    }
}

/// The pattern made from a raw pattern string.
pub open spec fn pattern_text(raw: Seq<char>) -> PatternText {
    let normal = normal_pattern(raw);
    let bare = words_only(normal);
    PatternText {
        raw,
        tokens: tokens_of(normal),
        char_ngram_set: ngrams(bare, NGRAM_SIZE as nat),
        token_frequency: frequencies(words(bare)),
    }
}

impl Clone for NormalizedPattern {
    fn clone(&self) -> (r: Self)
        ensures
            r@ == self@,
    {
        NormalizedPattern {
            raw: self.raw.clone(),
            tokens: clone_texts(&self.tokens),
            char_ngram_set: clone_texts(&self.char_ngram_set),
            token_frequency: clone_counts(&self.token_frequency),
        }
    }
}

impl Default for NormalizedPattern {
    fn default() -> (r: Self)
        ensures
            r.raw@.len() == 0,
            r.tokens@.len() == 0,
            r.char_ngram_set@.len() == 0,
            r.token_frequency@.len() == 0,
    {
        NormalizedPattern {
            raw: String::new(),
            tokens: Vec::new(),
            char_ngram_set: Vec::new(),
            token_frequency: Vec::new(),
        }
    }
}

impl NormalizedPattern {
    /// Create a normalized pattern from a raw pattern string.
    pub fn from_text(pattern: &str) -> (r: Self)
        ensures
            r@ == pattern_text(pattern@),
    {
        let lower: String = pattern.to_lowercase();
        let plain: String = replace_typographic(lower.as_str());
        let normalized: String = normalize_spaces(plain.as_str());
        let tokens: Vec<String> = tokenize(normalized.as_str());
        let bare: String = strip_non_word_chars(normalized.as_str());
        let char_ngram_set: Vec<String> = char_ngrams(bare.as_str(), NGRAM_SIZE);
        let bare_tokens: Vec<String> = split_words(bare.as_str());
        let token_frequency: Vec<TokenCount> = frequency_table(&bare_tokens);
        NormalizedPattern { raw: pattern.to_owned(), tokens, char_ngram_set, token_frequency }
    }
}

/// The patterns made from raw pattern strings, in order.
pub open spec fn pattern_texts(patterns: Seq<&str>) -> Seq<PatternText> {
    Seq::new(patterns.len(), |i: int| pattern_text(patterns[i]@))
}

/// What a vector of patterns holds.
pub open spec fn patterns_view(v: Seq<NormalizedPattern>) -> Seq<PatternText> {
    Seq::new(v.len(), |i: int| v[i]@)
}

/// Convenience: normalize a list of raw pattern strings into `NormalizedPattern`s.
pub fn normalize_patterns(patterns: &[&str]) -> (r: Vec<NormalizedPattern>)
    ensures
        patterns_view(r@) == pattern_texts(patterns@),
{
    let mut r: Vec<NormalizedPattern> = Vec::new();
    let mut i: usize = 0;
    while i < patterns.len()
        invariant
            i <= patterns.len(),
            r@.len() == i,
            forall|j: int| 0 <= j < i ==> (#[trigger] r@[j])@ == pattern_text(patterns@[j]@),
        decreases patterns.len() - i,
    {
        r.push(NormalizedPattern::from_text(patterns[i]));
        i += 1;
    }
    assert(patterns_view(r@) =~= pattern_texts(patterns@));
    r
}

/// Stripped words are words, and stripping them again changes nothing.
proof fn lemma_stripped_words(ws: Seq<Seq<char>>)
    requires
        all_words(ws),
    ensures
        all_words(stripped_words(ws)),
        stripped_words(stripped_words(ws)) == stripped_words(ws),
    decreases ws.len(),
{
    if ws.len() > 0 {
        let shorter = ws.drop_last();
        assert forall|i: int| 0 <= i < shorter.len() implies is_word(#[trigger] shorter[i]) by {
            assert(shorter[i] == ws[i]);
        }
        lemma_stripped_words(shorter);
        let rest = stripped_words(shorter);
        let w = ws[ws.len() - 1];
        let t = trimmed_punctuation(w);
        assert(is_word(w));
        lemma_trimmed(w, |c: char| is_punctuation(c));
        let (k, e) = choose|k: int, e: int|
            0 <= k <= e <= w.len() && t == #[trigger] w.subrange(k, e);
        assert forall|i: int| 0 <= i < t.len() implies !char_is_whitespace(#[trigger] t[i]) by {
            assert(t[i] == w[k + i]);
        }
        if t.len() > 0 {
            let all = rest.push(t);
            assert(all.drop_last() =~= rest);
            assert forall|i: int| 0 <= i < all.len() implies is_word(#[trigger] all[i]) by {
                if i < rest.len() {
                    assert(all[i] == rest[i]);
                }
            }
        }
    }
}

proof fn lemma_stripped_low(ws: Seq<Seq<char>>)
    requires
        all_low(ws),
    ensures
        all_low(stripped_words(ws)),
    decreases ws.len(),
{
    if ws.len() > 0 {
        let shorter = ws.drop_last();
        assert forall|i: int| 0 <= i < shorter.len() implies is_low(#[trigger] shorter[i]) by {
            assert(shorter[i] == ws[i]);
        }
        lemma_stripped_low(shorter);
        let w = ws[ws.len() - 1];
        let t = trimmed_punctuation(w);
        assert(is_low(w));
        lemma_trimmed(w, |c: char| is_punctuation(c));
        let (k, e) = choose|k: int, e: int|
            0 <= k <= e <= w.len() && t == #[trigger] w.subrange(k, e);
        assert forall|i: int| 0 <= i < t.len() implies is_low_char(#[trigger] t[i]) by {
            assert(t[i] == w[k + i]);
        }
    }
}

/// ASCII texts have plain punctuation.
proof fn lemma_ascii_is_plain(s: Seq<char>)
    requires
        is_ascii_text(s),
    ensures
        plain_punctuation(s) == s,
{
    assert forall|i: int| 0 <= i < s.len() implies #[trigger] plain_punctuation(s)[i] == s[i] by {
        assert(s[i] < '\u{80}');
    }
    assert(plain_punctuation(s) =~= s);
}

proof fn lemma_low_is_ascii(s: Seq<char>)
    requires
        is_low(s),
    ensures
        is_ascii_text(s),
{
    assert forall|i: int| 0 <= i < s.len() implies #[trigger] s[i] < '\u{80}' by {
        assert(is_low_char(s[i]));
    }
}

/// The tokens of an ASCII message, joined by spaces, are in lower case and of
/// plain punctuation.
proof fn lemma_ascii_tokens(text: Seq<char>, max_length: nat)
    requires
        is_ascii_text(text),
    ensures
        ({
            let s = joined(message_text(text, max_length).tokens, " "@);
            lowercase(plain_punctuation(s)) == s
        }),
{
    let raw = shortened(text, max_length);
    assert forall|i: int| 0 <= i < raw.len() implies #[trigger] raw[i] < '\u{80}' by {
        if text.len() > max_length {
            let head_len = (max_length / 5) as int;
            let tail_len = if max_length > head_len + 1 {
                max_length - (head_len + 1)
            } else {
                0
            };
            if i < head_len {
                assert(raw[i] == text[i]);
            } else if i > head_len {
                assert(raw[i] == text[text.len() - tail_len + i - head_len - 1]);
            }
        }
    }
    lemma_ascii_is_plain(raw);
    lemma_lowercase_is_low(raw);
    lemma_words_low(lowercase(raw));
    lemma_joined_low(words(lowercase(raw)));
    let normal = normal_message(raw);
    lemma_words_low(normal);
    lemma_stripped_low(words(normal));
    let s = joined(tokens_of(normal), " "@);
    lemma_joined_low(tokens_of(normal));
    lemma_low_is_ascii(s);
    lemma_ascii_is_plain(s);
    lemma_low_is_lowercase(s);
}

/// Normalizing what was normalized changes nothing: the tokens of a message,
/// joined by spaces, are the tokens of that text. It holds of every ASCII
/// message, and of any other whose tokens are in lower case and of plain
/// punctuation.
pub proof fn normalizing_again_changes_nothing(text: Seq<char>, max_length: nat, again: nat)
    requires
        ({
            let s = joined(message_text(text, max_length).tokens, " "@);
            s.len() <= again && (is_ascii_text(text) || lowercase(plain_punctuation(s)) == s)
        }),
    ensures
        ({
            let tokens = message_text(text, max_length).tokens;
            message_text(joined(tokens, " "@), again).tokens == tokens
        }),
{
    let normal = normal_message(shortened(text, max_length));
    let tokens = tokens_of(normal);
    if is_ascii_text(text) {
        lemma_ascii_tokens(text, max_length);
    }
    lemma_words_are_words(normal);
    lemma_stripped_words(words(normal));
    lemma_words_of_joined(tokens);
}

/// A pattern has the tokens of the message of the same text, and keeps the
/// text. It holds of every ASCII text, and of any other where lower case and
/// plain punctuation do not get in each other's way.
pub proof fn pattern_shares_tokens_with_message(text: Seq<char>, max_length: nat)
    requires
        text.len() <= max_length,
        is_ascii_text(text) || lowercase(plain_punctuation(text)) == plain_punctuation(
            lowercase(text),
        ),
    ensures
        pattern_text(text).tokens == message_text(text, max_length).tokens,
        pattern_text(text).raw == text,
{
    if is_ascii_text(text) {
        lemma_ascii_is_plain(text);
        lemma_lowercase_is_low(text);
        lemma_low_is_ascii(lowercase(text));
        lemma_ascii_is_plain(lowercase(text));
    }
}

proof fn lemma_ratio_transitive(r: Ratio, t: Ratio, u: Ratio)
    requires
        t.den > 0,
        r.spec_at_least(t),
        t.spec_at_least(u),
    ensures
        r.spec_at_least(u),
{
    let (a, b) = (r.num as int, r.den as int);
    let (c, d) = (t.num as int, t.den as int);
    let (e, f) = (u.num as int, u.den as int);
    assert(a * f >= e * b) by (nonlinear_arith)
        requires
            a * d >= c * b,
            c * f >= e * d,
            d > 0,
            a >= 0,
            b >= 0,
            c >= 0,
            e >= 0,
            f >= 0,
    {
        assert((a * d) * f >= (c * b) * f);
        assert((c * f) * b >= (e * d) * b);
        assert((a * f) * d >= (e * b) * d);
    }
}

proof fn lemma_cosine_monotone(c: (nat, nat), t: Ratio, u: Ratio)
    requires
        t.den > 0,
        cosine_at_least(c, t),
        t.spec_at_least(u),
    ensures
        cosine_at_least(c, u),
{
    let (x, n) = (c.0 as int, c.1 as int);
    let (p, d) = (t.num as int, t.den as int);
    let (e, f) = (u.num as int, u.den as int);
    let strict = (x * d) * (x * d);
    assert(strict * (f * f) >= ((p * p) * n) * (f * f)) by (nonlinear_arith)
        requires
            strict >= (p * p) * n,
            f >= 0,
    ;
    assert((p * f) * (p * f) >= (e * d) * (e * d)) by (nonlinear_arith)
        requires
            p * f >= e * d,
            e >= 0,
            d >= 0,
    ;
    assert(((p * f) * (p * f)) * n >= ((e * d) * (e * d)) * n) by (nonlinear_arith)
        requires
            (p * f) * (p * f) >= (e * d) * (e * d),
            n >= 0,
    ;
    assert(((p * p) * n) * (f * f) == ((p * f) * (p * f)) * n) by (nonlinear_arith);
    let lhs = (x * f) * (x * f);
    let rhs = (e * e) * n;
    assert(strict * (f * f) == lhs * (d * d)) by (nonlinear_arith)
        requires
            strict == (x * d) * (x * d),
            lhs == (x * f) * (x * f),
    ;
    assert(((e * d) * (e * d)) * n == rhs * (d * d)) by (nonlinear_arith)
        requires
            rhs == (e * e) * n,
    ;
    assert(lhs >= rhs) by (nonlinear_arith)
        requires
            lhs * (d * d) >= rhs * (d * d),
            d > 0,
    ;
}

/// Lower thresholds lose no match, and a message in which the tokens of a
/// pattern stand in a row matches whatever the thresholds are.
pub proof fn lower_thresholds_keep_matches(
    m: MessageText,
    p: PatternText,
    ngram: Ratio,
    cosine_threshold: Ratio,
    lower_ngram: Ratio,
    lower_cosine: Ratio,
)
    requires
        ngram.den > 0,
        cosine_threshold.den > 0,
        ngram.spec_at_least(lower_ngram),
        cosine_threshold.spec_at_least(lower_cosine),
    ensures
        pattern_matches(m, p, ngram, cosine_threshold) ==> pattern_matches(
            m,
            p,
            lower_ngram,
            lower_cosine,
        ),
        p.tokens.len() > 0 && has_phrase(m.tokens, p.tokens) ==> pattern_matches(
            m,
            p,
            ngram,
            cosine_threshold,
        ),
{
    let similarity = jaccard_similarity(m.char_ngram_set, p.char_ngram_set);
    if similarity.spec_at_least(ngram) {
        lemma_ratio_transitive(similarity, ngram, lower_ngram);
    }
    let c = cosine(m.token_frequency, p.token_frequency);
    if cosine_at_least(c, cosine_threshold) {
        lemma_cosine_monotone(c, cosine_threshold, lower_cosine);
    }
}

} // verus!
