//! What it means that two texts are alike.

use crate::natural::Ratio;
use crate::signals::text_processing::{
    bigrams, containment, cosine, cosine_at_least, count_of, distinct, dot_product, frequencies,
    has_phrase, holds_phrase, jaccard_similarity, lemma_shared_bound, message_text, ngrams,
    normal_pattern, occurrences, pattern_text, phrase_at, plain_punctuation, shared, shortened,
    square_sum, words_only,
};
use crate::text::joined;
use vstd::prelude::*;

verus! {

/// Whether nothing stands in a sequence twice.
pub open spec fn no_repeats(s: Seq<Seq<char>>) -> bool {
    forall|i: int, j: int| 0 <= i < j < s.len() ==> #[trigger] s[i] != #[trigger] s[j]
}

proof fn lemma_distinct(s: Seq<Seq<char>>, x: Seq<char>)
    ensures
        no_repeats(distinct(s)),
        distinct(s).contains(x) == s.contains(x),
    decreases s.len(),
{
    if s.len() > 0 {
        let short = s.drop_last();
        lemma_distinct(short, x);
        let d = distinct(short);
        assert(s[s.len() - 1] == s.last());
        if short.contains(x) {
            let k = choose|k: int| 0 <= k < short.len() && short[k] == x;
            assert(s[k] == x);
        }
        if s.contains(x) && x != s.last() {
            let k = choose|k: int| 0 <= k < s.len() && s[k] == x;
            assert(short[k] == x);
        }
        if !d.contains(s.last()) {
            let r = d.push(s.last());
            assert forall|i: int, j: int| 0 <= i < j < r.len() implies #[trigger] r[i]
                != #[trigger] r[j] by {
                assert(r[i] == d[i]);
                if j < d.len() {
                    assert(r[j] == d[j]);
                } else {
                    assert(d.contains(d[i]));
                }
            }
            if d.contains(x) {
                let k = choose|k: int| 0 <= k < d.len() && d[k] == x;
                assert(r[k] == x);
            }
            if x == s.last() {
                assert(r[d.len() as int] == x);
            }
            if r.contains(x) && x != s.last() {
                let k = choose|k: int| 0 <= k < r.len() && r[k] == x;
                assert(d[k] == x);
            }
        }
    } else {
        assert(distinct(s) =~= Seq::empty());
    }
}

/// Removing what repeats keeps everything once.
pub proof fn distinct_keeps_everything_once(s: Seq<Seq<char>>, x: Seq<char>)
    ensures
        no_repeats(distinct(s)),
        distinct(s).contains(x) == s.contains(x),
{
    lemma_distinct(s, x);
}

proof fn lemma_shared_all(a: Seq<Seq<char>>, b: Seq<Seq<char>>)
    requires
        forall|i: int| 0 <= i < a.len() ==> b.contains(#[trigger] a[i]),
    ensures
        shared(a, b) == a.len(),
    decreases a.len(),
{
    if a.len() > 0 {
        let short = a.drop_last();
        assert forall|i: int| 0 <= i < short.len() implies b.contains(#[trigger] short[i]) by {
            assert(short[i] == a[i]);
        }
        lemma_shared_all(short, b);
        assert(a.last() == a[a.len() - 1]);
    }
}

proof fn lemma_shared_none(a: Seq<Seq<char>>, b: Seq<Seq<char>>)
    requires
        forall|i: int| 0 <= i < a.len() ==> !b.contains(#[trigger] a[i]),
    ensures
        shared(a, b) == 0,
    decreases a.len(),
{
    if a.len() > 0 {
        let short = a.drop_last();
        assert forall|i: int| 0 <= i < short.len() implies !b.contains(#[trigger] short[i]) by {
            assert(short[i] == a[i]);
        }
        lemma_shared_none(short, b);
        assert(a.last() == a[a.len() - 1]);
    }
}

/// Equal sets are alike in full, sets without a common element not at all,
/// and a set is like one that holds all of it as far as their sizes go.
pub proof fn overlap_goes_from_nothing_to_all(a: Seq<Seq<char>>, b: Seq<Seq<char>>)
    requires
        0 < a.len() <= u64::MAX,
        0 < b.len() <= u64::MAX,
    ensures
        jaccard_similarity(a, a).num == jaccard_similarity(a, a).den,
        (forall|i: int| 0 <= i < a.len() ==> !b.contains(#[trigger] a[i])) ==> jaccard_similarity(
            a,
            b,
        ).num == 0,
        (forall|i: int| 0 <= i < a.len() ==> b.contains(#[trigger] a[i])) && a.len() <= b.len()
            ==> jaccard_similarity(a, b) == (Ratio { num: a.len() as u128, den: b.len() as u128 }),
{
    assert forall|i: int| 0 <= i < a.len() implies a.contains(#[trigger] a[i]) by {}
    lemma_shared_all(a, a);
    if forall|i: int| 0 <= i < a.len() ==> !b.contains(#[trigger] a[i]) {
        lemma_shared_none(a, b);
    }
    if forall|i: int| 0 <= i < a.len() ==> b.contains(#[trigger] a[i]) {
        lemma_shared_all(a, b);
    }
}

/// A pattern all of whose parts a set holds is contained in full, one with no
/// part in it not at all, and each part counts the same.
pub proof fn containment_goes_from_nothing_to_all(
    parts: Seq<Seq<char>>,
    part: Seq<char>,
    held: Seq<Seq<char>>,
)
    requires
        0 < parts.len() < u64::MAX,
    ensures
        (forall|i: int| 0 <= i < parts.len() ==> held.contains(#[trigger] parts[i]))
            ==> containment(parts, held).num == containment(parts, held).den,
        (forall|i: int| 0 <= i < parts.len() ==> !held.contains(#[trigger] parts[i]))
            ==> containment(parts, held).num == 0,
        containment(parts.push(part), held).den == containment(parts, held).den + 1,
        containment(parts.push(part), held).num == containment(parts, held).num + (
        if held.contains(part) {
            1int
        } else {
            0
        }),
{
    if forall|i: int| 0 <= i < parts.len() ==> held.contains(#[trigger] parts[i]) {
        lemma_shared_all(parts, held);
    }
    if forall|i: int| 0 <= i < parts.len() ==> !held.contains(#[trigger] parts[i]) {
        lemma_shared_none(parts, held);
    }
    lemma_shared_bound(parts, held);
    lemma_shared_bound(parts.push(part), held);
    assert(parts.push(part).drop_last() =~= parts);
}

/// Typographic quotes and dashes read as the plain ones; nothing else changes.
pub proof fn typographic_marks_are_made_plain(s: Seq<char>, i: int)
    requires
        0 <= i < s.len(),
    ensures
        plain_punctuation(s).len() == s.len(),
        s[i] == '\u{2018}' || s[i] == '\u{2019}' ==> plain_punctuation(s)[i] == '\'',
        s[i] == '\u{201c}' || s[i] == '\u{201d}' ==> plain_punctuation(s)[i] == '"',
        s[i] == '\u{2013}' || s[i] == '\u{2014}' ==> plain_punctuation(s)[i] == '-',
        (s[i] as u32) < 0x2013 ==> plain_punctuation(s)[i] == s[i],
{
}

/// A table counts how often each word occurs, and holds no word twice.
pub proof fn words_are_counted(s: Seq<Seq<char>>, w: Seq<char>, x: Seq<char>)
    ensures
        occurrences(s.push(w), x) == occurrences(s, x) + (if w == x { 1int } else { 0 }),
        occurrences(Seq::empty(), x) == 0,
        forall|i: int|
            0 <= i < frequencies(s).len() ==> s.contains((#[trigger] frequencies(s)[i]).0)
                && frequencies(s)[i].1 == occurrences(s, frequencies(s)[i].0),
        s.contains(x) ==> exists|i: int|
            0 <= i < frequencies(s).len() && (#[trigger] frequencies(s)[i]).0 == x,
{
    assert(s.push(w).drop_last() =~= s);
    let d = distinct(s);
    let f = frequencies(s);
    assert forall|i: int| 0 <= i < f.len() implies s.contains((#[trigger] f[i]).0) by {
        lemma_distinct(s, d[i]);
        assert(d.contains(d[i]));
    }
    if s.contains(x) {
        lemma_distinct(s, x);
        let k = choose|k: int| 0 <= k < d.len() && d[k] == x;
        assert(f[k].0 == x);
    }
}

proof fn lemma_dot_none(a: Seq<(Seq<char>, nat)>, b: Seq<(Seq<char>, nat)>)
    requires
        forall|i: int| 0 <= i < b.len() ==> count_of(a, (#[trigger] b[i]).0) == 0,
    ensures
        dot_product(a, b) == 0,
    decreases b.len(),
{
    if b.len() > 0 {
        let short = b.drop_last();
        assert forall|i: int| 0 <= i < short.len() implies count_of(a, (#[trigger] short[i]).0)
            == 0 by {
            assert(short[i] == b[i]);
        }
        lemma_dot_none(a, short);
        assert(b.last() == b[b.len() - 1]);
        let n = b.last().1;
        assert(0 * n == 0) by (nonlinear_arith);
    }
}

proof fn lemma_dot_self(a: Seq<(Seq<char>, nat)>, b: Seq<(Seq<char>, nat)>)
    requires
        forall|i: int| 0 <= i < b.len() ==> count_of(a, (#[trigger] b[i]).0) == b[i].1,
    ensures
        dot_product(a, b) == square_sum(b),
    decreases b.len(),
{
    if b.len() > 0 {
        let short = b.drop_last();
        assert forall|i: int| 0 <= i < short.len() implies count_of(a, (#[trigger] short[i]).0)
            == short[i].1 by {
            assert(short[i] == b[i]);
        }
        lemma_dot_self(a, short);
        assert(b.last() == b[b.len() - 1]);
    }
}

proof fn lemma_count_own(a: Seq<(Seq<char>, nat)>, i: int)
    requires
        0 <= i < a.len(),
        forall|k: int, j: int| 0 <= k < j < a.len() ==> (#[trigger] a[k]).0 != (#[trigger] a[j]).0,
    ensures
        count_of(a, a[i].0) == a[i].1,
    decreases a.len(),
{
    if i > 0 {
        let rest = a.skip(1);
        assert(a[0].0 != a[i].0);
        assert forall|k: int, j: int| 0 <= k < j < rest.len() implies (#[trigger] rest[k]).0 != (
        #[trigger] rest[j]).0 by {
            assert(rest[k] == a[k + 1]);
            assert(rest[j] == a[j + 1]);
        }
        assert(rest[i - 1] == a[i]);
        lemma_count_own(rest, i - 1);
    }
}

/// A table is as like to itself as can be, and a table is not at all like one
/// whose words it does not have.
pub proof fn cosine_goes_from_nothing_to_all(
    a: Seq<(Seq<char>, nat)>,
    b: Seq<(Seq<char>, nat)>,
    t: Ratio,
)
    requires
        a.len() > 0,
        b.len() > 0,
        forall|k: int, j: int| 0 <= k < j < a.len() ==> (#[trigger] a[k]).0 != (#[trigger] a[j]).0,
    ensures
        square_sum(a) > 0 ==> {
            let c = cosine(a, a);
            c.0 * c.0 == c.1 && c.0 > 0
        },
        (forall|i: int| 0 <= i < b.len() ==> count_of(a, (#[trigger] b[i]).0) == 0) ==> cosine(
            a,
            b,
        ).0 == 0,
        square_sum(a) > 0 && 0 < t.num <= t.den ==> cosine_at_least(cosine(a, a), t),
{
    assert forall|i: int| 0 <= i < a.len() implies count_of(a, (#[trigger] a[i]).0) == a[i].1 by {
        lemma_count_own(a, i);
    }
    lemma_dot_self(a, a);
    if forall|i: int| 0 <= i < b.len() ==> count_of(a, (#[trigger] b[i]).0) == 0 {
        lemma_dot_none(a, b);
    }
    if square_sum(a) > 0 && 0 < t.num <= t.den {
        let s = square_sum(a) as int;
        let n = t.num as int;
        let d = t.den as int;
        assert((s * d) * (s * d) >= (n * n) * (s * s)) by (nonlinear_arith)
            requires
                s > 0,
                0 < n <= d,
        ;
    }
}

/// The parts that texts are compared by are all runs of three characters in
/// it, each once: of a message those of its tokens, of a phrase those of its
/// words.
pub proof fn texts_are_compared_by_three_characters(text: Seq<char>, max_length: nat, i: int)
    ensures
        ({
            let m = message_text(text, max_length);
            let s = joined(m.tokens, " "@);
            &&& no_repeats(m.char_ngram_set)
            &&& 0 <= i && i + 3 <= s.len() ==> m.char_ngram_set.contains(s.subrange(i, i + 3))
            &&& s.len() < 3 ==> m.char_ngram_set.len() == 0
            &&& 0 <= i < m.char_ngram_set.len() ==> m.char_ngram_set[i].len() == 3
        }),
        ({
            let p = pattern_text(text);
            0 <= i < p.char_ngram_set.len() ==> p.char_ngram_set[i].len() == 3
        }),
{
    let m = message_text(text, max_length);
    lemma_ngrams(joined(m.tokens, " "@), i);
    let p = pattern_text(text);
    let normal = normal_pattern(text);
    lemma_ngrams(words_only(normal), i);
}

proof fn lemma_ngrams(s: Seq<char>, i: int)
    ensures
        no_repeats(ngrams(s, 3)),
        0 <= i && i + 3 <= s.len() ==> ngrams(s, 3).contains(s.subrange(i, i + 3)),
        s.len() < 3 ==> ngrams(s, 3).len() == 0,
        0 <= i < ngrams(s, 3).len() ==> ngrams(s, 3)[i].len() == 3,
{
    if s.len() >= 3 {
        let all = Seq::new((s.len() - 3 + 1) as nat, |k: int| s.subrange(k, k + 3));
        lemma_distinct(all, s);
        if 0 <= i && i + 3 <= s.len() {
            assert(all[i] == s.subrange(i, i + 3));
            assert(all.contains(all[i]));
            lemma_distinct(all, all[i]);
        }
        if 0 <= i < ngrams(s, 3).len() {
            let g = distinct(all)[i];
            lemma_distinct(all, g);
            assert(distinct(all).contains(g));
            let k = choose|k: int| 0 <= k < all.len() && all[k] == g;
        }
    }
}

/// A text that is too long keeps a fifth of what fits from its beginning and
/// the rest from its end, with a space between; one that fits is kept whole.
pub proof fn long_texts_keep_head_and_tail(text: Seq<char>, max: nat)
    ensures
        text.len() <= max ==> shortened(text, max) == text,
        text.len() > max && max >= 2 ==> {
            let s = shortened(text, max);
            let h = (max / 5) as int;
            &&& s.len() == max
            &&& s.take(h) == text.take(h)
            &&& s[h] == ' '
            &&& s.skip(h + 1) == text.skip(text.len() - (max - h - 1))
        },
{
    if text.len() > max && max >= 2 {
        let s = shortened(text, max);
        let h = (max / 5) as int;
        assert(s.take(h) =~= text.take(h));
        assert(s.skip(h + 1) =~= text.skip(text.len() - (max - h - 1)));
    }
}

/// A phrase is said where its words stand in a row in the message, whatever
/// stands before and behind.
pub proof fn phrase_is_said_anywhere(
    before: Seq<Seq<char>>,
    phrase: Seq<Seq<char>>,
    after: Seq<Seq<char>>,
)
    ensures
        has_phrase(before + phrase + after, phrase),
        phrase.len() > before.len() ==> !has_phrase(before, phrase),
{
    let all = before + phrase + after;
    assert(all.subrange(before.len() as int, (before.len() + phrase.len()) as int) =~= phrase);
    assert(phrase_at(all, phrase, before.len() as int));
}

/// Pairs of neighbouring words are held with a space between them.
pub proof fn neighbours_are_paired(tokens: Seq<Seq<char>>, i: int)
    requires
        0 <= i,
        i + 1 < tokens.len(),
    ensures
        bigrams(tokens).contains(tokens[i] + " "@ + tokens[i + 1]),
{
    let all = Seq::new(
        (if tokens.len() == 0 { 0 } else { tokens.len() - 1 }) as nat,
        |k: int| tokens[k] + " "@ + tokens[k + 1],
    );
    assert(all[i] == tokens[i] + " "@ + tokens[i + 1]);
    assert(all.contains(all[i]));
    lemma_distinct(all, all[i]);
}

/// Two empty sets are alike in full, and so are two empty tables; an empty one
/// is not at all like one that is not.
pub proof fn empty_is_like_empty(a: Seq<Seq<char>>, t: Seq<(Seq<char>, nat)>)
    requires
        a.len() > 0,
        t.len() > 0,
    ensures
        jaccard_similarity(Seq::empty(), Seq::empty()) == (Ratio { num: 1, den: 1 }),
        jaccard_similarity(a, Seq::empty()).num == 0,
        jaccard_similarity(Seq::empty(), a).num == 0,
        containment(Seq::empty(), a) == (Ratio { num: 0, den: 1 }),
        cosine(Seq::empty(), Seq::empty()) == (1nat, 1nat),
        cosine(t, Seq::empty()).0 == 0,
        cosine(Seq::empty(), t).0 == 0,
{
}

/// A message holds a phrase exactly where the words of the phrase stand in a
/// row among its tokens; a phrase without words is in no message.
pub proof fn message_holds_its_words(
    text: Seq<char>,
    max_length: nat,
    before: Seq<Seq<char>>,
    phrase: Seq<Seq<char>>,
    after: Seq<Seq<char>>,
)
    ensures
        ({
            let m = message_text(text, max_length);
            &&& !holds_phrase(m, Seq::empty())
            &&& phrase.len() > 0 && m.tokens == before + phrase + after ==> holds_phrase(m, phrase)
            &&& phrase.len() == 1 && holds_phrase(m, phrase) ==> m.tokens.contains(phrase[0])
            &&& phrase.len() > m.tokens.len() && phrase.len() > 1 ==> !holds_phrase(m, phrase)
        }),
{
    let m = message_text(text, max_length);
    if phrase.len() > 0 && m.tokens == before + phrase + after {
        phrase_is_said_anywhere(before, phrase, after);
        if phrase.len() == 1 {
            assert(m.tokens[before.len() as int] == phrase[0]);
            lemma_distinct(m.tokens, phrase[0]);
        }
    }
    if phrase.len() == 1 {
        lemma_distinct(m.tokens, phrase[0]);
    }
}

} // verus!
