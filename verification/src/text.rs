//! Text as sequences of characters.
//!
//! Every string in this crate is modelled by its view, a `Seq<char>`. This
//! module holds the vocabulary the other modules state their contracts in
//! (words, trimming, joining, decimal numerals, substring search) and the
//! executable functions that meet it.

use vstd::prelude::*;
use vstd::string::{StringExecFns, StringSliceAdditionalSpecFns};
use vstd::utf8::{
    decode_utf8, encode_utf8, encode_utf8_decode_utf8, encode_utf8_valid_utf8, is_char_boundary,
    is_char_boundary_iff_not_is_continuation_byte, is_char_boundary_start_end_of_seq,
};

verus! {

// ---------------------------------------------------------------------------
// Character classes and case mapping of the standard library
// ---------------------------------------------------------------------------

/// Whether a character has the Unicode property `White_Space`.
#[verifier::opaque]
pub open spec fn char_is_whitespace(c: char) -> bool {
    ||| '\u{9}' <= c <= '\u{d}'
    ||| c == ' '
    ||| c == '\u{85}'
    ||| c == '\u{a0}'
    ||| c == '\u{1680}'
    ||| '\u{2000}' <= c <= '\u{200a}'
    ||| c == '\u{2028}'
    ||| c == '\u{2029}'
    ||| c == '\u{202f}'
    ||| c == '\u{205f}'
    ||| c == '\u{3000}'
}

/// Whether `char::is_alphanumeric` holds of `c` (Unicode `Alphabetic` or a number category).
pub uninterp spec fn char_is_alphanumeric(c: char) -> bool;

/// Whether `char::is_alphabetic` holds of `c` (Unicode `Alphabetic`).
pub uninterp spec fn char_is_alphabetic(c: char) -> bool;

/// Whether `char::is_uppercase` holds of `c` (Unicode `Uppercase`).
pub uninterp spec fn char_is_uppercase(c: char) -> bool;

/// What `str::to_lowercase` makes of a text that is not all ASCII (Unicode
/// lowercase mapping).
pub uninterp spec fn unicode_lowercase(s: Seq<char>) -> Seq<char>;

/// Whether all characters of a text are ASCII.
pub open spec fn is_ascii_text(s: Seq<char>) -> bool {
    forall|i: int| 0 <= i < s.len() ==> #[trigger] s[i] < '\u{80}'
}

/// An ASCII capital letter as a small one, any other character as it is.
pub open spec fn ascii_lower(c: char) -> char {
    if 'A' <= c <= 'Z' { ((c as u8) + 32) as u8 as char } else { c }
}

/// A text with its ASCII capital letters made small.
pub open spec fn ascii_lowercase(s: Seq<char>) -> Seq<char> {
    s.map_values(|c: char| ascii_lower(c))
}

/// An ASCII small letter as a capital one, any other character as it is.
pub open spec fn ascii_upper(c: char) -> char {
    if 'a' <= c <= 'z' { ((c as u8) - 32) as u8 as char } else { c }
}

/// A text with its ASCII small letters made capital.
pub open spec fn ascii_uppercase(s: Seq<char>) -> Seq<char> {
    s.map_values(|c: char| ascii_upper(c))
}

/// A text in lower case.
#[verifier::opaque]
pub open spec fn lowercase(s: Seq<char>) -> Seq<char> {
    if is_ascii_text(s) { ascii_lowercase(s) } else { unicode_lowercase(s) }
}

/// `char::is_whitespace` tells whether a character has the property `White_Space`.
pub assume_specification[ char::is_whitespace ](c: char) -> (b: bool)
    ensures
        b == char_is_whitespace(c),
;

/// `char::is_alphanumeric` depends on the character alone; its result is named.
pub assume_specification[ char::is_alphanumeric ](c: char) -> (b: bool)
    ensures
        b == char_is_alphanumeric(c),
;

/// `char::is_alphabetic` depends on the character alone; its result is named.
pub assume_specification[ char::is_alphabetic ](c: char) -> (b: bool)
    ensures
        b == char_is_alphabetic(c),
;

/// `char::is_uppercase` depends on the character alone; its result is named.
pub assume_specification[ char::is_uppercase ](c: char) -> (b: bool)
    ensures
        b == char_is_uppercase(c),
;

/// `str::to_lowercase` makes the capital letters of an ASCII text small. Of
/// any other text it is a function of the text alone, whose result is named.
pub assume_specification[ str::to_lowercase ](s: &str) -> (lower: String)
    ensures
        lower@ == lowercase(s@),
        !is_ascii_text(s@) ==> lower@ == unicode_lowercase(s@),
;

/// `String::push` appends one character.
pub assume_specification[ String::push ](s: &mut String, c: char)
    ensures
        final(s)@ == old(s)@.push(c),
;

/// Whether two texts are the same.
pub(crate) fn same_text(a: &str, b: &str) -> (same: bool)
    ensures
        same == (a@ == b@),
{
    let x: &[u8] = a.as_bytes();
    let y: &[u8] = b.as_bytes();
    let n: usize = x.len();
    if n != y.len() {
        return false;
    }
    let mut i: usize = 0;
    while i < n
        invariant
            i <= n,
            n == x@.len(),
            n == y@.len(),
            x@ == encode_utf8(a@),
            y@ == encode_utf8(b@),
            forall|j: int| 0 <= j < i ==> x@[j] == y@[j],
        decreases n - i,
    {
        if x[i] != y[i] {
            return false;
        }
        i += 1;
    }
    proof {
        assert(x@ =~= y@);
        encode_utf8_decode_utf8(a@);
        encode_utf8_decode_utf8(b@);
    }
    true
}

// ---------------------------------------------------------------------------
// Vectors of strings
// ---------------------------------------------------------------------------

/// The texts held by a sequence of strings.
pub open spec fn texts(v: Seq<String>) -> Seq<Seq<char>> {
    Seq::new(v.len(), |i: int| v[i]@)
}

pub proof fn lemma_texts_push(v: Seq<String>, s: String)
    ensures
        texts(v.push(s)) == texts(v).push(s@),
{
    assert(texts(v.push(s)) =~= texts(v).push(s@));
}

/// Whether `needle` is one of the texts of `haystack`.
pub fn holds_text(haystack: &Vec<String>, needle: &str) -> (found: bool)
    ensures
        found == texts(haystack@).contains(needle@),
{
    let mut i: usize = 0;
    while i < haystack.len()
        invariant
            i <= haystack.len(),
            forall|j: int| 0 <= j < i ==> texts(haystack@)[j] != needle@,
        decreases haystack.len() - i,
    {
        if same_text(haystack[i].as_str(), needle) {
            assert(texts(haystack@)[i as int] == needle@);
            return true;
        }
        i += 1;
    }
    false
}

/// A copy of a vector of strings.
pub fn clone_texts(v: &Vec<String>) -> (copy: Vec<String>)
    ensures
        texts(copy@) == texts(v@),
{
    let mut copy: Vec<String> = Vec::new();
    let mut i: usize = 0;
    while i < v.len()
        invariant
            i <= v.len(),
            copy@.len() == i,
            forall|j: int| 0 <= j < i ==> (#[trigger] copy@[j])@ == v@[j]@,
        decreases v.len() - i,
    {
        copy.push(v[i].clone());
        i += 1;
    }
    assert(texts(copy@) =~= texts(v@));
    copy
}

// ---------------------------------------------------------------------------
// Characters and strings
// ---------------------------------------------------------------------------

/// The characters of a text.
pub fn chars_of(s: &str) -> (chars: Vec<char>)
    ensures
        chars@ == s@,
{
    let mut chars: Vec<char> = Vec::new();
    for c in it: s.chars()
        invariant
            it.seq() == s@,
            chars@ == s@.take(it.index() as int),
    {
        assert(c == it.seq()[it.index()]);
        chars.push(c);
        assert(chars@ =~= s@.take(it.index() + 1));
    }
    assert(chars@ =~= s@);
    chars
}

/// The text made of the characters `from..to`.
pub fn text_of(chars: &Vec<char>, from: usize, to: usize) -> (s: String)
    requires
        from <= to <= chars.len(),
    ensures
        s@ == chars@.subrange(from as int, to as int),
{
    let mut s: String = String::new();
    let mut i: usize = from;
    while i < to
        invariant
            from <= i <= to <= chars.len(),
            s@ == chars@.subrange(from as int, i as int),
        decreases to - i,
    {
        s.push(chars[i]);
        assert(s@ =~= chars@.subrange(from as int, i + 1));
        i += 1;
    }
    s
}

/// Makes the ASCII capital letters of a text small.
pub fn to_ascii_lower(s: &str) -> (r: String)
    ensures
        r@ == ascii_lowercase(s@),
{
    let chars: Vec<char> = chars_of(s);
    let mut r: String = String::new();
    let mut i: usize = 0;
    assert(r@ =~= ascii_lowercase(s@.take(0)));
    while i < chars.len()
        invariant
            i <= chars.len(),
            chars@ == s@,
            r@ == ascii_lowercase(s@.take(i as int)),
        decreases chars.len() - i,
    {
        let c: char = chars[i];
        let d: char = if 'A' <= c && c <= 'Z' { ((c as u8) + 32) as char } else { c };
        let ghost before = r@;
        r.push(d);
        assert(r@ =~= ascii_lowercase(s@.take(i + 1)));
        i += 1;
    }
    assert(s@.take(s@.len() as int) =~= s@);
    r
}

/// Lower case does not tell the cases of ASCII letters apart.
pub proof fn lemma_lowercase_of_upper(s: Seq<char>)
    requires
        is_ascii_text(s),
    ensures
        lowercase(ascii_uppercase(s)) == lowercase(s),
{
    reveal(lowercase);
    let u = ascii_uppercase(s);
    assert forall|i: int| 0 <= i < u.len() implies #[trigger] u[i] < '\u{80}' by {
        assert(s[i] < '\u{80}');
    }
    assert(ascii_lowercase(u) =~= ascii_lowercase(s));
}

/// The lower case of an ASCII text begins with that of its beginning.
pub proof fn lemma_lowercase_append(a: Seq<char>, b: Seq<char>)
    requires
        is_ascii_text(a + b),
    ensures
        is_ascii_text(a),
        lowercase(a + b) == ascii_lowercase(a) + ascii_lowercase(b),
        lowercase(a) == ascii_lowercase(a),
{
    reveal(lowercase);
    assert forall|i: int| 0 <= i < a.len() implies #[trigger] a[i] < '\u{80}' by {
        assert((a + b)[i] == a[i]);
    }
    assert(ascii_lowercase(a + b) =~= ascii_lowercase(a) + ascii_lowercase(b));
}

/// The first `n` characters of `s` (all of them when there are fewer).
pub open spec fn head(s: Seq<char>, n: nat) -> Seq<char> {
    if s.len() <= n { s } else { s.take(n as int) }
}

/// The first `n` characters of a text.
pub fn take_chars(s: &str, n: usize) -> (r: String)
    ensures
        r@ == head(s@, n as nat),
{
    let chars: Vec<char> = chars_of(s);
    let end: usize = if chars.len() <= n { chars.len() } else { n };
    let r: String = text_of(&chars, 0, end);
    assert(r@ =~= head(s@, n as nat));
    r
}

/// Two texts one after the other.
pub fn concat2(a: &str, b: &str) -> (r: String)
    ensures
        r@ == a@ + b@,
{
    let mut r: String = a.to_owned();
    r.append(b);
    r
}

/// Three texts one after the other.
pub fn concat3(a: &str, b: &str, c: &str) -> (r: String)
    ensures
        r@ == a@ + b@ + c@,
{
    let mut r: String = a.to_owned();
    r.append(b);
    r.append(c);
    r
}

// ---------------------------------------------------------------------------
// Joining
// ---------------------------------------------------------------------------

/// `parts` with `sep` between each two neighbours.
pub open spec fn joined(parts: Seq<Seq<char>>, sep: Seq<char>) -> Seq<char>
    decreases parts.len(),
{
    if parts.len() == 0 {
        Seq::empty()
    } else if parts.len() == 1 {
        parts[0]
    } else {
        joined(parts.drop_last(), sep) + sep + parts.last()
    }
}

/// Joins strings with a separator.
pub fn join(parts: &Vec<String>, sep: &str) -> (r: String)
    ensures
        r@ == joined(texts(parts@), sep@),
{
    let mut r: String = String::new();
    let mut i: usize = 0;
    while i < parts.len()
        invariant
            i <= parts.len(),
            r@ == joined(texts(parts@).take(i as int), sep@),
        decreases parts.len() - i,
    {
        if i > 0 {
            r.append(sep);
        }
        r.append(parts[i].as_str());
        proof {
            let next = texts(parts@).take(i + 1);
            assert(next.drop_last() =~= texts(parts@).take(i as int));
            assert(next.last() == parts@[i as int]@);
            if i == 0 {
                assert(r@ =~= parts@[0]@);
            }
        }
        i += 1;
    }
    assert(texts(parts@).take(parts@.len() as int) =~= texts(parts@));
    r
}

// ---------------------------------------------------------------------------
// Words
// ---------------------------------------------------------------------------

/// The words completed so far and the word still open, after reading `s`
/// from the left; a word is a maximal run of characters that are not
/// whitespace.
pub open spec fn word_state(s: Seq<char>) -> (Seq<Seq<char>>, Seq<char>)
    decreases s.len(),
{
    if s.len() == 0 {
        (Seq::empty(), Seq::empty())
    } else {
        let (done, open) = word_state(s.drop_last());
        if !char_is_whitespace(s.last()) {
            (done, open.push(s.last()))
        } else if open.len() > 0 {
            (done.push(open), Seq::empty())
        } else {
            (done, open)
        }
    }
}

/// The whitespace-separated words of a text, in order.
pub open spec fn words(s: Seq<char>) -> Seq<Seq<char>> {
    let (done, open) = word_state(s);
    if open.len() > 0 { done.push(open) } else { done }
}

/// Splits a text at whitespace, dropping empty pieces.
pub fn split_words(s: &str) -> (r: Vec<String>)
    ensures
        texts(r@) == words(s@),
{
    let chars: Vec<char> = chars_of(s);
    let mut done: Vec<String> = Vec::new();
    let mut open: String = String::new();
    let mut open_len: usize = 0;
    let mut i: usize = 0;
    assert(texts(done@) =~= Seq::empty());
    while i < chars.len()
        invariant
            i <= chars.len(),
            chars@ == s@,
            (texts(done@), open@) == word_state(s@.take(i as int)),
            open_len == open@.len(),
            open_len <= i,
        decreases chars.len() - i,
    {
        let ghost next = s@.take(i + 1);
        assert(next.drop_last() =~= s@.take(i as int));
        assert(next.last() == s@[i as int]);
        if !chars[i].is_whitespace() {
            open.push(chars[i]);
            open_len += 1;
        } else if open_len > 0 {
            proof {
                lemma_texts_push(done@, open);
            }
            done.push(open);
            open = String::new();
            open_len = 0;
        }
        i += 1;
    }
    assert(s@.take(s@.len() as int) =~= s@);
    if open_len > 0 {
        proof {
            lemma_texts_push(done@, open);
        }
        done.push(open);
    }
    done
}

/// Whether a text is not empty and holds no whitespace.
pub open spec fn is_word(w: Seq<char>) -> bool {
    w.len() > 0 && forall|i: int| 0 <= i < w.len() ==> !char_is_whitespace(#[trigger] w[i])
}

/// Whether all of the texts are words.
pub open spec fn all_words(ws: Seq<Seq<char>>) -> bool {
    forall|i: int| 0 <= i < ws.len() ==> is_word(#[trigger] ws[i])
}

proof fn lemma_word_state(s: Seq<char>)
    ensures
        all_words(word_state(s).0),
        word_state(s).1.len() > 0 ==> is_word(word_state(s).1),
    decreases s.len(),
{
    if s.len() > 0 {
        lemma_word_state(s.drop_last());
    }
}

/// What a text is split into are words.
pub proof fn lemma_words_are_words(s: Seq<char>)
    ensures
        all_words(words(s)),
{
    lemma_word_state(s);
}

proof fn lemma_word_state_append(a: Seq<char>, w: Seq<char>)
    requires
        forall|i: int| 0 <= i < w.len() ==> !char_is_whitespace(#[trigger] w[i]),
    ensures
        word_state(a + w) == (word_state(a).0, word_state(a).1 + w),
    decreases w.len(),
{
    if w.len() == 0 {
        assert(a + w =~= a);
        assert(word_state(a).1 + w =~= word_state(a).1);
    } else {
        let short = w.drop_last();
        assert forall|i: int| 0 <= i < short.len() implies !char_is_whitespace(#[trigger] short[i]) by {
            assert(short[i] == w[i]);
        }
        lemma_word_state_append(a, short);
        assert((a + w).drop_last() =~= a + short);
        assert((a + w).last() == w[w.len() - 1]);
        assert((word_state(a).1 + short).push(w.last()) =~= word_state(a).1 + w);
    }
}

proof fn lemma_word_state_joined(ws: Seq<Seq<char>>)
    requires
        ws.len() > 0,
        all_words(ws),
    ensures
        word_state(joined(ws, " "@)) == (ws.drop_last(), ws.last()),
    decreases ws.len(),
{
    reveal_strlit(" ");
    let last = ws[ws.len() - 1];
    assert(is_word(last));
    if ws.len() == 1 {
        lemma_word_state_append(Seq::empty(), last);
        assert(Seq::<char>::empty() + last =~= last);
        assert(ws.drop_last() =~= Seq::empty());
    } else {
        let before = ws.drop_last();
        assert forall|i: int| 0 <= i < before.len() implies is_word(#[trigger] before[i]) by {
            assert(before[i] == ws[i]);
        }
        lemma_word_state_joined(before);
        let text = joined(before, " "@);
        let spaced = text + " "@;
        assert(spaced.drop_last() =~= text);
        assert(spaced.last() == ' ');
        assert(char_is_whitespace(' ')) by {
            reveal(char_is_whitespace);
        }
        assert(is_word(before[before.len() - 1]));
        assert(before.drop_last().push(before.last()) =~= before);
        assert(word_state(spaced) == (before, Seq::<char>::empty()));
        lemma_word_state_append(spaced, last);
        assert(Seq::<char>::empty() + last =~= last);
    }
}

/// Words joined by single spaces are split into the same words again.
pub proof fn lemma_words_of_joined(ws: Seq<Seq<char>>)
    requires
        all_words(ws),
    ensures
        words(joined(ws, " "@)) == ws,
{
    if ws.len() > 0 {
        lemma_word_state_joined(ws);
        assert(is_word(ws[ws.len() - 1]));
        assert(ws.drop_last().push(ws.last()) =~= ws);
    } else {
        assert(words(joined(ws, " "@)) =~= ws);
    }
}

// ---------------------------------------------------------------------------
// Trimming
// ---------------------------------------------------------------------------

/// `s` without its leading characters that satisfy `p`.
pub open spec fn trim_start(s: Seq<char>, p: spec_fn(char) -> bool) -> Seq<char>
    decreases s.len(),
{
    if s.len() > 0 && p(s[0]) { trim_start(s.skip(1), p) } else { s }
}

/// `s` without its trailing characters that satisfy `p`.
pub open spec fn trim_end(s: Seq<char>, p: spec_fn(char) -> bool) -> Seq<char>
    decreases s.len(),
{
    if s.len() > 0 && p(s.last()) { trim_end(s.drop_last(), p) } else { s }
}

/// `s` without the characters at its two ends that satisfy `p`.
pub open spec fn trimmed(s: Seq<char>, p: spec_fn(char) -> bool) -> Seq<char> {
    trim_end(trim_start(s, p), p)
}

/// The ASCII punctuation characters.
pub open spec fn is_punctuation(c: char) -> bool {
    ||| '!' <= c <= '/'
    ||| ':' <= c <= '@'
    ||| '[' <= c <= '`'
    ||| '{' <= c <= '~'
}

/// `s` without whitespace at its two ends.
pub open spec fn trimmed_space(s: Seq<char>) -> Seq<char> {
    trimmed(s, |c: char| char_is_whitespace(c))
}

/// `s` without ASCII punctuation at its two ends.
pub open spec fn trimmed_punctuation(s: Seq<char>) -> Seq<char> {
    trimmed(s, |c: char| is_punctuation(c))
}

/// Whether all characters of a text are ASCII and none is a capital letter.
pub open spec fn is_low(s: Seq<char>) -> bool {
    forall|i: int| 0 <= i < s.len() ==> is_low_char(#[trigger] s[i])
}

/// Whether a character is ASCII and no capital letter.
pub open spec fn is_low_char(c: char) -> bool {
    c < '\u{80}' && !('A' <= c <= 'Z')
}

/// Whether all of the texts are ASCII without capital letters.
pub open spec fn all_low(ws: Seq<Seq<char>>) -> bool {
    forall|i: int| 0 <= i < ws.len() ==> is_low(#[trigger] ws[i])
}

/// The lower case of an ASCII text has no capital letters.
pub proof fn lemma_lowercase_is_low(s: Seq<char>)
    requires
        is_ascii_text(s),
    ensures
        is_low(lowercase(s)),
{
    reveal(lowercase);
    assert forall|i: int| 0 <= i < lowercase(s).len() implies is_low_char(
        #[trigger] lowercase(s)[i],
    ) by {
        assert(s[i] < '\u{80}');
    }
}

/// A text without capital letters is its own lower case.
pub proof fn lemma_low_is_lowercase(s: Seq<char>)
    requires
        is_low(s),
    ensures
        lowercase(s) == s,
{
    reveal(lowercase);
    assert forall|i: int| 0 <= i < s.len() implies #[trigger] s[i] < '\u{80}' by {
        assert(is_low_char(s[i]));
    }
    assert forall|i: int| 0 <= i < s.len() implies #[trigger] ascii_lowercase(s)[i] == s[i] by {
        assert(is_low_char(s[i]));
    }
    assert(ascii_lowercase(s) =~= s);
}

proof fn lemma_word_state_low(s: Seq<char>)
    requires
        is_low(s),
    ensures
        all_low(word_state(s).0),
        is_low(word_state(s).1),
    decreases s.len(),
{
    if s.len() > 0 {
        let cut = s.drop_last();
        assert forall|i: int| 0 <= i < cut.len() implies is_low_char(#[trigger] cut[i]) by {
            assert(cut[i] == s[i]);
        }
        lemma_word_state_low(cut);
        assert(is_low_char(s[s.len() - 1]));
    }
}

/// The words of a text without capital letters have none.
pub proof fn lemma_words_low(s: Seq<char>)
    requires
        is_low(s),
    ensures
        all_low(words(s)),
{
    lemma_word_state_low(s);
}

/// Texts without capital letters, joined by spaces, are one without.
pub proof fn lemma_joined_low(ws: Seq<Seq<char>>)
    requires
        all_low(ws),
    ensures
        is_low(joined(ws, " "@)),
    decreases ws.len(),
{
    reveal_strlit(" ");
    if ws.len() == 1 {
        assert(is_low(ws[0]));
    } else if ws.len() > 1 {
        let before = ws.drop_last();
        assert forall|i: int| 0 <= i < before.len() implies is_low(#[trigger] before[i]) by {
            assert(before[i] == ws[i]);
        }
        lemma_joined_low(before);
        let a = joined(before, " "@);
        let last = ws[ws.len() - 1];
        assert(is_low(last));
        let r = a + " "@ + last;
        assert forall|i: int| 0 <= i < r.len() implies is_low_char(#[trigger] r[i]) by {
            if i < a.len() {
                assert(r[i] == a[i]);
            } else if i == a.len() {
                assert(r[i] == ' ');
            } else {
                assert(r[i] == last[i - a.len() - 1]);
            }
        }
    }
}

proof fn lemma_trim_start(s: Seq<char>, p: spec_fn(char) -> bool)
    ensures
        ({
            let r = trim_start(s, p);
            &&& r.len() <= s.len()
            &&& r == s.skip(s.len() - r.len())
            &&& r.len() > 0 ==> !p(r[0])
        }),
    decreases s.len(),
{
    if s.len() > 0 && p(s[0]) {
        lemma_trim_start(s.skip(1), p);
        let r = trim_start(s.skip(1), p);
        assert(s.skip(1).skip(s.len() - 1 - r.len()) =~= s.skip(s.len() - r.len()));
    } else {
        assert(s.skip(0) =~= s);
    }
}

proof fn lemma_trim_end(s: Seq<char>, p: spec_fn(char) -> bool)
    ensures
        ({
            let r = trim_end(s, p);
            &&& r.len() <= s.len()
            &&& r == s.take(r.len() as int)
            &&& r.len() > 0 ==> !p(r.last())
        }),
    decreases s.len(),
{
    if s.len() > 0 && p(s.last()) {
        lemma_trim_end(s.drop_last(), p);
        let r = trim_end(s.drop_last(), p);
        assert(s.drop_last().take(r.len() as int) =~= s.take(r.len() as int));
    } else {
        assert(s.take(s.len() as int) =~= s);
    }
}

/// A trimmed text is a part of the text, and trimming it again changes nothing.
pub proof fn lemma_trimmed(s: Seq<char>, p: spec_fn(char) -> bool)
    ensures
        ({
            let r = trimmed(s, p);
            &&& trimmed(r, p) == r
            &&& exists|k: int, e: int| 0 <= k <= e <= s.len() && r == #[trigger] s.subrange(k, e)
        }),
{
    let a = trim_start(s, p);
    let r = trim_end(a, p);
    lemma_trim_start(s, p);
    lemma_trim_end(a, p);
    let k = s.len() - a.len();
    let e = k + r.len();
    assert(r =~= s.subrange(k, e));
    if r.len() > 0 {
        assert(r[0] == a[0]);
    }
    assert(trim_start(r, p) == r);
    assert(trim_end(r, p) == r);
}

/// Which characters a trim removes.
#[derive(Clone, Copy, PartialEq, Eq, Structural)]
enum Trim {
    Space,
    Punctuation,
}

impl Trim {
    spec fn removes(self) -> spec_fn(char) -> bool {
        match self {
            Trim::Space => |c: char| char_is_whitespace(c),
            Trim::Punctuation => |c: char| is_punctuation(c),
        }
    }

    fn test(&self, c: char) -> (b: bool)
        ensures
            b == (self.removes())(c),
    {
        match self {
            Trim::Space => c.is_whitespace(),
            Trim::Punctuation => ('!' <= c && c <= '/') || (':' <= c && c <= '@') || ('[' <= c && c
                <= '`') || ('{' <= c && c <= '~'),
        }
    }

    fn apply(&self, s: &str) -> (r: String)
        ensures
            r@ == trimmed(s@, self.removes()),
    {
        let chars: Vec<char> = chars_of(s);
        let ghost p = self.removes();
        let mut lo: usize = 0;
        assert(s@.skip(0) =~= s@);
        while lo < chars.len() && self.test(chars[lo])
            invariant
                lo <= chars.len(),
                chars@ == s@,
                p == self.removes(),
                trim_start(s@, p) == trim_start(s@.skip(lo as int), p),
            decreases chars.len() - lo,
        {
            assert(s@.skip(lo as int).skip(1) =~= s@.skip(lo + 1));
            lo += 1;
        }
        let mut hi: usize = chars.len();
        assert(s@.subrange(lo as int, hi as int) =~= s@.skip(lo as int));
        while hi > lo && self.test(chars[hi - 1])
            invariant
                lo <= hi <= chars.len(),
                chars@ == s@,
                p == self.removes(),
                trimmed(s@, p) == trim_end(s@.subrange(lo as int, hi as int), p),
            decreases hi,
        {
            assert(s@.subrange(lo as int, hi as int).drop_last() =~= s@.subrange(
                lo as int,
                hi - 1,
            ));
            hi -= 1;
        }
        text_of(&chars, lo, hi)
    }
}

/// Removes whitespace at the two ends.
pub fn trim_space(s: &str) -> (r: String)
    ensures
        r@ == trimmed_space(s@),
{
    Trim::Space.apply(s)
}

/// Removes ASCII punctuation at the two ends.
pub fn trim_punctuation(s: &str) -> (r: String)
    ensures
        r@ == trimmed_punctuation(s@),
{
    Trim::Punctuation.apply(s)
}

// ---------------------------------------------------------------------------
// Substrings
// ---------------------------------------------------------------------------

/// Whether `p` stands in `s` at position `i`.
pub open spec fn stands_at(s: Seq<char>, p: Seq<char>, i: int) -> bool {
    &&& 0 <= i
    &&& i + p.len() <= s.len()
    &&& s.subrange(i, i + p.len()) == p
}

/// Whether `s` begins with `p`.
pub open spec fn begins_with(s: Seq<char>, p: Seq<char>) -> bool {
    stands_at(s, p, 0)
}

/// Whether `p` occurs somewhere in `s`.
pub open spec fn occurs_in(s: Seq<char>, p: Seq<char>) -> bool {
    exists|i: int| stands_at(s, p, i)
}

fn chars_stand_at(s: &Vec<char>, p: &Vec<char>, i: usize) -> (b: bool)
    requires
        i <= s.len(),
    ensures
        b == stands_at(s@, p@, i as int),
{
    if p.len() > s.len() - i {
        return false;
    }
    let mut k: usize = 0;
    while k < p.len()
        invariant
            k <= p.len(),
            i + p.len() <= s.len(),
            forall|j: int| 0 <= j < k ==> s@[i + j] == p@[j],
        decreases p.len() - k,
    {
        if s[i + k] != p[k] {
            assert(s@.subrange(i as int, i + p@.len())[k as int] != p@[k as int]);
            return false;
        }
        k += 1;
    }
    assert(s@.subrange(i as int, i + p@.len()) =~= p@);
    true
}

/// Tests for a prefix.
pub fn starts_with(s: &str, p: &str) -> (b: bool)
    ensures
        b == begins_with(s@, p@),
{
    let sc: Vec<char> = chars_of(s);
    let pc: Vec<char> = chars_of(p);
    chars_stand_at(&sc, &pc, 0)
}

/// Tests for a substring.
pub fn contains(s: &str, p: &str) -> (b: bool)
    ensures
        b == occurs_in(s@, p@),
{
    let sc: Vec<char> = chars_of(s);
    let pc: Vec<char> = chars_of(p);
    let mut i: usize = 0;
    loop
        invariant
            i <= sc.len(),
            sc@ == s@,
            pc@ == p@,
            forall|j: int| 0 <= j < i ==> !stands_at(s@, p@, j),
        decreases sc.len() - i,
    {
        if chars_stand_at(&sc, &pc, i) {
            return true;
        }
        if i == sc.len() {
            return false;
        }
        i += 1;
    }
}

/// The position of the first `c` in `s`.
pub open spec fn first_index(s: Seq<char>, c: char) -> Option<int>
    decreases s.len(),
{
    if s.len() == 0 {
        None
    } else if s[0] == c {
        Some(0)
    } else {
        match first_index(s.skip(1), c) {
            Some(i) => Some(i + 1),
            None => None,
        }
    }
}

/// The position is that of the character, and no earlier one is; there is none
/// exactly where the character does not occur.
pub proof fn lemma_first_index(s: Seq<char>, c: char)
    ensures
        match first_index(s, c) {
            Some(k) => 0 <= k < s.len() && s[k] == c && forall|j: int|
                0 <= j < k ==> #[trigger] s[j] != c,
            None => forall|j: int| 0 <= j < s.len() ==> #[trigger] s[j] != c,
        },
    decreases s.len(),
{
    if s.len() > 0 && s[0] != c {
        let rest = s.skip(1);
        lemma_first_index(rest, c);
        match first_index(rest, c) {
            Some(k) => {
                assert(rest[k] == s[k + 1]);
                assert forall|j: int| 0 <= j < k + 1 implies #[trigger] s[j] != c by {
                    if j > 0 {
                        assert(rest[j - 1] == s[j]);
                    }
                }
            },
            None => {
                assert forall|j: int| 0 <= j < s.len() implies #[trigger] s[j] != c by {
                    if j > 0 {
                        assert(rest[j - 1] == s[j]);
                    }
                }
            },
        }
    }
}

/// Finds the first occurrence of a character.
pub fn find_char(chars: &Vec<char>, c: char) -> (r: Option<usize>)
    ensures
        match r {
            Some(i) => first_index(chars@, c) == Some(i as int) && i < chars.len() && chars@[i as int]
                == c && forall|j: int| 0 <= j < i ==> chars@[j] != c,
            None => first_index(chars@, c) is None && !chars@.contains(c),
        },
{
    let mut i: usize = 0;
    assert(chars@.skip(0) =~= chars@);
    while i < chars.len()
        invariant
            i <= chars.len(),
            forall|j: int| 0 <= j < i ==> chars@[j] != c,
            first_index(chars@, c) == (match first_index(chars@.skip(i as int), c) {
                Some(k) => Some(k + i),
                None => None::<int>,
            }),
        decreases chars.len() - i,
    {
        if chars[i] == c {
            return Some(i);
        }
        assert(chars@.skip(i as int).skip(1) =~= chars@.skip(i + 1));
        i += 1;
    }
    None
}

// ---------------------------------------------------------------------------
// Decimal numerals
// ---------------------------------------------------------------------------

/// The character of the decimal digit `d`.
pub open spec fn digit(d: int) -> char {
    if d == 0 {
        '0'
    } else if d == 1 {
        '1'
    } else if d == 2 {
        '2'
    } else if d == 3 {
        '3'
    } else if d == 4 {
        '4'
    } else if d == 5 {
        '5'
    } else if d == 6 {
        '6'
    } else if d == 7 {
        '7'
    } else if d == 8 {
        '8'
    } else {
        '9'
    }
}

/// The decimal numeral of `n`, without leading zeros.
pub open spec fn numeral(n: nat) -> Seq<char>
    decreases n,
{
    if n < 10 {
        seq![digit(n as int)]
    } else {
        numeral(n / 10).push(digit((n % 10) as int))
    }
}

fn digit_char(d: u128) -> (c: char)
    requires
        d < 10,
    ensures
        c == digit(d as int),
{
    match d {
        0 => '0',
        1 => '1',
        2 => '2',
        3 => '3',
        4 => '4',
        5 => '5',
        6 => '6',
        7 => '7',
        8 => '8',
        _ => '9',
    }
}

/// Writes a number in decimal.
pub fn to_decimal(n: u128) -> (s: String)
    ensures
        s@ == numeral(n as nat),
    decreases n,
{
    if n < 10 {
        let mut s: String = String::new();
        s.push(digit_char(n));
        assert(s@ =~= numeral(n as nat));
        s
    } else {
        let mut s: String = to_decimal(n / 10);
        s.push(digit_char(n % 10));
        s
    }
}

/// The character of the hexadecimal digit `d`.
pub open spec fn hex_digit(d: int) -> char {
    if d < 10 {
        digit(d)
    } else if d == 10 {
        'a'
    } else if d == 11 {
        'b'
    } else if d == 12 {
        'c'
    } else if d == 13 {
        'd'
    } else if d == 14 {
        'e'
    } else {
        'f'
    }
}

/// The last `width` hexadecimal digits of `n`, most significant first.
pub open spec fn hex_digits(n: nat, width: nat) -> Seq<char>
    decreases width,
{
    if width == 0 {
        Seq::empty()
    } else {
        hex_digits(n / 16, (width - 1) as nat).push(hex_digit((n % 16) as int))
    }
}

/// Writes the last `width` hexadecimal digits of a number.
pub fn to_hex(n: u64, width: usize) -> (s: String)
    ensures
        s@ == hex_digits(n as nat, width as nat),
    decreases width,
{
    if width == 0 {
        let s: String = String::new();
        assert(s@ =~= hex_digits(n as nat, 0));
        s
    } else {
        let mut s: String = to_hex(n / 16, width - 1);
        let d: u64 = n % 16;
        let c: char = match d {
            10 => 'a',
            11 => 'b',
            12 => 'c',
            13 => 'd',
            14 => 'e',
            15 => 'f',
            _ => digit_char(d as u128),
        };
        s.push(c);
        s
    }
}

/// `num / den` times `scale`, rounded to the nearest integer, a tie to the even one.
pub open spec fn rounded(num: nat, den: nat, scale: nat) -> nat {
    let q = num * scale / den;
    let r = num * scale % den;
    if 2 * r > den || (2 * r == den && q % 2 == 1) { q + 1 } else { q }
}

/// Ten to the power of `places`, for one, two or three places.
pub open spec fn scale_of(places: nat) -> nat {
    if places == 1 {
        10
    } else if places == 2 {
        100
    } else {
        1000
    }
}

/// The zeros that go before `fraction` to fill the places.
pub open spec fn padding(fraction: nat, places: nat) -> Seq<char> {
    if places == 3 && fraction < 10 {
        "00"@
    } else if (places == 3 && fraction < 100) || (places == 2 && fraction < 10) {
        "0"@
    } else {
        Seq::empty()
    }
}

/// `num / den` in decimal with one, two or three places, rounded.
pub open spec fn rounded_text(num: nat, den: nat, places: nat) -> Seq<char> {
    let scale = scale_of(places);
    let n = rounded(num, den, scale);
    numeral(n / scale) + "."@ + padding(n % scale, places) + numeral(n % scale)
}

proof fn lemma_rounded(num: nat, den: nat, scale: nat, whole: nat, q: nat, r: nat)
    requires
        den > 0,
        num == whole * den + num % den,
        whole == num / den,
        scale * (num % den) == q * den + r,
        r < den,
    ensures
        num * scale / den == whole * scale + q,
        num * scale % den == r,
{
    let rest = num % den;
    assert(num * scale == den * (whole * scale + q) + r) by (nonlinear_arith)
        requires
            num == whole * den + rest,
            scale * rest == q * den + r,
    ;
    vstd::arithmetic::div_mod::lemma_fundamental_div_mod_converse(
        (num * scale) as int,
        den as int,
        (whole * scale + q) as int,
        r as int,
    );
}

proof fn lemma_carried(whole: nat, fraction: nat, scale: nat)
    requires
        scale > 0,
        fraction <= scale,
    ensures
        fraction < scale ==> (whole * scale + fraction) / scale == whole && (whole * scale
            + fraction) % scale == fraction,
        fraction == scale ==> (whole * scale + fraction) / scale == whole + 1 && (whole * scale
            + fraction) % scale == 0,
{
    assert(whole * scale == scale * whole) by (nonlinear_arith);
    if fraction < scale {
        vstd::arithmetic::div_mod::lemma_fundamental_div_mod_converse(
            (whole * scale + fraction) as int,
            scale as int,
            whole as int,
            fraction as int,
        );
    } else {
        assert(whole * scale + scale == scale * (whole + 1)) by (nonlinear_arith);
        vstd::arithmetic::div_mod::lemma_fundamental_div_mod_converse(
            (whole * scale + fraction) as int,
            scale as int,
            (whole + 1) as int,
            0,
        );
    }
}

/// How often `den` fits into `rest` taken `scale` times, and what is left.
fn divide_scaled(rest: u128, den: u128, scale: u128) -> (r: (u128, u128))
    requires
        rest < den,
    ensures
        scale * rest == r.0 * den + r.1,
        r.1 < den,
        r.0 <= scale,
        r.0 < scale || rest == 0 || scale == 0,
{
    let mut fits: u128 = 0;
    let mut left: u128 = 0;
    let mut i: u128 = 0;
    assert(0 * rest == 0 * den + 0) by (nonlinear_arith);
    while i < scale
        invariant
            i <= scale,
            rest < den,
            left < den,
            fits <= i,
            i * rest == fits * den + left,
        decreases scale - i,
    {
        proof {
            assert((i + 1) * rest == i * rest + rest) by (nonlinear_arith);
            assert((fits + 1) * den == fits * den + den) by (nonlinear_arith);
        }
        if left >= den - rest {
            left = left - (den - rest);
            fits = fits + 1;
        } else {
            left = left + rest;
        }
        i += 1;
    }
    proof {
        if fits == scale && rest > 0 && scale > 0 {
            assert(scale * rest < scale * den) by (nonlinear_arith)
                requires
                    rest < den,
                    scale > 0,
            ;
            assert(false);
        }
    }
    (fits, left)
}

/// Writes a fraction in decimal with one, two or three places, rounded.
pub fn fixed_point(num: u128, den: u128, places: u8) -> (s: String)
    requires
        den > 0,
        1 <= places <= 3,
    ensures
        s@ == rounded_text(num as nat, den as nat, places as nat),
{
    let scale: u128 = if places == 1 {
        10
    } else if places == 2 {
        100
    } else {
        1000
    };
    let mut whole: u128 = num / den;
    let rest: u128 = num % den;
    let (q, r) = divide_scaled(rest, den, scale);
    let up: bool = r > den - r || (r == den - r && q % 2 == 1);
    let mut fraction: u128 = if up { q + 1 } else { q };
    proof {
        vstd::arithmetic::div_mod::lemma_fundamental_div_mod(num as int, den as int);
        assert(whole * den == den * whole) by (nonlinear_arith);
        lemma_rounded(num as nat, den as nat, scale as nat, whole as nat, q as nat, r as nat);
        assert((whole * scale + q) % 2 == q as int % 2) by (nonlinear_arith)
            requires
                scale == 10 || scale == 100 || scale == 1000,
                whole >= 0,
                q >= 0,
        ;
        lemma_carried(whole as nat, fraction as nat, scale as nat);
    }
    let ghost n = rounded(num as nat, den as nat, scale as nat);
    assert(n == whole * scale + fraction);
    if fraction == scale {
        proof {
            assert(rest > 0);
            assert(whole < u128::MAX) by (nonlinear_arith)
                requires
                    whole * den + rest == num,
                    rest > 0,
                    rest < den,
                    num <= u128::MAX,
                    whole >= 0,
            ;
        }
        whole = whole + 1;
        fraction = 0;
    }
    assert(n / (scale as nat) == whole && n % (scale as nat) == fraction);
    let mut s: String = to_decimal(whole);
    s.append(".");
    if places == 3 && fraction < 10 {
        s.append("00");
    } else if (places == 3 && fraction < 100) || (places == 2 && fraction < 10) {
        s.append("0");
    }
    s.append(to_decimal(fraction).as_str());
    assert(s@ =~= rounded_text(num as nat, den as nat, places as nat));
    s
}

// ---------------------------------------------------------------------------
// Byte offsets
// ---------------------------------------------------------------------------

/// The number of bytes of a text in UTF-8.
pub open spec fn byte_len(s: Seq<char>) -> nat {
    encode_utf8(s).len()
}

/// Whether byte offset `i` of a text lies between two characters or at an end.
pub open spec fn on_boundary(s: Seq<char>, i: int) -> bool {
    is_char_boundary(encode_utf8(s), i)
}

/// The text in the bytes `from..to`.
pub open spec fn byte_slice(s: Seq<char>, from: int, to: int) -> Seq<char> {
    decode_utf8(encode_utf8(s).subrange(from, to))
}

/// The number of bytes of a text.
pub fn bytes_in(s: &str) -> (n: usize)
    ensures
        n == byte_len(s@),
{
    s.as_bytes().len()
}

/// The text in the bytes `from..to`.
pub fn slice_bytes(s: &str, from: usize, to: usize) -> (r: String)
    requires
        from <= to <= byte_len(s@),
        on_boundary(s@, from as int),
        on_boundary(s@, to as int),
    ensures
        r@ == byte_slice(s@, from as int, to as int),
{
    let ghost bytes = encode_utf8(s@);
    let (_, tail) = s.split_at(from);
    let ghost rest = tail.spec_bytes();
    proof {
        encode_utf8_valid_utf8(s@);
        encode_utf8_valid_utf8(tail@);
        assert(rest == bytes.subrange(from as int, bytes.len() as int));
        if to < bytes.len() {
            is_char_boundary_iff_not_is_continuation_byte(bytes, to as int);
            is_char_boundary_iff_not_is_continuation_byte(rest, to - from);
        } else {
            is_char_boundary_start_end_of_seq(rest);
        }
    }
    let (head, _) = tail.split_at(to - from);
    proof {
        assert(head.spec_bytes() =~= bytes.subrange(from as int, to as int));
        encode_utf8_decode_utf8(head@);
    }
    head.to_owned()
}

/// The nearest boundary at or before byte offset `i`.
pub open spec fn boundary_before(s: Seq<char>, i: int) -> int
    decreases i,
{
    if i >= byte_len(s) {
        byte_len(s) as int
    } else if i <= 0 || on_boundary(s, i) {
        i
    } else {
        boundary_before(s, i - 1)
    }
}

/// The nearest boundary at or after byte offset `i`.
pub open spec fn boundary_after(s: Seq<char>, i: int) -> int
    decreases byte_len(s) - i,
{
    if i >= byte_len(s) {
        byte_len(s) as int
    } else if on_boundary(s, i) {
        i
    } else {
        boundary_after(s, i + 1)
    }
}

/// Moves a byte offset to the nearest boundary before it, or after it.
pub fn align_char_boundary(s: &str, idx: usize, forward: bool) -> (r: usize)
    ensures
        r == if forward { boundary_after(s@, idx as int) } else { boundary_before(s@, idx as int) },
        r <= byte_len(s@),
        on_boundary(s@, r as int),
        forward && idx <= byte_len(s@) ==> r >= idx,
        !forward && idx <= byte_len(s@) ==> r <= idx,
{
    let n: usize = bytes_in(s);
    proof {
        encode_utf8_valid_utf8(s@);
        is_char_boundary_start_end_of_seq(encode_utf8(s@));
    }
    if idx >= n {
        return n;
    }
    let mut i: usize = idx;
    while !s.is_char_boundary(i)
        invariant
            n == byte_len(s@),
            i < n,
            forward ==> i >= idx && boundary_after(s@, idx as int) == boundary_after(s@, i as int),
            !forward ==> i <= idx && boundary_before(s@, idx as int) == boundary_before(
                s@,
                i as int,
            ),
            on_boundary(s@, 0),
            on_boundary(s@, n as int),
        ensures
            i < n,
            on_boundary(s@, i as int),
            forward ==> i >= idx && boundary_after(s@, idx as int) == boundary_after(s@, i as int),
            !forward ==> i <= idx && boundary_before(s@, idx as int) == boundary_before(
                s@,
                i as int,
            ),
        decreases if forward { n - i } else { i as int },
    {
        if forward {
            assert(boundary_after(s@, i as int) == boundary_after(s@, i + 1));
            i += 1;
            if i >= n {
                return n;
            }
        } else {
            i -= 1;
        }
    }
    i
}

// ---------------------------------------------------------------------------
// Fields
// ---------------------------------------------------------------------------

/// The texts between the separators in `s`, the empty ones included.
pub open spec fn fields(s: Seq<char>, sep: char) -> Seq<Seq<char>>
    decreases s.len(),
{
    if s.len() == 0 {
        seq![Seq::empty()]
    } else {
        let rest = fields(s.drop_last(), sep);
        if s.last() == sep {
            rest.push(Seq::empty())
        } else {
            rest.drop_last().push(rest.last().push(s.last()))
        }
    }
}

/// Splits a text at every separator.
pub fn split_at_char(s: &str, sep: char) -> (r: Vec<String>)
    ensures
        texts(r@) == fields(s@, sep),
        r@.len() > 0,
{
    let chars: Vec<char> = chars_of(s);
    let mut done: Vec<String> = Vec::new();
    let mut last: String = String::new();
    let mut i: usize = 0;
    assert(last@ =~= Seq::empty());
    assert(texts(done@).push(last@) =~= fields(chars@.take(0), sep));
    while i < chars.len()
        invariant
            i <= chars@.len(),
            texts(done@).push(last@) == fields(chars@.take(i as int), sep),
        decreases chars.len() - i,
    {
        let ghost before = texts(done@).push(last@);
        proof {
            let cut = chars@.take(i + 1);
            assert(cut.last() == chars@[i as int]);
            assert(cut.drop_last() =~= chars@.take(i as int));
            assert(before.drop_last() =~= texts(done@));
            assert(before.last() == last@);
        }
        if chars[i] == sep {
            let ghost ended = last@;
            let ghost held = done@;
            done.push(last);
            last = String::new();
            assert(last@ =~= Seq::empty());
            assert(texts(done@) =~= texts(held).push(ended));
        } else {
            last.push(chars[i]);
        }
        i += 1;
    }
    assert(chars@.take(i as int) =~= chars@);
    let ghost held = done@;
    let ghost ended = last@;
    done.push(last);
    assert(texts(done@) =~= texts(held).push(ended));
    done
}

// ---------------------------------------------------------------------------
// Prefixes
// ---------------------------------------------------------------------------

proof fn lemma_encode_concat(a: Seq<char>, b: Seq<char>)
    ensures
        encode_utf8(a + b) == encode_utf8(a) + encode_utf8(b),
    decreases a.len(),
{
    if a.len() == 0 {
        assert(a + b =~= b);
        assert(encode_utf8(a) + encode_utf8(b) =~= encode_utf8(b));
    } else {
        lemma_encode_concat(a.drop_first(), b);
        assert((a + b).drop_first() =~= a.drop_first() + b);
        assert(encode_utf8(a + b) =~= encode_utf8(a) + encode_utf8(b));
    }
}

/// `s` without `prefix`, if it begins with it.
pub open spec fn without(s: Seq<char>, prefix: Seq<char>) -> Option<Seq<char>> {
    if begins_with(s, prefix) { Some(s.skip(prefix.len() as int)) } else { None }
}

/// Removes a prefix, if the text begins with it.
pub fn strip<'a>(s: &'a str, prefix: &str) -> (r: Option<&'a str>)
    ensures
        match r {
            Some(t) => without(s@, prefix@) == Some(t@),
            None => without(s@, prefix@) is None,
        },
{
    if !starts_with(s, prefix) {
        return None;
    }
    let n: usize = bytes_in(prefix);
    let ghost rest = s@.skip(prefix@.len() as int);
    let ghost bytes = encode_utf8(s@);
    proof {
        assert(s@ =~= prefix@ + rest);
        lemma_encode_concat(prefix@, rest);
        encode_utf8_valid_utf8(s@);
        encode_utf8_valid_utf8(rest);
        is_char_boundary_start_end_of_seq(bytes);
        is_char_boundary_start_end_of_seq(encode_utf8(rest));
        if n < bytes.len() {
            assert(bytes[n as int] == encode_utf8(rest)[0]);
            is_char_boundary_iff_not_is_continuation_byte(encode_utf8(rest), 0);
            is_char_boundary_iff_not_is_continuation_byte(bytes, n as int);
        }
    }
    let (_, tail) = s.split_at(n);
    proof {
        assert(tail.spec_bytes() =~= encode_utf8(rest));
        encode_utf8_decode_utf8(tail@);
        encode_utf8_decode_utf8(rest);
    }
    Some(tail)
}

/// What stands before and behind a separator that does not occur before it
/// can be told from the whole.
pub proof fn lemma_split_unique(a: Seq<char>, x: Seq<char>, b: Seq<char>, y: Seq<char>, sep: char)
    requires
        !a.contains(sep),
        !b.contains(sep),
        a.push(sep) + x == b.push(sep) + y,
    ensures
        a == b,
        x == y,
{
    let l = a.push(sep) + x;
    let r = b.push(sep) + y;
    assert(l[a.len() as int] == sep);
    assert(r[b.len() as int] == sep);
    if a.len() < b.len() {
        assert(r[a.len() as int] == b[a.len() as int]);
    }
    if b.len() < a.len() {
        assert(l[b.len() as int] == a[b.len() as int]);
    }
    assert forall|i: int| 0 <= i < a.len() implies a[i] == b[i] by {
        assert(l[i] == a[i]);
        assert(r[i] == b[i]);
    }
    assert(a =~= b);
    assert(l.len() == r.len());
    assert forall|i: int| 0 <= i < x.len() implies x[i] == y[i] by {
        assert(l[a.len() + 1 + i] == x[i]);
        assert(r[a.len() + 1 + i] == y[i]);
    }
    assert(x =~= y);
}

proof fn lemma_fields_append(a: Seq<char>, w: Seq<char>, sep: char)
    requires
        forall|i: int| 0 <= i < w.len() ==> #[trigger] w[i] != sep,
    ensures
        fields(a, sep).len() > 0,
        fields(a + w, sep) == fields(a, sep).drop_last().push(fields(a, sep).last() + w),
    decreases w.len(),
{
    lemma_fields_some(a, sep);
    if w.len() == 0 {
        assert(a + w =~= a);
        assert(fields(a, sep).last() + w =~= fields(a, sep).last());
        assert(fields(a, sep).drop_last().push(fields(a, sep).last()) =~= fields(a, sep));
    } else {
        let short = w.drop_last();
        assert forall|i: int| 0 <= i < short.len() implies #[trigger] short[i] != sep by {
            assert(short[i] == w[i]);
        }
        lemma_fields_append(a, short, sep);
        assert((a + w).drop_last() =~= a + short);
        assert((a + w).last() == w[w.len() - 1]);
        let before = fields(a + short, sep);
        assert(before.drop_last() =~= fields(a, sep).drop_last());
        assert((fields(a, sep).last() + short).push(w.last()) =~= fields(a, sep).last() + w);
    }
}

proof fn lemma_fields_some(a: Seq<char>, sep: char)
    ensures
        fields(a, sep).len() > 0,
    decreases a.len(),
{
    if a.len() > 0 {
        lemma_fields_some(a.drop_last(), sep);
    }
}

/// Texts without separators, joined by them, are split into the same texts again.
pub proof fn lemma_fields_of_joined(parts: Seq<Seq<char>>, sep: char)
    requires
        parts.len() > 0,
        forall|i: int| 0 <= i < parts.len() ==> !(#[trigger] parts[i]).contains(sep),
    ensures
        fields(joined(parts, seq![sep]), sep) == parts,
    decreases parts.len(),
{
    let last = parts[parts.len() - 1];
    assert forall|i: int| 0 <= i < last.len() implies #[trigger] last[i] != sep by {
        if last[i] == sep {
            assert(last.contains(sep));
        }
    }
    if parts.len() == 1 {
        let none = Seq::<char>::empty();
        lemma_fields_append(none, last, sep);
        assert(none + last =~= last);
        assert(fields(last, sep) =~= parts);
    } else {
        let before = parts.drop_last();
        assert forall|i: int| 0 <= i < before.len() implies !(#[trigger] before[i]).contains(
            sep,
        ) by {
            assert(before[i] == parts[i]);
        }
        lemma_fields_of_joined(before, sep);
        let text = joined(before, seq![sep]);
        let opened = text + seq![sep];
        assert(opened.drop_last() =~= text);
        assert(opened.last() == sep);
        lemma_fields_append(opened, last, sep);
        assert(Seq::<char>::empty() + last =~= last);
        assert(fields(opened + last, sep) =~= parts);
    }
}

/// Whether a text is made of whitespace alone.
pub open spec fn is_blank(s: Seq<char>) -> bool {
    forall|i: int| 0 <= i < s.len() ==> char_is_whitespace(#[trigger] s[i])
}

/// Whether a text neither begins nor ends with whitespace.
pub open spec fn is_trim(s: Seq<char>) -> bool {
    s.len() > 0 ==> !char_is_whitespace(s[0]) && !char_is_whitespace(s.last())
}

proof fn lemma_trim_start_blank(l: Seq<char>, rest: Seq<char>, p: spec_fn(char) -> bool)
    requires
        forall|i: int| 0 <= i < l.len() ==> p(#[trigger] l[i]),
    ensures
        trim_start(l + rest, p) == trim_start(rest, p),
    decreases l.len(),
{
    if l.len() == 0 {
        assert(l + rest =~= rest);
    } else {
        let short = l.skip(1);
        assert forall|i: int| 0 <= i < short.len() implies p(#[trigger] short[i]) by {
            assert(short[i] == l[i + 1]);
        }
        lemma_trim_start_blank(short, rest, p);
        assert((l + rest)[0] == l[0]);
        assert(p(l[0]));
        assert((l + rest).skip(1) =~= short + rest);
    }
}

proof fn lemma_trim_end_blank(rest: Seq<char>, r: Seq<char>, p: spec_fn(char) -> bool)
    requires
        forall|i: int| 0 <= i < r.len() ==> p(#[trigger] r[i]),
    ensures
        trim_end(rest + r, p) == trim_end(rest, p),
    decreases r.len(),
{
    if r.len() == 0 {
        assert(rest + r =~= rest);
    } else {
        let short = r.drop_last();
        assert forall|i: int| 0 <= i < short.len() implies p(#[trigger] short[i]) by {
            assert(short[i] == r[i]);
        }
        lemma_trim_end_blank(rest, short, p);
        assert((rest + r).last() == r[r.len() - 1]);
        assert(p(r[r.len() - 1]));
        assert((rest + r).drop_last() =~= rest + short);
    }
}

/// Space around a text is trimmed off, and nothing else.
pub proof fn lemma_trimmed_padding(l: Seq<char>, core: Seq<char>, r: Seq<char>)
    requires
        is_blank(l),
        is_blank(r),
        is_trim(core),
    ensures
        trimmed_space(l + core + r) == core,
{
    let p = |c: char| char_is_whitespace(c);
    assert(l + core + r =~= l + (core + r));
    lemma_trim_start_blank(l, core + r, p);
    if core.len() > 0 {
        assert((core + r)[0] == core[0]);
        assert(trim_start(core + r, p) == core + r);
        lemma_trim_end_blank(core, r, p);
        assert(trim_end(core, p) == core);
    } else {
        assert(core + r =~= r + core);
        lemma_trim_start_blank(r, core, p);
        assert(trim_start(core, p) == core);
        assert(trim_end(core, p) == core);
    }
}

} // verus!
