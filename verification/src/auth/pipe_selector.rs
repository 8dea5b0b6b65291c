//! Which of a project's keys serves a model.

use crate::auth::token_resolver::{AuthContext, PipeInfo};
use crate::text::{
    ascii_uppercase, begins_with, chars_of, concat3, fields, find_char, first_index,
    is_ascii_text, lemma_lowercase_append, lemma_lowercase_of_upper, lowercase, same_text,
    split_at_char, starts_with, text_of, texts, trim_space, trimmed_space,
};
use vstd::prelude::*;
use vstd::string::StringExecFns;

verus! {

/// A pipe selected for a specific model request.
#[derive(Debug)]
pub struct SelectedPipe {
    pub pipe_id: u128,
    pub provider: String,
    pub api_key_decrypted: String,
    pub model: String,
}

#[derive(Debug)]
pub enum PipeSelectionError {
    NoPipeFound { provider: String, model: String },
}

impl PipeSelectionError {
    /// The error in words.
    pub open spec fn text(&self) -> Seq<char> {
        match *self {
            PipeSelectionError::NoPipeFound { provider, model } => "no pipe found for provider '"@
                + provider@ + "' model '"@ + model@ + "'"@,
        }
    }

    /// The error in words.
    pub fn message(&self) -> (r: String)
        ensures
            r@ == self.text(),
    {
        match self {
            PipeSelectionError::NoPipeFound { provider, model } => {
                let mut r: String = concat3(
                    "no pipe found for provider '",
                    provider.as_str(),
                    "' model '",
                );
                r.append(model.as_str());
                r.append("'");
                r
            },
        }
    }
}

pub const OPENAI_PREFIXES: [&'static str; 9] = [
    "gpt-",
    "o1",
    "o3",
    "o4",
    "chatgpt",
    "dall-e",
    "text-embedding",
    "whisper",
    "tts",
];

pub const GOOGLE_PREFIXES: [&'static str; 2] = ["gemini", "gemma"];

pub const MISTRAL_PREFIXES: [&'static str; 5] = [
    "mistral",
    "mixtral",
    "ministral",
    "codestral",
    "pixtral",
];

pub const META_PREFIXES: [&'static str; 2] = ["llama", "meta-llama"];

pub const DEEPSEEK_PREFIXES: [&'static str; 1] = ["deepseek"];

pub const COHERE_PREFIXES: [&'static str; 3] = ["command", "embed-", "rerank-"];

/// Whether a text begins with one of the prefixes.
pub open spec fn begins_with_any(s: Seq<char>, prefixes: Seq<&'static str>) -> bool {
    exists|i: int| 0 <= i < prefixes.len() && begins_with(s, (#[trigger] prefixes[i])@)
}

fn starts_with_any(s: &str, prefixes: &[&'static str]) -> (b: bool)
    ensures
        b == begins_with_any(s@, prefixes@),
{
    let n: usize = prefixes.len();
    let mut i: usize = 0;
    while i < n
        invariant
            i <= n,
            n == prefixes@.len(),
            forall|j: int| 0 <= j < i ==> !begins_with(s@, (#[trigger] prefixes@[j])@),
        decreases n - i,
    {
        if starts_with(s, prefixes[i]) {
            assert(begins_with(s@, prefixes@[i as int]@));
            return true;
        }
        i += 1;
    }
    false
}

/// Whether a text begins with a family name; no text does with an empty one.
pub open spec fn of_family(m: Seq<char>, family: Seq<char>) -> bool {
    family.len() > 0 && begins_with(m, family)
}

/// The provider of a model by its well-known name, in lower case.
/// `anthropic` is the family name of Anthropic's models.
pub open spec fn provider_of(m: Seq<char>, anthropic: Seq<char>) -> Option<Seq<char>> {
    if begins_with_any(m, OPENAI_PREFIXES@) {
        Some("openai"@)
    } else if of_family(m, anthropic) {
        Some("anthropic"@)
    } else if begins_with_any(m, GOOGLE_PREFIXES@) {
        Some("google"@)
    } else if begins_with_any(m, MISTRAL_PREFIXES@) {
        Some("mistral"@)
    } else if begins_with_any(m, META_PREFIXES@) {
        Some("meta"@)
    } else if begins_with_any(m, DEEPSEEK_PREFIXES@) {
        Some("deepseek"@)
    } else if begins_with_any(m, COHERE_PREFIXES@) {
        Some("cohere"@)
    } else {
        None
    }
}

/// Infer the provider from a model name when no explicit "provider/" prefix is given.
pub fn infer_provider(model: &str, anthropic: &str) -> (r: Option<&'static str>)
    ensures
        match r {
            Some(p) => provider_of(lowercase(model@), anthropic@) == Some(p@),
            None => provider_of(lowercase(model@), anthropic@) is None,
        },
{
    let m: String = model.to_lowercase();
    let s: &str = m.as_str();
    if starts_with_any(s, &OPENAI_PREFIXES) {
        Some("openai")
    } else if !anthropic.is_empty() && starts_with(s, anthropic) {
        Some("anthropic")
    } else if starts_with_any(s, &GOOGLE_PREFIXES) {
        Some("google")
    } else if starts_with_any(s, &MISTRAL_PREFIXES) {
        Some("mistral")
    } else if starts_with_any(s, &META_PREFIXES) {
        Some("meta")
    } else if starts_with_any(s, &DEEPSEEK_PREFIXES) {
        Some("deepseek")
    } else if starts_with_any(s, &COHERE_PREFIXES) {
        Some("cohere")
    } else {
        None
    }
}

/// The provider and the model id in a model name: what stands before and
/// behind the first slash, else the provider known for the name, else the
/// name itself. The provider is in lower case.
pub open spec fn provider_and_id(model: Seq<char>, anthropic: Seq<char>) -> (Seq<char>, Seq<char>) {
    match first_index(model, '/') {
        Some(k) => (lowercase(model.take(k)), model.skip(k + 1)),
        None => match provider_of(lowercase(model), anthropic) {
            Some(p) => (p, model),
            None => (lowercase(model), model),
        },
    }
}

fn split_model(model: &str, anthropic: &str) -> (r: (String, String))
    ensures
        (r.0@, r.1@) == provider_and_id(model@, anthropic@),
{
    let chars: Vec<char> = chars_of(model);
    match find_char(&chars, '/') {
        Some(k) => {
            let provider: String = text_of(&chars, 0, k);
            let id: String = text_of(&chars, k + 1, chars.len());
            assert(provider@ =~= model@.take(k as int));
            assert(id@ =~= model@.skip(k + 1));
            (provider.as_str().to_lowercase(), id)
        },
        None => match infer_provider(model, anthropic) {
            Some(p) => (p.to_owned(), model.to_owned()),
            None => (model.to_lowercase(), model.to_owned()),
        },
    }
}

/// Whether an entry of a filter lets a model pass.
pub open spec fn entry_allows(entry: Seq<char>, model: Seq<char>, model_id: Seq<char>) -> bool {
    let e = trimmed_space(entry);
    e == "*"@ || e == model || e == model_id
}

/// Whether one of the entries lets a model pass.
pub open spec fn some_entry_allows(
    entries: Seq<Seq<char>>,
    model: Seq<char>,
    model_id: Seq<char>,
) -> bool {
    exists|i: int| 0 <= i < entries.len() && entry_allows(#[trigger] entries[i], model, model_id)
}

/// Whether a filter lets a model pass: one of its entries between commas does.
pub open spec fn filter_allows(
    filter: Option<Seq<char>>,
    model: Seq<char>,
    model_id: Seq<char>,
) -> bool {
    match filter {
        Some(f) => some_entry_allows(fields(f, ','), model, model_id),
        None => true,
    }
}

/// Whether a pipe serves a model.
pub open spec fn serves(pipe: PipeInfo, model: Seq<char>, anthropic: Seq<char>) -> bool {
    let (provider, id) = provider_and_id(model, anthropic);
    lowercase(pipe.provider@) == provider && filter_allows(
        match pipe.model_filter {
            Some(f) => Some(f@),
            None => None,
        },
        model,
        id,
    )
}

fn filter_admits(filter: &str, model: &str, model_id: &str) -> (b: bool)
    ensures
        b == filter_allows(Some(filter@), model@, model_id@),
{
    let entries: Vec<String> = split_at_char(filter, ',');
    let ghost all = fields(filter@, ',');
    let mut i: usize = 0;
    while i < entries.len()
        invariant
            i <= entries@.len(),
            all == fields(filter@, ','),
            texts(entries@) == all,
            forall|j: int| 0 <= j < i ==> !entry_allows(#[trigger] all[j], model@, model_id@),
        decreases entries.len() - i,
    {
        let e: String = trim_space(entries[i].as_str());
        assert(all[i as int] == entries@[i as int]@);
        if same_text(e.as_str(), "*") || same_text(e.as_str(), model) || same_text(
            e.as_str(),
            model_id,
        ) {
            assert(texts(entries@).len() == entries@.len());
            assert(entry_allows(all[i as int], model@, model_id@));
            assert(some_entry_allows(all, model@, model_id@));
            return true;
        }
        i += 1;
    }
    assert(texts(entries@).len() == entries@.len());
    false
}

/// The position of the first pipe from `i` on that serves a model.
pub open spec fn first_serving(
    pipes: Seq<PipeInfo>,
    model: Seq<char>,
    anthropic: Seq<char>,
    i: int,
) -> Option<int>
    decreases pipes.len() - i,
{
    if i >= pipes.len() {
        None
    } else if serves(pipes[i], model, anthropic) {
        Some(i)
    } else {
        first_serving(pipes, model, anthropic, i + 1)
    }
}

/// Whether a selected pipe is the given one, for a model.
pub open spec fn is_selection_of(p: SelectedPipe, pipe: PipeInfo, model: Seq<char>) -> bool {
    &&& p.pipe_id == pipe.id
    &&& p.provider@ == pipe.provider@
    &&& p.api_key_decrypted@ == pipe.api_key_encrypted@
    &&& p.model@ == model
}

/// Select the appropriate pipe for the requested model.
///
/// Logic:
/// 1. Determine the provider from the model name (e.g., "openai/gpt-4o" -> "openai")
///    or infer it from well-known model prefixes (e.g., "gpt-4o" -> "openai");
///    `anthropic` is the family name of Anthropic's models
/// 2. Find the first pipe whose provider matches
/// 3. Check if the pipe's model_filter allows this model (none = all models)
/// 4. Return the pipe's API key, which is stored as plaintext
pub fn select_pipe(auth_ctx: &AuthContext, model: &str, anthropic: &str) -> (r: Result<
    SelectedPipe,
    PipeSelectionError,
>)
    ensures
        match first_serving(auth_ctx.pipes@, model@, anthropic@, 0) {
            Some(i) => r is Ok && is_selection_of(r->Ok_0, auth_ctx.pipes@[i], model@),
            None => match r {
                Err(PipeSelectionError::NoPipeFound { provider, model: m }) => provider@
                    == provider_and_id(model@, anthropic@).0 && m@ == model@,
                Ok(_) => false,
            },
        },
{
    let (provider, model_id) = split_model(model, anthropic);
    let mut i: usize = 0;
    while i < auth_ctx.pipes.len()
        invariant
            i <= auth_ctx.pipes@.len(),
            (provider@, model_id@) == provider_and_id(model@, anthropic@),
            first_serving(auth_ctx.pipes@, model@, anthropic@, 0) == first_serving(
                auth_ctx.pipes@,
                model@,
                anthropic@,
                i as int,
            ),
        decreases auth_ctx.pipes.len() - i,
    {
        let pipe: &PipeInfo = &auth_ctx.pipes[i];
        let pipe_provider: String = pipe.provider.as_str().to_lowercase();
        let mut matches: bool = same_text(pipe_provider.as_str(), provider.as_str());
        if matches {
            if let Some(filter) = &pipe.model_filter {
                matches = filter_admits(filter.as_str(), model, model_id.as_str());
            }
        }
        assert(matches == serves(auth_ctx.pipes@[i as int], model@, anthropic@));
        if matches {
            return Ok(
                SelectedPipe {
                    pipe_id: pipe.id,
                    provider: pipe.provider.clone(),
                    api_key_decrypted: pipe.api_key_encrypted.clone(),
                    model: model.to_owned(),
                },
            );
        }
        i += 1;
    }
    Err(PipeSelectionError::NoPipeFound { provider, model: model.to_owned() })
}

/// The pipe that is selected serves the model, and no pipe before it does;
/// none is selected only where none serves it.
pub proof fn selection_is_first(
    pipes: Seq<PipeInfo>,
    model: Seq<char>,
    anthropic: Seq<char>,
    i: int,
)
    requires
        0 <= i,
    ensures
        match first_serving(pipes, model, anthropic, i) {
            Some(k) => {
                &&& i <= k < pipes.len()
                &&& serves(pipes[k], model, anthropic)
                &&& forall|j: int| i <= j < k ==> !serves(#[trigger] pipes[j], model, anthropic)
            },
            None => forall|j: int|
                i <= j < pipes.len() ==> !serves(#[trigger] pipes[j], model, anthropic),
        },
    decreases pipes.len() - i,
{
    if i < pipes.len() && !serves(pipes[i], model, anthropic) {
        selection_is_first(pipes, model, anthropic, i + 1);
    }
}

/// The provider whose prefixes begin with the first letters of a text, by
/// its place among the tables; 0 for none. No two tables share first letters.
spec fn initials(s: Seq<char>) -> int {
    let (a, b, c) = (s[0], s[1], s[2]);
    if (a == 'g' && b == 'p') || (a == 'o' && (b == '1' || b == '3' || b == '4')) || (a == 'c' && b
        == 'h') || (a == 'd' && b == 'a') || (a == 't' && (b == 'e' || b == 't')) || (a == 'w' && b
        == 'h') {
        1
    } else if a == 'g' && b == 'e' {
        2
    } else if (a == 'm' && b == 'i') || (a == 'c' && b == 'o' && c == 'd') || (a == 'p' && b == 'i') {
        3
    } else if (a == 'l' && b == 'l') || (a == 'm' && b == 'e') {
        4
    } else if a == 'd' && b == 'e' {
        5
    } else if (a == 'c' && b == 'o' && c == 'm') || (a == 'e' && b == 'm') || (a == 'r' && b == 'e') {
        6
    } else {
        0
    }
}

proof fn lemma_openai(s: Seq<char>)
    requires
        begins_with_any(s, OPENAI_PREFIXES@),
    ensures
        initials(s) == 1,
{
    reveal_strlit("gpt-");
    reveal_strlit("o1");
    reveal_strlit("o3");
    reveal_strlit("o4");
    reveal_strlit("chatgpt");
    reveal_strlit("dall-e");
    reveal_strlit("text-embedding");
    reveal_strlit("whisper");
    reveal_strlit("tts");
    let i = choose|i: int|
        0 <= i < OPENAI_PREFIXES@.len() && begins_with(s, (#[trigger] OPENAI_PREFIXES@[i])@);
    let p = OPENAI_PREFIXES@[i]@;
    assert(s.take(p.len() as int)[0] == s[0]);
    assert(s.take(p.len() as int)[1] == s[1]);
    if p.len() > 2 {
        assert(s.take(p.len() as int)[2] == s[2]);
    }
}

proof fn lemma_google(s: Seq<char>)
    requires
        begins_with_any(s, GOOGLE_PREFIXES@),
    ensures
        initials(s) == 2,
{
    reveal_strlit("gemini");
    reveal_strlit("gemma");
    let i = choose|i: int|
        0 <= i < GOOGLE_PREFIXES@.len() && begins_with(s, (#[trigger] GOOGLE_PREFIXES@[i])@);
    let p = GOOGLE_PREFIXES@[i]@;
    assert(s.take(p.len() as int)[0] == s[0]);
    assert(s.take(p.len() as int)[1] == s[1]);
    if p.len() > 2 {
        assert(s.take(p.len() as int)[2] == s[2]);
    }
}

proof fn lemma_mistral(s: Seq<char>)
    requires
        begins_with_any(s, MISTRAL_PREFIXES@),
    ensures
        initials(s) == 3,
{
    reveal_strlit("mistral");
    reveal_strlit("mixtral");
    reveal_strlit("ministral");
    reveal_strlit("codestral");
    reveal_strlit("pixtral");
    let i = choose|i: int|
        0 <= i < MISTRAL_PREFIXES@.len() && begins_with(s, (#[trigger] MISTRAL_PREFIXES@[i])@);
    let p = MISTRAL_PREFIXES@[i]@;
    assert(s.take(p.len() as int)[0] == s[0]);
    assert(s.take(p.len() as int)[1] == s[1]);
    if p.len() > 2 {
        assert(s.take(p.len() as int)[2] == s[2]);
    }
}

proof fn lemma_meta(s: Seq<char>)
    requires
        begins_with_any(s, META_PREFIXES@),
    ensures
        initials(s) == 4,
{
    reveal_strlit("llama");
    reveal_strlit("meta-llama");
    let i = choose|i: int|
        0 <= i < META_PREFIXES@.len() && begins_with(s, (#[trigger] META_PREFIXES@[i])@);
    let p = META_PREFIXES@[i]@;
    assert(s.take(p.len() as int)[0] == s[0]);
    assert(s.take(p.len() as int)[1] == s[1]);
    if p.len() > 2 {
        assert(s.take(p.len() as int)[2] == s[2]);
    }
}

proof fn lemma_deepseek(s: Seq<char>)
    requires
        begins_with_any(s, DEEPSEEK_PREFIXES@),
    ensures
        initials(s) == 5,
{
    reveal_strlit("deepseek");
    let i = choose|i: int|
        0 <= i < DEEPSEEK_PREFIXES@.len() && begins_with(s, (#[trigger] DEEPSEEK_PREFIXES@[i])@);
    let p = DEEPSEEK_PREFIXES@[i]@;
    assert(s.take(p.len() as int)[0] == s[0]);
    assert(s.take(p.len() as int)[1] == s[1]);
    if p.len() > 2 {
        assert(s.take(p.len() as int)[2] == s[2]);
    }
}

proof fn lemma_cohere(s: Seq<char>)
    requires
        begins_with_any(s, COHERE_PREFIXES@),
    ensures
        initials(s) == 6,
{
    reveal_strlit("command");
    reveal_strlit("embed-");
    reveal_strlit("rerank-");
    let i = choose|i: int|
        0 <= i < COHERE_PREFIXES@.len() && begins_with(s, (#[trigger] COHERE_PREFIXES@[i])@);
    let p = COHERE_PREFIXES@[i]@;
    assert(s.take(p.len() as int)[0] == s[0]);
    assert(s.take(p.len() as int)[1] == s[1]);
    if p.len() > 2 {
        assert(s.take(p.len() as int)[2] == s[2]);
    }
}

/// Whether a family name neither begins with a prefix of the table nor is the
/// beginning of one.
pub open spec fn apart_from(family: Seq<char>, prefixes: Seq<&'static str>) -> bool {
    forall|i: int|
        0 <= i < prefixes.len() ==> !begins_with(family, (#[trigger] prefixes[i])@)
            && !begins_with(prefixes[i]@, family)
}

/// Whether a family name is told from the prefixes of all other providers.
pub open spec fn stands_apart(family: Seq<char>) -> bool {
    &&& apart_from(family, OPENAI_PREFIXES@)
    &&& apart_from(family, GOOGLE_PREFIXES@)
    &&& apart_from(family, MISTRAL_PREFIXES@)
    &&& apart_from(family, META_PREFIXES@)
    &&& apart_from(family, DEEPSEEK_PREFIXES@)
    &&& apart_from(family, COHERE_PREFIXES@)
}

proof fn lemma_apart(s: Seq<char>, family: Seq<char>, prefixes: Seq<&'static str>)
    requires
        begins_with(s, family),
        apart_from(family, prefixes),
    ensures
        !begins_with_any(s, prefixes),
{
    if begins_with_any(s, prefixes) {
        let i = choose|i: int|
            0 <= i < prefixes.len() && begins_with(s, (#[trigger] prefixes[i])@);
        let p = prefixes[i]@;
        if p.len() <= family.len() {
            assert(family.take(p.len() as int) =~= s.take(p.len() as int));
        } else {
            assert(p.take(family.len() as int) =~= s.take(family.len() as int));
        }
    }
}

proof fn lemma_family_apart(s: Seq<char>, family: Seq<char>)
    requires
        begins_with(s, family),
        stands_apart(family),
    ensures
        !begins_with_any(s, OPENAI_PREFIXES@),
        !begins_with_any(s, GOOGLE_PREFIXES@),
        !begins_with_any(s, MISTRAL_PREFIXES@),
        !begins_with_any(s, META_PREFIXES@),
        !begins_with_any(s, DEEPSEEK_PREFIXES@),
        !begins_with_any(s, COHERE_PREFIXES@),
{
    lemma_apart(s, family, OPENAI_PREFIXES@);
    lemma_apart(s, family, GOOGLE_PREFIXES@);
    lemma_apart(s, family, MISTRAL_PREFIXES@);
    lemma_apart(s, family, META_PREFIXES@);
    lemma_apart(s, family, DEEPSEEK_PREFIXES@);
    lemma_apart(s, family, COHERE_PREFIXES@);
}

proof fn lemma_begins_longer(s: Seq<char>, longer: Seq<char>, prefixes: Seq<&'static str>)
    requires
        begins_with(longer, s),
        begins_with_any(s, prefixes),
    ensures
        begins_with_any(longer, prefixes),
{
    let i = choose|i: int| 0 <= i < prefixes.len() && begins_with(s, (#[trigger] prefixes[i])@);
    let p = prefixes[i]@;
    assert(longer.take(p.len() as int) =~= s.take(p.len() as int));
    assert(begins_with(longer, prefixes[i]@));
}

proof fn lemma_one_provider(s: Seq<char>)
    ensures
        begins_with_any(s, OPENAI_PREFIXES@) ==> initials(s) == 1,
        begins_with_any(s, GOOGLE_PREFIXES@) ==> initials(s) == 2,
        begins_with_any(s, MISTRAL_PREFIXES@) ==> initials(s) == 3,
        begins_with_any(s, META_PREFIXES@) ==> initials(s) == 4,
        begins_with_any(s, DEEPSEEK_PREFIXES@) ==> initials(s) == 5,
        begins_with_any(s, COHERE_PREFIXES@) ==> initials(s) == 6,
{
    if begins_with_any(s, OPENAI_PREFIXES@) {
        lemma_openai(s);
    }
    if begins_with_any(s, GOOGLE_PREFIXES@) {
        lemma_google(s);
    }
    if begins_with_any(s, MISTRAL_PREFIXES@) {
        lemma_mistral(s);
    }
    if begins_with_any(s, META_PREFIXES@) {
        lemma_meta(s);
    }
    if begins_with_any(s, DEEPSEEK_PREFIXES@) {
        lemma_deepseek(s);
    }
    if begins_with_any(s, COHERE_PREFIXES@) {
        lemma_cohere(s);
    }
}

proof fn lemma_provider_kept(name: Seq<char>, longer: Seq<char>, anthropic: Seq<char>)
    requires
        begins_with(longer, name),
        stands_apart(anthropic),
        provider_of(name, anthropic) is Some,
    ensures
        provider_of(longer, anthropic) == provider_of(name, anthropic),
{
    lemma_one_provider(longer);
    if of_family(longer, anthropic) {
        lemma_family_apart(longer, anthropic);
    }
    if begins_with_any(name, OPENAI_PREFIXES@) {
        lemma_begins_longer(name, longer, OPENAI_PREFIXES@);
    } else if of_family(name, anthropic) {
        assert(longer.take(anthropic.len() as int) =~= name.take(anthropic.len() as int));
    } else if begins_with_any(name, GOOGLE_PREFIXES@) {
        lemma_begins_longer(name, longer, GOOGLE_PREFIXES@);
    } else if begins_with_any(name, MISTRAL_PREFIXES@) {
        lemma_begins_longer(name, longer, MISTRAL_PREFIXES@);
    } else if begins_with_any(name, META_PREFIXES@) {
        lemma_begins_longer(name, longer, META_PREFIXES@);
    } else if begins_with_any(name, DEEPSEEK_PREFIXES@) {
        lemma_begins_longer(name, longer, DEEPSEEK_PREFIXES@);
    } else {
        lemma_begins_longer(name, longer, COHERE_PREFIXES@);
    }
}

/// A provider that is inferred for a model is inferred for every longer name
/// that begins with it. It holds of ASCII names, and of others whose lower
/// case begins alike.
pub proof fn provider_is_kept_by_suffixes(
    model: Seq<char>,
    suffix: Seq<char>,
    anthropic: Seq<char>,
)
    requires
        is_ascii_text(model + suffix) || begins_with(lowercase(model + suffix), lowercase(model)),
        stands_apart(anthropic),
        provider_of(lowercase(model), anthropic) is Some,
    ensures
        provider_of(lowercase(model + suffix), anthropic) == provider_of(
            lowercase(model),
            anthropic,
        ),
{
    if is_ascii_text(model + suffix) {
        lemma_lowercase_append(model, suffix);
        let longer = lowercase(model + suffix);
        assert(longer.subrange(0, lowercase(model).len() as int) =~= lowercase(model));
    }
    lemma_provider_kept(lowercase(model), lowercase(model + suffix), anthropic);
}

/// The case of its ASCII letters does not matter to the provider of a name.
pub proof fn provider_ignores_case(model: Seq<char>, anthropic: Seq<char>)
    requires
        is_ascii_text(model),
    ensures
        provider_of(lowercase(ascii_uppercase(model)), anthropic) == provider_of(
            lowercase(model),
            anthropic,
        ),
{
    lemma_lowercase_of_upper(model);
}

/// The empty name has no provider.
pub proof fn empty_name_has_no_provider(anthropic: Seq<char>)
    ensures
        provider_of(lowercase(Seq::empty()), anthropic) is None,
{
    let none = Seq::<char>::empty();
    lemma_lowercase_append(none, none);
    assert(none + none =~= none);
    assert(lowercase(none) =~= none);
    reveal_strlit("gpt-");
    reveal_strlit("o1");
    reveal_strlit("o3");
    reveal_strlit("o4");
    reveal_strlit("chatgpt");
    reveal_strlit("dall-e");
    reveal_strlit("text-embedding");
    reveal_strlit("whisper");
    reveal_strlit("tts");
    reveal_strlit("gemini");
    reveal_strlit("gemma");
    reveal_strlit("mistral");
    reveal_strlit("mixtral");
    reveal_strlit("ministral");
    reveal_strlit("codestral");
    reveal_strlit("pixtral");
    reveal_strlit("llama");
    reveal_strlit("meta-llama");
    reveal_strlit("deepseek");
    reveal_strlit("command");
    reveal_strlit("embed-");
    reveal_strlit("rerank-");
}

proof fn lemma_has_prefix(m: Seq<char>, prefixes: Seq<&'static str>, i: int)
    requires
        0 <= i < prefixes.len(),
        begins_with(m, prefixes[i]@),
    ensures
        begins_with_any(m, prefixes),
{
}

/// A name that begins with a prefix of a table is of its provider.
pub(crate) proof fn lemma_families(m: Seq<char>, anthropic: Seq<char>)
    requires
        stands_apart(anthropic),
    ensures
        begins_with(m, "gpt-"@) ==> provider_of(m, anthropic) == Some("openai"@),
        begins_with(m, "o1"@) ==> provider_of(m, anthropic) == Some("openai"@),
        begins_with(m, "o3"@) ==> provider_of(m, anthropic) == Some("openai"@),
        begins_with(m, "o4"@) ==> provider_of(m, anthropic) == Some("openai"@),
        begins_with(m, "chatgpt"@) ==> provider_of(m, anthropic) == Some("openai"@),
        begins_with(m, "dall-e"@) ==> provider_of(m, anthropic) == Some("openai"@),
        begins_with(m, "text-embedding"@) ==> provider_of(m, anthropic) == Some("openai"@),
        begins_with(m, "whisper"@) ==> provider_of(m, anthropic) == Some("openai"@),
        begins_with(m, "tts"@) ==> provider_of(m, anthropic) == Some("openai"@),
        begins_with(m, "gemini"@) ==> provider_of(m, anthropic) == Some("google"@),
        begins_with(m, "gemma"@) ==> provider_of(m, anthropic) == Some("google"@),
        begins_with(m, "mistral"@) ==> provider_of(m, anthropic) == Some("mistral"@),
        begins_with(m, "mixtral"@) ==> provider_of(m, anthropic) == Some("mistral"@),
        begins_with(m, "ministral"@) ==> provider_of(m, anthropic) == Some("mistral"@),
        begins_with(m, "codestral"@) ==> provider_of(m, anthropic) == Some("mistral"@),
        begins_with(m, "pixtral"@) ==> provider_of(m, anthropic) == Some("mistral"@),
        begins_with(m, "llama"@) ==> provider_of(m, anthropic) == Some("meta"@),
        begins_with(m, "meta-llama"@) ==> provider_of(m, anthropic) == Some("meta"@),
        begins_with(m, "deepseek"@) ==> provider_of(m, anthropic) == Some("deepseek"@),
        begins_with(m, "command"@) ==> provider_of(m, anthropic) == Some("cohere"@),
        begins_with(m, "embed-"@) ==> provider_of(m, anthropic) == Some("cohere"@),
        begins_with(m, "rerank-"@) ==> provider_of(m, anthropic) == Some("cohere"@),
        anthropic.len() > 0 && begins_with(m, anthropic) ==> provider_of(m, anthropic) == Some(
            "anthropic"@,
        ),
{
    lemma_one_provider(m);
    if begins_with(m, anthropic) {
        lemma_family_apart(m, anthropic);
    }
    if begins_with(m, "gpt-"@) {
        lemma_has_prefix(m, OPENAI_PREFIXES@, 0);
    }
    if begins_with(m, "o1"@) {
        lemma_has_prefix(m, OPENAI_PREFIXES@, 1);
    }
    if begins_with(m, "o3"@) {
        lemma_has_prefix(m, OPENAI_PREFIXES@, 2);
    }
    if begins_with(m, "o4"@) {
        lemma_has_prefix(m, OPENAI_PREFIXES@, 3);
    }
    if begins_with(m, "chatgpt"@) {
        lemma_has_prefix(m, OPENAI_PREFIXES@, 4);
    }
    if begins_with(m, "dall-e"@) {
        lemma_has_prefix(m, OPENAI_PREFIXES@, 5);
    }
    if begins_with(m, "text-embedding"@) {
        lemma_has_prefix(m, OPENAI_PREFIXES@, 6);
    }
    if begins_with(m, "whisper"@) {
        lemma_has_prefix(m, OPENAI_PREFIXES@, 7);
    }
    if begins_with(m, "tts"@) {
        lemma_has_prefix(m, OPENAI_PREFIXES@, 8);
    }
    if begins_with(m, "gemini"@) {
        lemma_has_prefix(m, GOOGLE_PREFIXES@, 0);
    }
    if begins_with(m, "gemma"@) {
        lemma_has_prefix(m, GOOGLE_PREFIXES@, 1);
    }
    if begins_with(m, "mistral"@) {
        lemma_has_prefix(m, MISTRAL_PREFIXES@, 0);
    }
    if begins_with(m, "mixtral"@) {
        lemma_has_prefix(m, MISTRAL_PREFIXES@, 1);
    }
    if begins_with(m, "ministral"@) {
        lemma_has_prefix(m, MISTRAL_PREFIXES@, 2);
    }
    if begins_with(m, "codestral"@) {
        lemma_has_prefix(m, MISTRAL_PREFIXES@, 3);
    }
    if begins_with(m, "pixtral"@) {
        lemma_has_prefix(m, MISTRAL_PREFIXES@, 4);
    }
    if begins_with(m, "llama"@) {
        lemma_has_prefix(m, META_PREFIXES@, 0);
    }
    if begins_with(m, "meta-llama"@) {
        lemma_has_prefix(m, META_PREFIXES@, 1);
    }
    if begins_with(m, "deepseek"@) {
        lemma_has_prefix(m, DEEPSEEK_PREFIXES@, 0);
    }
    if begins_with(m, "command"@) {
        lemma_has_prefix(m, COHERE_PREFIXES@, 0);
    }
    if begins_with(m, "embed-"@) {
        lemma_has_prefix(m, COHERE_PREFIXES@, 1);
    }
    if begins_with(m, "rerank-"@) {
        lemma_has_prefix(m, COHERE_PREFIXES@, 2);
    }
}

} // verus!
