//! Implicit session-affinity key derivation.
//!
//! When a request carries no explicit affinity header, a stable session key is
//! derived from the parts of the prompt that repeat verbatim at the head of
//! every turn — the same bytes the provider's prompt cache is keyed on:
//!
//! ```text
//! session_key  = hash(system + tools + first_user_message)
//! prefix_hash  = hash(system + tools)
//! ```
//!
//! The session key is constant for the life of a conversation (history grows at
//! the tail, not the head), so later turns reuse the same pin without any client
//! changes. The prefix hash covers only the fully-stable segment and is stored
//! with the pin for drift detection.
//!
//! Only salted hashes are ever stored — never prompt content.

use crate::chat::{content_text, Message, Role};
use crate::text::{byte_len, bytes_in, concat2, hex_digits, join, joined, texts, to_hex};
use vstd::prelude::*;
use vstd::string::StringSliceAdditionalSpecFns;
use vstd::utf8::encode_utf8;

verus! {

/// Salt folded into every hash so stored keys can't be trivially correlated with
/// prompt content across systems. Deterministic across processes/replicas so a
/// shared session cache keys consistently.
pub const HASH_SALT: &'static str = "plano-affinity-v1";

/// Prefix distinguishing derived keys from client-supplied ids.
pub const IMPLICIT_KEY_PREFIX: &'static str = "implicit:";

pub const OFFSET_BASIS: u64 = 0xcbf2_9ce4_8422_2325;

pub const PRIME: u64 = 0x0000_0100_0000_01b3;

/// Derived affinity identifiers for one request.
#[derive(Debug, Clone, PartialEq, Eq)]
pub struct ImplicitAffinity {
    /// Session-cache key: `implicit:{hex}` over system + tools + first user message.
    pub session_key: String,
    /// Hash of the stable prefix only (system + tools), for drift detection.
    pub prefix_hash: u64,
}

/// One step of FNV-1a: a byte is mixed in, then multiplied.
pub open spec fn fnv_step(hash: u64, b: u8) -> u64 {
    (hash ^ (b as u64)).wrapping_mul(PRIME)
}

/// FNV-1a over bytes.
pub open spec fn fnv_bytes(hash: u64, bytes: Seq<u8>) -> u64
    decreases bytes.len(),
{
    if bytes.len() == 0 {
        hash
    } else {
        fnv_step(fnv_bytes(hash, bytes.drop_last()), bytes.last())
    }
}

/// FNV-1a over one field and the separator that follows it.
pub open spec fn fnv_field(hash: u64, field: Seq<char>) -> u64 {
    fnv_step(fnv_bytes(hash, encode_utf8(field)), 0x1f)
}

/// FNV-1a over fields, each followed by a separator.
pub open spec fn fnv_fields(hash: u64, fields: Seq<Seq<char>>) -> u64
    decreases fields.len(),
{
    if fields.len() == 0 {
        hash
    } else {
        fnv_field(fnv_fields(hash, fields.drop_last()), fields.last())
    }
}

/// The salted hash of fields.
pub open spec fn salted_hash(fields: Seq<Seq<char>>) -> u64 {
    fnv_fields(fnv_field(OFFSET_BASIS, HASH_SALT@), fields)
}

fn feed(start: u64, field: &str) -> (r: u64)
    ensures
        r == fnv_field(start, field@),
{
    let bytes: &[u8] = field.as_bytes();
    let mut hash: u64 = start;
    let mut i: usize = 0;
    while i < bytes.len()
        invariant
            i <= bytes@.len(),
            bytes@ == encode_utf8(field@),
            hash == fnv_bytes(start, bytes@.take(i as int)),
        decreases bytes.len() - i,
    {
        proof {
            let next = bytes@.take(i + 1);
            assert(next.drop_last() =~= bytes@.take(i as int));
            assert(next.last() == bytes@[i as int]);
        }
        hash = (hash ^ (bytes[i] as u64)).wrapping_mul(PRIME);
        i += 1;
    }
    assert(bytes@.take(bytes@.len() as int) =~= bytes@);
    (hash ^ (0x1fu8 as u64)).wrapping_mul(PRIME)
}

/// FNV-1a 64-bit — stable across processes and versions and plenty for cache
/// keying (collisions merely over-pin, which is cache-friendly). Fields are
/// separated, so ("ab", "c") and ("a", "bc") are hashed from different bytes.
pub fn fnv1a64(chunks: &[&str]) -> (hash: u64)
    ensures
        hash == salted_hash(Seq::new(chunks@.len(), |i: int| chunks@[i]@)),
{
    let ghost fields = Seq::new(chunks@.len(), |i: int| chunks@[i]@);
    let mut hash: u64 = feed(OFFSET_BASIS, HASH_SALT);
    let ghost start = hash;
    let mut i: usize = 0;
    while i < chunks.len()
        invariant
            i <= chunks@.len(),
            fields == Seq::new(chunks@.len(), |i: int| chunks@[i]@),
            hash == fnv_fields(start, fields.take(i as int)),
        decreases chunks.len() - i,
    {
        proof {
            let next = fields.take(i + 1);
            assert(next.drop_last() =~= fields.take(i as int));
            assert(next.last() == chunks@[i as int]@);
        }
        hash = feed(hash, chunks[i]);
        i += 1;
    }
    assert(fields.take(fields.len() as int) =~= fields);
    hash
}

/// The texts of the instructions, in order.
pub open spec fn instruction_texts(messages: Seq<Message>) -> Seq<Seq<char>>
    decreases messages.len(),
{
    if messages.len() == 0 {
        Seq::empty()
    } else {
        let rest = instruction_texts(messages.drop_last());
        let m = messages.last();
        match m.content {
            Some(c) if m.role == Role::System || m.role == Role::Developer => rest.push(
                content_text(c),
            ),
            _ => rest,
        }
    }
}

/// The content of the first user message; `None` where there is no user
/// message or the first has no content.
pub open spec fn first_user_text(messages: Seq<Message>) -> Option<Seq<char>>
    decreases messages.len(),
{
    if messages.len() == 0 {
        None
    } else if messages[0].role == Role::User {
        match messages[0].content {
            Some(c) => Some(content_text(c)),
            None => None,
        }
    } else {
        first_user_text(messages.skip(1))
    }
}

/// The fields of the stable prefix: tenant, instructions, tools.
pub open spec fn prefix_fields(
    messages: Seq<Message>,
    tools: Seq<Seq<char>>,
    tenant: Seq<char>,
) -> Seq<Seq<char>> {
    seq![tenant, joined(instruction_texts(messages), "\n"@), joined(tools, ","@)]
}

/// The session key and the prefix hash of a request; `None` where there is no
/// user message to anchor on.
pub open spec fn affinity_of(
    messages: Seq<Message>,
    tools: Seq<Seq<char>>,
    tenant: Seq<char>,
) -> Option<(Seq<char>, u64)> {
    let fields = prefix_fields(messages, tools, tenant);
    match first_user_text(messages) {
        Some(user) => Some(
            (
                IMPLICIT_KEY_PREFIX@ + hex_digits(salted_hash(fields.push(user)) as nat, 16),
                salted_hash(fields),
            ),
        ),
        None => None,
    }
}

/// The names in an optional list of tools.
pub open spec fn tool_texts(names: Option<&[String]>) -> Seq<Seq<char>> {
    match names {
        Some(v) => texts(v@),
        None => Seq::empty(),
    }
}

/// The tenant, empty where there is none.
pub open spec fn tenant_text(tenant: Option<&str>) -> Seq<char> {
    match tenant {
        Some(t) => t@,
        None => Seq::empty(),
    }
}

fn system_text(messages: &[Message]) -> (r: String)
    ensures
        r@ == joined(instruction_texts(messages@), "\n"@),
{
    let mut parts: Vec<String> = Vec::new();
    let mut i: usize = 0;
    assert(texts(parts@) =~= Seq::empty());
    while i < messages.len()
        invariant
            i <= messages@.len(),
            texts(parts@) == instruction_texts(messages@.take(i as int)),
        decreases messages.len() - i,
    {
        proof {
            let next = messages@.take(i + 1);
            assert(next.drop_last() =~= messages@.take(i as int));
            assert(next.last() == messages@[i as int]);
        }
        let m: &Message = &messages[i];
        if m.role == Role::System || m.role == Role::Developer {
            if let Some(c) = &m.content {
                let t: String = c.extract_text();
                assert(texts(parts@.push(t)) =~= texts(parts@).push(t@));
                parts.push(t);
            }
        }
        i += 1;
    }
    assert(messages@.take(messages@.len() as int) =~= messages@);
    join(&parts, "\n")
}

fn first_user(messages: &[Message]) -> (r: Option<String>)
    ensures
        match r {
            Some(s) => first_user_text(messages@) == Some(s@),
            None => first_user_text(messages@) is None,
        },
{
    let mut i: usize = 0;
    assert(messages@.skip(0) =~= messages@);
    while i < messages.len()
        invariant
            i <= messages@.len(),
            first_user_text(messages@) == first_user_text(messages@.skip(i as int)),
        decreases messages.len() - i,
    {
        let m: &Message = &messages[i];
        assert(messages@.skip(i as int)[0] == *m);
        if m.role == Role::User {
            return match &m.content {
                Some(c) => Some(c.extract_text()),
                None => None,
            };
        }
        assert(messages@.skip(i as int).skip(1) =~= messages@.skip(i + 1));
        i += 1;
    }
    None
}

fn tools_text(names: Option<&[String]>) -> (r: String)
    ensures
        r@ == joined(tool_texts(names), ","@),
{
    let mut owned: Vec<String> = Vec::new();
    assert(texts(owned@) =~= Seq::empty());
    if let Some(v) = names {
        let mut i: usize = 0;
        while i < v.len()
            invariant
                i <= v@.len(),
                owned@.len() == i,
                forall|j: int| 0 <= j < i ==> (#[trigger] owned@[j])@ == v@[j]@,
            decreases v.len() - i,
        {
            owned.push(v[i].clone());
            i += 1;
        }
        assert(texts(owned@) =~= texts(v@));
    }
    join(&owned, ",")
}

/// Derive the implicit affinity key from parsed request messages and tool names.
///
/// Returns `None` when there is no user message to anchor on (nothing distinguishes
/// the conversation, so pinning would be meaningless).
pub fn derive_implicit_affinity(
    messages: &[Message],
    tool_names: Option<&[String]>,
    tenant_id: Option<&str>,
) -> (r: Option<ImplicitAffinity>)
    ensures
        ({
            let expected = affinity_of(messages@, tool_texts(tool_names), tenant_text(tenant_id));
            match r {
                Some(a) => expected == Some((a.session_key@, a.prefix_hash)),
                None => expected is None,
            }
        }),
{
    let user: String = match first_user(messages) {
        Some(u) => u,
        None => {
            return None;
        },
    };
    let system: String = system_text(messages);
    let tools: String = tools_text(tool_names);
    let tenant: &str = match tenant_id {
        Some(t) => t,
        None => "",
    };
    proof {
        reveal_strlit("");
        assert(tenant@ =~= tenant_text(tenant_id));
    }
    let ghost fields = prefix_fields(messages@, tool_texts(tool_names), tenant_text(tenant_id));
    let prefix: [&str; 3] = [tenant, system.as_str(), tools.as_str()];
    let prefix_hash: u64 = fnv1a64(&prefix);
    assert(Seq::new(prefix@.len(), |i: int| prefix@[i]@) =~= fields);
    let session: [&str; 4] = [tenant, system.as_str(), tools.as_str(), user.as_str()];
    let session_hash: u64 = fnv1a64(&session);
    assert(Seq::new(session@.len(), |i: int| session@[i]@) =~= fields.push(user@));
    let session_key: String = concat2(IMPLICIT_KEY_PREFIX, to_hex(session_hash, 16).as_str());
    Some(ImplicitAffinity { session_key, prefix_hash })
}

proof fn lemma_first_user_extends(head: Seq<Message>, tail: Seq<Message>)
    requires
        first_user_text(head) is Some,
    ensures
        first_user_text(head + tail) == first_user_text(head),
    decreases head.len(),
{
    assert((head + tail)[0] == head[0]);
    if head[0].role != Role::User {
        assert((head + tail).skip(1) =~= head.skip(1) + tail);
        lemma_first_user_extends(head.skip(1), tail);
    }
}

proof fn lemma_instructions_extend(head: Seq<Message>, tail: Seq<Message>)
    requires
        forall|i: int|
            0 <= i < tail.len() ==> (#[trigger] tail[i]).role != Role::System && tail[i].role
                != Role::Developer,
    ensures
        instruction_texts(head + tail) == instruction_texts(head),
    decreases tail.len(),
{
    if tail.len() == 0 {
        assert(head + tail =~= head);
    } else {
        assert((head + tail).drop_last() =~= head + tail.drop_last());
        assert((head + tail).last() == tail[tail.len() - 1]);
        lemma_instructions_extend(head, tail.drop_last());
    }
}

/// The session key and the prefix hash stay the same as the history grows at
/// its tail by messages that are not instructions.
pub proof fn key_is_stable(
    head: Seq<Message>,
    tail: Seq<Message>,
    tools: Seq<Seq<char>>,
    tenant: Seq<char>,
)
    requires
        first_user_text(head) is Some,
        forall|i: int|
            0 <= i < tail.len() ==> (#[trigger] tail[i]).role != Role::System && tail[i].role
                != Role::Developer,
    ensures
        affinity_of(head + tail, tools, tenant) == affinity_of(head, tools, tenant),
{
    lemma_first_user_extends(head, tail);
    lemma_instructions_extend(head, tail);
}

/// The number of bytes of the contents of messages.
pub open spec fn content_bytes(messages: Seq<Message>) -> nat
    decreases messages.len(),
{
    if messages.len() == 0 {
        0
    } else {
        content_bytes(messages.drop_last()) + match messages.last().content {
            Some(c) => byte_len(content_text(c)),
            None => 0,
        }
    }
}

proof fn lemma_content_bytes_monotone(messages: Seq<Message>, i: int)
    requires
        0 <= i <= messages.len(),
    ensures
        content_bytes(messages.take(i)) <= content_bytes(messages),
    decreases messages.len() - i,
{
    if i < messages.len() {
        lemma_content_bytes_monotone(messages, i + 1);
        assert(messages.take(i + 1).drop_last() =~= messages.take(i));
    } else {
        assert(messages.take(i) =~= messages);
    }
}

/// A quarter of the bytes of all messages but the last.
pub open spec fn prefix_estimate(messages: Seq<Message>) -> nat {
    content_bytes(messages.take(if messages.len() == 0 { 0 } else { messages.len() - 1 })) / 4
}

/// Estimate the token count of the stable prompt prefix (all but the final
/// message) using a quarter of its bytes. Used by cache-aware ranking to weigh
/// the cost of re-sending vs re-reading the prefix; precision is not required.
pub fn estimate_prefix_tokens(messages: &[Message]) -> (r: u64)
    requires
        content_bytes(messages@) <= usize::MAX,
    ensures
        r == prefix_estimate(messages@),
{
    let upto: usize = messages.len().saturating_sub(1);
    let mut total: usize = 0;
    let mut i: usize = 0;
    while i < upto
        invariant
            i <= upto <= messages@.len(),
            content_bytes(messages@) <= usize::MAX,
            total == content_bytes(messages@.take(i as int)),
        decreases upto - i,
    {
        proof {
            let next = messages@.take(i + 1);
            assert(next.drop_last() =~= messages@.take(i as int));
            assert(next.last() == messages@[i as int]);
            lemma_content_bytes_monotone(messages@, i + 1);
        }
        if let Some(c) = &messages[i].content {
            let text: String = c.extract_text();
            total = total + bytes_in(text.as_str());
        }
        i += 1;
    }
    (total / 4) as u64
}

/// Each byte of a field is mixed in by FNV-1a, and a separator follows the
/// field; hashing starts with a salt.
pub proof fn hash_is_fnv1a(hash: u64, bytes: Seq<u8>, b: u8, fields: Seq<Seq<char>>, field: Seq<char>)
    ensures
        fnv_bytes(hash, Seq::empty()) == hash,
        fnv_bytes(hash, bytes.push(b)) == (fnv_bytes(hash, bytes) ^ (b as u64)).wrapping_mul(
            0x0000_0100_0000_01b3,
        ),
        salted_hash(Seq::empty()) == fnv_field(0xcbf2_9ce4_8422_2325, "plano-affinity-v1"@),
        salted_hash(fields.push(field)) == (fnv_bytes(salted_hash(fields), encode_utf8(field))
            ^ 0x1fu64).wrapping_mul(0x0000_0100_0000_01b3),
{
    assert(bytes.push(b).drop_last() =~= bytes);
    assert(fields.push(field).drop_last() =~= fields);
}

/// Tenant, instructions and tools all go into the prefix, each for itself.
pub proof fn every_part_of_the_prefix_is_hashed(
    a: Seq<Message>,
    a_tools: Seq<Seq<char>>,
    a_tenant: Seq<char>,
    b: Seq<Message>,
    b_tools: Seq<Seq<char>>,
    b_tenant: Seq<char>,
)
    ensures
        (prefix_fields(a, a_tools, a_tenant) == prefix_fields(b, b_tools, b_tenant)) == (a_tenant
            == b_tenant && joined(instruction_texts(a), "\n"@) == joined(
            instruction_texts(b),
            "\n"@,
        ) && joined(a_tools, ","@) == joined(b_tools, ","@)),
{
    let x = prefix_fields(a, a_tools, a_tenant);
    let y = prefix_fields(b, b_tools, b_tenant);
    if x == y {
        assert(x[0] == y[0] && x[1] == y[1] && x[2] == y[2]);
    } else if a_tenant == b_tenant && joined(instruction_texts(a), "\n"@) == joined(
        instruction_texts(b),
        "\n"@,
    ) && joined(a_tools, ","@) == joined(b_tools, ","@) {
        assert(x =~= y);
    }
}

/// The hash of the prefix does not depend on what users say; the session key
/// is that of the prefix with the first thing a user says behind it, and
/// marked as derived.
pub proof fn key_holds_the_first_user_message(
    messages: Seq<Message>,
    tools: Seq<Seq<char>>,
    tenant: Seq<char>,
)
    ensures
        (affinity_of(messages, tools, tenant) is Some) == (first_user_text(messages) is Some),
        first_user_text(messages) is Some ==> {
            let (key, hash) = affinity_of(messages, tools, tenant)->0;
            let user = first_user_text(messages)->0;
            &&& hash == salted_hash(prefix_fields(messages, tools, tenant))
            &&& key.take("implicit:"@.len() as int) == "implicit:"@
            &&& key.skip("implicit:"@.len() as int) == hex_digits(
                ((fnv_bytes(hash, encode_utf8(user)) ^ 0x1fu64).wrapping_mul(
                    0x0000_0100_0000_01b3,
                )) as nat,
                16,
            )
        },
{
    if first_user_text(messages) is Some {
        let f = prefix_fields(messages, tools, tenant);
        let user = first_user_text(messages)->0;
        hash_is_fnv1a(0, Seq::empty(), 0, f, user);
        let key = (affinity_of(messages, tools, tenant)->0).0;
        assert(key.take("implicit:"@.len() as int) =~= "implicit:"@);
        assert(key.skip("implicit:"@.len() as int) =~= hex_digits(
            salted_hash(f.push(user)) as nat,
            16,
        ));
    }
}

/// Messages of the system and of developers are instructions, in their
/// order, and no others are; the first user message is that before all others.
pub proof fn roles_part_the_prompt(messages: Seq<Message>, m: Message)
    ensures
        (m.role == Role::System || m.role == Role::Developer) && m.content is Some
            ==> instruction_texts(messages.push(m)) == instruction_texts(messages).push(
            content_text(m.content->0),
        ),
        !((m.role == Role::System || m.role == Role::Developer) && m.content is Some)
            ==> instruction_texts(messages.push(m)) == instruction_texts(messages),
        m.role == Role::User && m.content is Some ==> first_user_text(seq![m] + messages) == Some(
            content_text(m.content->0),
        ),
        m.role == Role::User && m.content is None ==> first_user_text(seq![m] + messages) is None,
        m.role != Role::User ==> first_user_text(seq![m] + messages) == first_user_text(messages),
        first_user_text(Seq::empty()) is None,
{
    assert(messages.push(m).drop_last() =~= messages);
    assert((seq![m] + messages)[0] == m);
    assert((seq![m] + messages).skip(1) =~= messages);
}

/// The estimate leaves out the last message, and counts a token for every
/// four bytes of all others.
pub proof fn last_message_is_not_prefix(messages: Seq<Message>, m: Message, last: Message)
    ensures
        prefix_estimate(messages.push(last)) == content_bytes(messages) / 4,
        prefix_estimate(Seq::empty()) == 0,
        content_bytes(messages.push(m)) == content_bytes(messages) + (if m.content is Some {
            byte_len(content_text(m.content->0))
        } else {
            0
        }),
        content_bytes(Seq::empty()) == 0,
{
    assert(messages.push(last).take(messages.len() as int) =~= messages);
    assert(messages.push(m).drop_last() =~= messages);
    assert(Seq::<Message>::empty().take(0) =~= Seq::<Message>::empty());
}

} // verus!
