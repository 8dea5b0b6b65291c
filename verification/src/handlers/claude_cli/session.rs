//! Sessions of the bridge: a stable session id (taken from a client-provided
//! header or hashed from the conversation prefix) stands for a long-lived
//! process. Enforces an idle time to live and a hard cap on the number of
//! concurrent sessions.

use crate::encoding::{
    format_uuid, parse_uuid, seeded_uuid, uuid_from_text, uuid_text, uuid_value,
};
use crate::handlers::claude_cli::process::ClaudeCliConfig;
use crate::text::{
    concat3, join, joined, lemma_split_unique, same_text, texts, trim_space, trimmed_space,
};
use vstd::prelude::*;
use vstd::string::StringExecFns;

verus! {

/// The optional client header that pins a request to a provider's session id.
pub fn session_header(provider: &str) -> (r: String)
    ensures
        r@ == "x-arch-"@ + provider@ + "-session"@,
{
    concat3("x-arch-", provider, "-session")
}

/// Default cap. The bridge is local and per-developer; this is a guard
/// against runaway memory if a client bug churns through unique session ids.
pub const DEFAULT_MAX_SESSIONS: usize = 64;

/// Tunables for the session manager.
#[derive(Debug)]
pub struct SessionManagerConfig {
    pub max_sessions: usize,
    pub process: ClaudeCliConfig,
}

impl SessionManagerConfig {
    /// The usual tunables, for a program.
    pub fn for_program(binary: &str) -> (r: Self)
        ensures
            r.max_sessions == DEFAULT_MAX_SESSIONS,
            r.process.binary@ == binary@,
            r.process.permission_mode@ == "bypassPermissions"@,
            r.process.session_ttl == 600_000,
            r.process.watchdog == 120_000,
    {
        SessionManagerConfig {
            max_sessions: DEFAULT_MAX_SESSIONS,
            process: ClaudeCliConfig::for_program(binary),
        }
    }
}

// ---------------------------------------------------------------------------
// Requests
// ---------------------------------------------------------------------------

/// Who speaks in a message.
#[derive(Debug, Clone, Copy, PartialEq, Eq, Structural)]
pub enum MessagesRole {
    User,
    Assistant,
}

/// One block of a content.
#[derive(Debug)]
pub enum MessagesContentBlock {
    Text { text: String },
    /// An image, a tool call or a tool result.
    Other,
}

/// The content of a message.
#[derive(Debug)]
pub enum MessagesMessageContent {
    Single(String),
    Blocks(Vec<MessagesContentBlock>),
}

/// A message.
#[derive(Debug)]
pub struct MessagesMessage {
    pub role: MessagesRole,
    pub content: MessagesMessageContent,
}

/// The system prompt of a request.
#[derive(Debug)]
pub enum MessagesSystemPrompt {
    Single(String),
    Blocks(Vec<MessagesContentBlock>),
}

/// A request for the next message of a conversation.
#[derive(Debug)]
pub struct MessagesRequest {
    pub model: String,
    pub messages: Vec<MessagesMessage>,
    pub system: Option<MessagesSystemPrompt>,
    pub stream: Option<bool>,
}

/// The texts of the blocks that are text.
pub open spec fn block_texts(blocks: Seq<MessagesContentBlock>) -> Seq<Seq<char>>
    decreases blocks.len(),
{
    if blocks.len() == 0 {
        Seq::empty()
    } else {
        let rest = block_texts(blocks.drop_last());
        match blocks.last() {
            MessagesContentBlock::Text { text } => rest.push(text@),
            MessagesContentBlock::Other => rest,
        }
    }
}

/// The text of blocks, line by line.
pub open spec fn blocks_text(blocks: Seq<MessagesContentBlock>) -> Seq<char> {
    joined(block_texts(blocks), "\n"@)
}

fn join_blocks(blocks: &Vec<MessagesContentBlock>) -> (r: String)
    ensures
        r@ == blocks_text(blocks@),
{
    let mut pieces: Vec<String> = Vec::new();
    let mut i: usize = 0;
    assert(texts(pieces@) =~= block_texts(blocks@.take(0)));
    while i < blocks.len()
        invariant
            i <= blocks@.len(),
            texts(pieces@) == block_texts(blocks@.take(i as int)),
        decreases blocks.len() - i,
    {
        proof {
            let cut = blocks@.take(i + 1);
            assert(cut.last() == blocks@[i as int]);
            assert(cut.drop_last() =~= blocks@.take(i as int));
        }
        match &blocks[i] {
            MessagesContentBlock::Text { text } => {
                let t: String = text.clone();
                assert(texts(pieces@.push(t)) =~= texts(pieces@).push(t@));
                pieces.push(t);
            },
            MessagesContentBlock::Other => {},
        }
        i += 1;
    }
    assert(blocks@.take(i as int) =~= blocks@);
    join(&pieces, "\n")
}

/// The text of a system prompt, empty where there is none.
pub open spec fn system_text_of(system: Option<MessagesSystemPrompt>) -> Seq<char> {
    match system {
        Some(MessagesSystemPrompt::Single(s)) => s@,
        Some(MessagesSystemPrompt::Blocks(b)) => blocks_text(b@),
        None => Seq::empty(),
    }
}

fn system_text(system: &Option<MessagesSystemPrompt>) -> (r: String)
    ensures
        r@ == system_text_of(*system),
{
    match system {
        Some(MessagesSystemPrompt::Single(s)) => s.clone(),
        Some(MessagesSystemPrompt::Blocks(b)) => join_blocks(b),
        None => {
            let r: String = String::new();
            assert(r@ =~= Seq::empty());
            r
        },
    }
}

/// The text of a content.
pub open spec fn content_text_of(c: MessagesMessageContent) -> Seq<char> {
    match c {
        MessagesMessageContent::Single(s) => s@,
        MessagesMessageContent::Blocks(b) => blocks_text(b@),
    }
}

/// The text of the first user message from `i` on, empty where there is none.
pub open spec fn first_user_from(messages: Seq<MessagesMessage>, i: int) -> Seq<char>
    decreases messages.len() - i,
{
    if i >= messages.len() {
        Seq::empty()
    } else if messages[i].role == MessagesRole::User {
        content_text_of(messages[i].content)
    } else {
        first_user_from(messages, i + 1)
    }
}

fn first_user_message_text(messages: &Vec<MessagesMessage>) -> (r: String)
    ensures
        r@ == first_user_from(messages@, 0),
{
    let mut i: usize = 0;
    while i < messages.len()
        invariant
            i <= messages@.len(),
            first_user_from(messages@, 0) == first_user_from(messages@, i as int),
        decreases messages.len() - i,
    {
        if messages[i].role == MessagesRole::User {
            return match &messages[i].content {
                MessagesMessageContent::Single(s) => s.clone(),
                MessagesMessageContent::Blocks(b) => join_blocks(b),
            };
        }
        i += 1;
    }
    let r: String = String::new();
    assert(r@ =~= Seq::empty());
    r
}

// ---------------------------------------------------------------------------
// Session ids
// ---------------------------------------------------------------------------

/// The character between the parts of a seed.
pub const SEED_SEPARATOR: char = '\u{1f}';

/// What a conversation is known by: model, system prompt and first user message.
pub open spec fn seed_of(model: Seq<char>, system: Seq<char>, first_user: Seq<char>) -> Seq<char> {
    model.push(SEED_SEPARATOR) + (system.push(SEED_SEPARATOR) + first_user)
}

/// The seed of a request.
pub open spec fn request_seed(req: MessagesRequest) -> Seq<char> {
    seed_of(req.model@, system_text_of(req.system), first_user_from(req.messages@, 0))
}

/// The session id of a header: a text that is a UUID as it is, any other by
/// its hash; none for an empty one.
pub open spec fn header_session(
    header: Option<Seq<char>>,
    value: Option<u128>,
) -> Option<Seq<char>> {
    match header {
        Some(raw) => {
            let trimmed = trimmed_space(raw);
            if trimmed.len() == 0 {
                None
            } else if value is Some {
                Some(trimmed)
            } else {
                Some(uuid_text(seeded_uuid(trimmed)))
            }
        },
        None => None,
    }
}

/// The session id of a request.
pub open spec fn session_of(header: Option<Seq<char>>, req: MessagesRequest) -> Seq<char> {
    let value = match header {
        Some(raw) => uuid_value(trimmed_space(raw)),
        None => None,
    };
    match header_session(header, value) {
        Some(id) => id,
        None => uuid_text(seeded_uuid(request_seed(req))),
    }
}

/// Deterministic UUID derived from an arbitrary seed. The program requires a
/// session id to be a valid UUID.
fn uuid_from_seed(seed: &str) -> (r: String)
    ensures
        r@ == uuid_text(seeded_uuid(seed@)),
        uuid_value(r@) is Some,
{
    format_uuid(uuid_from_text(seed))
}

/// The seed of a request: model, system prompt and first user message.
pub fn seed_for(req: &MessagesRequest) -> (r: String)
    ensures
        r@ == request_seed(*req),
{
    let mut seed: String = req.model.clone();
    seed.push(SEED_SEPARATOR);
    seed.append(system_text(&req.system).as_str());
    seed.push(SEED_SEPARATOR);
    seed.append(first_user_message_text(&req.messages).as_str());
    assert(seed@ =~= request_seed(*req));
    seed
}

/// The session id that a client's header asks for, given whether its text is
/// a UUID.
pub fn session_from_header(trimmed: &str, is_uuid: bool) -> (r: Option<String>)
    ensures
        match r {
            Some(id) => trimmed@.len() > 0 && id@ == (if is_uuid {
                trimmed@
            } else {
                uuid_text(seeded_uuid(trimmed@))
            }) && (is_uuid || uuid_value(id@) is Some),
            None => trimmed@.len() == 0,
        },
{
    if trimmed.is_empty() {
        None
    } else if is_uuid {
        Some(trimmed.to_owned())
    } else {
        Some(uuid_from_seed(trimmed))
    }
}

// ---------------------------------------------------------------------------
// Sessions
// ---------------------------------------------------------------------------

/// A session and when it was last used, in milliseconds.
#[derive(Debug)]
pub struct SessionEntry {
    pub id: String,
    pub last_used: u64,
}

/// What a [`SessionEntry`] says.
pub struct EntryFacts {
    pub id: Seq<char>,
    pub last_used: u64,
}

/// What a list of entries says.
pub open spec fn entries_of(v: Seq<SessionEntry>) -> Seq<EntryFacts> {
    Seq::new(v.len(), |i: int| EntryFacts { id: v[i].id@, last_used: v[i].last_used })
}

/// Whether a session is idle for longer than the time to live; never where
/// that is 0.
pub open spec fn is_idle(e: EntryFacts, now: u64, ttl: u64) -> bool {
    ttl != 0 && now > e.last_used + ttl
}

/// The sessions that are not idle, in order.
pub open spec fn live(s: Seq<EntryFacts>, now: u64, ttl: u64) -> Seq<EntryFacts>
    decreases s.len(),
{
    if s.len() == 0 {
        Seq::empty()
    } else if is_idle(s.last(), now, ttl) {
        live(s.drop_last(), now, ttl)
    } else {
        live(s.drop_last(), now, ttl).push(s.last())
    }
}

/// The ids of the sessions that are idle, in order.
pub open spec fn idle(s: Seq<EntryFacts>, now: u64, ttl: u64) -> Seq<Seq<char>>
    decreases s.len(),
{
    if s.len() == 0 {
        Seq::empty()
    } else if is_idle(s.last(), now, ttl) {
        idle(s.drop_last(), now, ttl).push(s.last().id)
    } else {
        idle(s.drop_last(), now, ttl)
    }
}

/// The position of a session from `i` on.
pub open spec fn position_from(s: Seq<EntryFacts>, id: Seq<char>, i: int) -> Option<int>
    decreases s.len() - i,
{
    if i >= s.len() {
        None
    } else if s[i].id == id {
        Some(i)
    } else {
        position_from(s, id, i + 1)
    }
}

/// The position of the first of the first `n` sessions that were not used
/// for longest.
pub open spec fn stalest(s: Seq<EntryFacts>, n: int) -> int
    decreases n,
{
    if n <= 1 {
        0
    } else {
        let best = stalest(s, n - 1);
        if s[n - 1].last_used < s[best].last_used { n - 1 } else { best }
    }
}

/// How a request gets its process.
#[derive(Debug)]
pub struct SpawnPlan {
    /// The sessions whose processes are to be shut down because they were idle.
    pub idle: Vec<String>,
    /// Whether the session has a process.
    pub reuse: bool,
    /// The session that is to be shut down to make room, least recently used.
    pub victim: Option<String>,
}

/// Holds active sessions.
pub struct SessionManager {
    sessions: Vec<SessionEntry>,
    config: SessionManagerConfig,
}

impl View for SessionManager {
    type V = Seq<EntryFacts>;

    closed spec fn view(&self) -> Seq<EntryFacts> {
        entries_of(self.sessions@)
    }
}

/// The sessions after making room for a session: the idle ones are gone, and
/// where the session is new and the cap reached, the least recently used one.
pub open spec fn roomy(
    s: Seq<EntryFacts>,
    id: Seq<char>,
    now: u64,
    ttl: u64,
    max_sessions: usize,
) -> Seq<EntryFacts> {
    let l = live(s, now, ttl);
    if position_from(l, id, 0) is Some || l.len() < max_sessions || l.len() == 0 {
        l
    } else {
        l.remove(stalest(l, l.len() as int))
    }
}

/// Whether `r` is how a session gets its process, and `after` the sessions
/// once there is room for it.
pub open spec fn spawn_fits(
    s: Seq<EntryFacts>,
    id: Seq<char>,
    now: u64,
    ttl: u64,
    max_sessions: usize,
    r: SpawnPlan,
    after: Seq<EntryFacts>,
) -> bool {
    let l = live(s, now, ttl);
    let known = position_from(l, id, 0) is Some;
    &&& after == roomy(s, id, now, ttl, max_sessions)
    &&& texts(r.idle@) == idle(s, now, ttl)
    &&& r.reuse == known
    &&& match r.victim {
        Some(v) => !known && l.len() >= max_sessions && l.len() > 0 && v@ == l[stalest(
            l,
            l.len() as int,
        )].id,
        None => known || l.len() < max_sessions || l.len() == 0,
    }
}

/// The sessions with one that is used at a time: an entry of its own takes
/// the place of the one before.
pub open spec fn with_session(s: Seq<EntryFacts>, e: EntryFacts) -> Seq<EntryFacts> {
    match position_from(s, e.id, 0) {
        Some(i) => s.update(i, e),
        None => s.push(e),
    }
}

impl SessionManager {
    /// The cap on sessions.
    pub closed spec fn cap(&self) -> usize {
        self.config.max_sessions
    }

    /// The idle time to live, in milliseconds.
    pub closed spec fn ttl(&self) -> u64 {
        self.config.process.session_ttl
    }

    /// A manager without sessions.
    pub fn new(config: SessionManagerConfig) -> (r: Self)
        ensures
            r@ == Seq::<EntryFacts>::empty(),
            r.cap() == config.max_sessions,
            r.ttl() == config.process.session_ttl,
    {
        let r: SessionManager = SessionManager { sessions: Vec::new(), config };
        assert(r@ =~= Seq::empty());
        r
    }

    /// Pick (or fabricate) the session id for a given request.
    ///
    /// Strategy (in order):
    /// 1. Honor the session header if it's a non-empty valid UUID-shaped
    ///    string; any other non-empty text is hashed into one.
    /// 2. Otherwise hash `(model, system_prompt_text, first_user_message_text)`
    ///    and produce a deterministic UUID-shaped id so retries of the same
    ///    conversation reuse the same process.
    ///
    /// The id is a UUID in any case.
    pub fn resolve_session_id(client_header: Option<&str>, req: &MessagesRequest) -> (r: String)
        ensures
            r@ == session_of(
                match client_header {
                    Some(h) => Some(h@),
                    None => None,
                },
                *req,
            ),
            uuid_value(r@) is Some,
    {
        if let Some(raw) = client_header {
            let trimmed: String = trim_space(raw);
            let is_uuid: bool = parse_uuid(trimmed.as_str()).is_some();
            if let Some(id) = session_from_header(trimmed.as_str(), is_uuid) {
                return id;
            }
        }
        uuid_from_seed(seed_for(req).as_str())
    }

    fn find(&self, id: &str) -> (r: Option<usize>)
        ensures
            match r {
                Some(i) => i < self.sessions@.len() && position_from(self@, id@, 0) == Some(
                    i as int,
                ),
                None => position_from(self@, id@, 0) is None,
            },
    {
        let mut i: usize = 0;
        while i < self.sessions.len()
            invariant
                i <= self.sessions@.len(),
                position_from(self@, id@, 0) == position_from(self@, id@, i as int),
            decreases self.sessions.len() - i,
        {
            assert(self@[i as int].id == self.sessions@[i as int].id@);
            if same_text(self.sessions[i].id.as_str(), id) {
                return Some(i);
            }
            i += 1;
        }
        None
    }

    /// Drops the idle sessions at time `now`, and returns their ids.
    pub fn evict_idle(&mut self, now: u64) -> (gone: Vec<String>)
        ensures
            final(self)@ == live(old(self)@, now, old(self).ttl()),
            texts(gone@) == idle(old(self)@, now, old(self).ttl()),
            final(self).cap() == old(self).cap(),
            final(self).ttl() == old(self).ttl(),
    {
        let ghost all = self@;
        let ttl: u64 = self.config.process.session_ttl;
        let mut rest: Vec<SessionEntry> = Vec::new();
        rest.append(&mut self.sessions);
        let mut kept: Vec<SessionEntry> = Vec::new();
        let mut gone: Vec<String> = Vec::new();
        let ghost mut done: int = 0;
        assert(entries_of(kept@) =~= live(all.take(0), now, ttl));
        assert(texts(gone@) =~= idle(all.take(0), now, ttl));
        assert(entries_of(rest@) =~= all.skip(0));
        while rest.len() > 0
            invariant
                0 <= done <= all.len(),
                entries_of(rest@) == all.skip(done),
                entries_of(kept@) == live(all.take(done), now, ttl),
                texts(gone@) == idle(all.take(done), now, ttl),
            decreases rest.len(),
        {
            let ghost before = rest@;
            let e: SessionEntry = rest.remove(0);
            let ghost f = EntryFacts { id: e.id@, last_used: e.last_used };
            proof {
                assert(entries_of(before).len() == all.len() - done);
                assert(entries_of(before)[0] == f);
                assert(all.skip(done)[0] == all[done]);
                let cut = all.take(done + 1);
                assert(cut.last() == f);
                assert(cut.drop_last() =~= all.take(done));
                assert forall|i: int| 0 <= i < rest@.len() implies entries_of(rest@)[i]
                    == all.skip(done + 1)[i] by {
                    assert(rest@[i] == before[i + 1]);
                    assert(entries_of(before)[i + 1] == all.skip(done)[i + 1]);
                }
                assert(entries_of(rest@) =~= all.skip(done + 1));
                done = done + 1;
            }
            if ttl != 0 && now as u128 > e.last_used as u128 + ttl as u128 {
                assert(texts(gone@.push(e.id)) =~= texts(gone@).push(e.id@));
                gone.push(e.id);
            } else {
                assert(entries_of(kept@.push(e)) =~= entries_of(kept@).push(f));
                kept.push(e);
            }
        }
        proof {
            assert(entries_of(rest@).len() == all.len() - done);
            assert(all.take(done) =~= all);
        }
        self.sessions = kept;
        gone
    }

    fn least_recent(&self) -> (r: usize)
        requires
            self.sessions@.len() > 0,
        ensures
            r < self.sessions@.len(),
            r == stalest(self@, self.sessions@.len() as int),
    {
        let mut best: usize = 0;
        let mut i: usize = 1;
        while i < self.sessions.len()
            invariant
                1 <= i <= self.sessions@.len(),
                best < i,
                best == stalest(self@, i as int),
            decreases self.sessions.len() - i,
        {
            assert(self@[i as int].last_used == self.sessions@[i as int].last_used);
            assert(self@[best as int].last_used == self.sessions@[best as int].last_used);
            if self.sessions[i].last_used < self.sessions[best].last_used {
                best = i;
            }
            i += 1;
        }
        best
    }

    /// Make room for a session at time `now`, unless it has a process. The
    /// idle sessions go first; at the cap, the least recently used one follows.
    pub fn plan_session(&mut self, session_id: &str, now: u64) -> (r: SpawnPlan)
        ensures
            final(self).cap() == old(self).cap(),
            final(self).ttl() == old(self).ttl(),
            spawn_fits(
                old(self)@,
                session_id@,
                now,
                old(self).ttl(),
                old(self).cap(),
                r,
                final(self)@,
            ),
    {
        let idle: Vec<String> = self.evict_idle(now);
        let ghost l = self@;
        if self.find(session_id).is_some() {
            return SpawnPlan { idle, reuse: true, victim: None };
        }
        if self.sessions.len() < self.config.max_sessions || self.sessions.len() == 0 {
            return SpawnPlan { idle, reuse: false, victim: None };
        }
        let k: usize = self.least_recent();
        let ghost before = self.sessions@;
        let e: SessionEntry = self.sessions.remove(k);
        proof {
            assert(l[k as int].id == e.id@);
            assert(self@ =~= l.remove(k as int));
        }
        SpawnPlan { idle, reuse: false, victim: Some(e.id) }
    }

    /// A session's process was started or used at time `now`.
    pub fn touch(&mut self, session_id: &str, now: u64)
        ensures
            final(self).cap() == old(self).cap(),
            final(self).ttl() == old(self).ttl(),
            final(self)@ == with_session(
                old(self)@,
                EntryFacts { id: session_id@, last_used: now },
            ),
    {
        let ghost before = self@;
        let e: SessionEntry = SessionEntry { id: session_id.to_owned(), last_used: now };
        let ghost f = EntryFacts { id: session_id@, last_used: now };
        match self.find(session_id) {
            Some(i) => {
                self.sessions.set(i, e);
                assert(self@ =~= before.update(i as int, f));
            },
            None => {
                self.sessions.push(e);
                assert(self@ =~= before.push(f));
            },
        }
    }

    /// Drop all sessions, and return their ids.
    pub fn shutdown_all(&mut self) -> (gone: Vec<String>)
        ensures
            final(self)@.len() == 0,
            final(self).cap() == old(self).cap(),
            final(self).ttl() == old(self).ttl(),
            texts(gone@) == old(self)@.map_values(|e: EntryFacts| e.id),
    {
        let ghost all = self@;
        let mut gone: Vec<String> = Vec::new();
        let mut i: usize = 0;
        while i < self.sessions.len()
            invariant
                i <= self.sessions@.len(),
                self@ == all,
                all.len() == self.sessions@.len(),
                gone@.len() == i,
                forall|j: int| 0 <= j < i ==> (#[trigger] gone@[j])@ == all[j].id,
            decreases self.sessions.len() - i,
        {
            assert(all[i as int].id == self.sessions@[i as int].id@);
            gone.push(self.sessions[i].id.clone());
            i += 1;
        }
        assert(texts(gone@) =~= all.map_values(|e: EntryFacts| e.id));
        self.sessions = Vec::new();
        gone
    }
}

// ---------------------------------------------------------------------------
// Laws
// ---------------------------------------------------------------------------

proof fn lemma_live_len(s: Seq<EntryFacts>, now: u64, ttl: u64)
    ensures
        live(s, now, ttl).len() <= s.len(),
    decreases s.len(),
{
    if s.len() > 0 {
        lemma_live_len(s.drop_last(), now, ttl);
    }
}

proof fn lemma_position(s: Seq<EntryFacts>, id: Seq<char>, i: int)
    requires
        0 <= i,
    ensures
        match position_from(s, id, i) {
            Some(k) => i <= k < s.len() && s[k].id == id,
            None => true,
        },
    decreases s.len() - i,
{
    if i < s.len() && s[i].id != id {
        lemma_position(s, id, i + 1);
    }
}

proof fn lemma_stalest(s: Seq<EntryFacts>, n: int)
    requires
        1 <= n <= s.len(),
    ensures
        0 <= stalest(s, n) < n,
        forall|i: int| 0 <= i < n ==> s[stalest(s, n)].last_used <= (#[trigger] s[i]).last_used,
    decreases n,
{
    if n > 1 {
        lemma_stalest(s, n - 1);
    }
}

/// The cap holds: once there was room made for a session and it was started,
/// there are at most as many sessions as allowed, if there were before.
pub proof fn cap_is_kept(
    s: Seq<EntryFacts>,
    id: Seq<char>,
    now: u64,
    ttl: u64,
    max_sessions: usize,
)
    requires
        s.len() <= max_sessions,
        max_sessions > 0,
    ensures
        with_session(
            roomy(s, id, now, ttl, max_sessions),
            EntryFacts { id, last_used: now },
        ).len() <= max_sessions,
{
    lemma_live_len(s, now, ttl);
    let l = live(s, now, ttl);
    let r = roomy(s, id, now, ttl, max_sessions);
    lemma_position(l, id, 0);
    lemma_position(r, id, 0);
    if position_from(l, id, 0) is None && l.len() >= max_sessions {
        lemma_stalest(l, l.len() as int);
        assert(r.len() == l.len() - 1);
    }
}

/// The session that makes room was used no later than any other.
pub proof fn victim_is_least_recently_used(s: Seq<EntryFacts>, i: int)
    requires
        0 <= i < s.len(),
    ensures
        0 <= stalest(s, s.len() as int) < s.len(),
        s[stalest(s, s.len() as int)].last_used <= s[i].last_used,
{
    lemma_stalest(s, s.len() as int);
}

/// A retried conversation lands on the same session: requests without a
/// header and with equal model, system prompt and first user message do.
pub proof fn retry_reuses_the_session(a: MessagesRequest, b: MessagesRequest)
    requires
        a.model@ == b.model@,
        system_text_of(a.system) == system_text_of(b.system),
        first_user_from(a.messages@, 0) == first_user_from(b.messages@, 0),
    ensures
        session_of(None, a) == session_of(None, b),
{
}

/// Different conversations have different seeds, where neither model nor
/// system prompt holds the separator.
pub proof fn seeds_tell_conversations_apart(
    model: Seq<char>,
    system: Seq<char>,
    user: Seq<char>,
    other_model: Seq<char>,
    other_system: Seq<char>,
    other_user: Seq<char>,
)
    requires
        !model.contains(SEED_SEPARATOR),
        !other_model.contains(SEED_SEPARATOR),
        !system.contains(SEED_SEPARATOR),
        !other_system.contains(SEED_SEPARATOR),
        seed_of(model, system, user) == seed_of(other_model, other_system, other_user),
    ensures
        model == other_model,
        system == other_system,
        user == other_user,
{
    lemma_split_unique(
        model,
        system.push(SEED_SEPARATOR) + user,
        other_model,
        other_system.push(SEED_SEPARATOR) + other_user,
        SEED_SEPARATOR,
    );
    lemma_split_unique(system, user, other_system, other_user, SEED_SEPARATOR);
}

/// An empty header counts as none.
pub proof fn empty_header_counts_as_none(raw: Seq<char>, req: MessagesRequest)
    requires
        trimmed_space(raw).len() == 0,
    ensures
        session_of(Some(raw), req) == session_of(None, req),
{
}

proof fn lemma_live_member(s: Seq<EntryFacts>, now: u64, ttl: u64, i: int)
    requires
        0 <= i < s.len(),
    ensures
        is_idle(s[i], now, ttl) ==> idle(s, now, ttl).contains(s[i].id),
        !is_idle(s[i], now, ttl) ==> live(s, now, ttl).contains(s[i]),
    decreases s.len(),
{
    let short = s.drop_last();
    if i == s.len() - 1 {
        assert(s.last() == s[i]);
        if is_idle(s[i], now, ttl) {
            let g = idle(s, now, ttl);
            assert(g[g.len() - 1] == s[i].id);
        } else {
            let l = live(s, now, ttl);
            assert(l[l.len() - 1] == s[i]);
        }
    } else {
        assert(short[i] == s[i]);
        lemma_live_member(short, now, ttl, i);
        if is_idle(s[i], now, ttl) {
            let before = idle(short, now, ttl);
            let k = choose|k: int| 0 <= k < before.len() && before[k] == s[i].id;
            assert(idle(s, now, ttl)[k] == s[i].id);
        } else {
            let before = live(short, now, ttl);
            let k = choose|k: int| 0 <= k < before.len() && before[k] == s[i];
            assert(live(s, now, ttl)[k] == s[i]);
        }
    }
}

proof fn lemma_live_origin(s: Seq<EntryFacts>, now: u64, ttl: u64, k: int)
    requires
        0 <= k < live(s, now, ttl).len(),
    ensures
        s.contains(live(s, now, ttl)[k]),
        !is_idle(live(s, now, ttl)[k], now, ttl),
    decreases s.len(),
{
    if s.len() > 0 {
        let short = s.drop_last();
        let before = live(short, now, ttl);
        if k < before.len() {
            lemma_live_origin(short, now, ttl, k);
            let j = choose|j: int| 0 <= j < short.len() && short[j] == before[k];
            assert(s[j] == before[k]);
        } else {
            assert(s[s.len() - 1] == s.last());
        }
    }
}

/// A session is kept as long as its last use lies no further back than the
/// time to live, and is shut down once it does; without a time to live none is.
pub proof fn idle_sessions_are_shut_down(s: Seq<EntryFacts>, now: u64, ttl: u64, i: int, k: int)
    requires
        0 <= i < s.len(),
    ensures
        now <= s[i].last_used + ttl ==> live(s, now, ttl).contains(s[i]),
        ttl == 0 ==> live(s, now, ttl).contains(s[i]),
        ttl > 0 && now > s[i].last_used + ttl ==> idle(s, now, ttl).contains(s[i].id),
        0 <= k < live(s, now, ttl).len() && ttl > 0 ==> now <= live(s, now, ttl)[k].last_used
            + ttl,
        0 <= k < live(s, now, ttl).len() ==> s.contains(live(s, now, ttl)[k]),
{
    lemma_live_member(s, now, ttl, i);
    if 0 <= k < live(s, now, ttl).len() {
        lemma_live_origin(s, now, ttl, k);
    }
}

proof fn lemma_position_found(s: Seq<EntryFacts>, id: Seq<char>, i: int, k: int)
    requires
        0 <= i <= k < s.len(),
        s[k].id == id,
    ensures
        position_from(s, id, i) is Some,
    decreases s.len() - i,
{
    if s[i].id != id {
        lemma_position_found(s, id, i + 1, k);
    }
}

/// A session that was used within the time to live keeps its process, and no
/// other one makes room for it.
pub proof fn recent_session_is_reused(
    s: Seq<EntryFacts>,
    now: u64,
    ttl: u64,
    max_sessions: usize,
    i: int,
    r: SpawnPlan,
    after: Seq<EntryFacts>,
)
    requires
        0 <= i < s.len(),
        now <= s[i].last_used + ttl || ttl == 0,
        spawn_fits(s, s[i].id, now, ttl, max_sessions, r, after),
    ensures
        r.reuse,
        r.victim is None,
        after.contains(s[i]),
{
    lemma_live_member(s, now, ttl, i);
    let l = live(s, now, ttl);
    let k = choose|k: int| 0 <= k < l.len() && l[k] == s[i];
    lemma_position_found(l, s[i].id, 0, k);
}

/// A new session starts a process of its own. Below the cap nobody makes room
/// for it; at the cap the session does that was not used for longest.
pub proof fn new_session_gets_a_process(
    s: Seq<EntryFacts>,
    id: Seq<char>,
    now: u64,
    max_sessions: usize,
    r: SpawnPlan,
    after: Seq<EntryFacts>,
    k: int,
)
    requires
        forall|i: int| 0 <= i < s.len() ==> (#[trigger] s[i]).id != id,
        spawn_fits(s, id, now, 0, max_sessions, r, after),
        0 <= k < s.len(),
        max_sessions > 0,
    ensures
        !r.reuse,
        s.len() < max_sessions ==> r.victim is None && after.len() == s.len(),
        s.len() >= max_sessions ==> r.victim is Some && after.len() == s.len() - 1 && (exists|v: int|
            0 <= v < s.len() && (#[trigger] s[v]).id == r.victim->0@ && s[v].last_used
                <= s[k].last_used && after == s.remove(v)),
{
    lemma_nobody_idle(s, now);
    lemma_position(s, id, 0);
    if s.len() >= max_sessions {
        lemma_stalest(s, s.len() as int);
        let v = stalest(s, s.len() as int);
        assert(s[v].id == r.victim->0@);
        assert(s[v].last_used <= s[k].last_used);
    }
}

proof fn lemma_nobody_idle(s: Seq<EntryFacts>, now: u64)
    ensures
        live(s, now, 0) == s,
    decreases s.len(),
{
    if s.len() > 0 {
        lemma_nobody_idle(s.drop_last(), now);
        assert(live(s, now, 0) =~= s);
    } else {
        assert(live(s, now, 0) =~= s);
    }
}

/// A use of a session is remembered, with its time, once; the other sessions
/// stay as they were.
pub proof fn use_is_remembered(s: Seq<EntryFacts>, id: Seq<char>, now: u64, i: int)
    requires
        0 <= i < s.len(),
    ensures
        ({
            let w = with_session(s, EntryFacts { id, last_used: now });
            &&& w.contains(EntryFacts { id, last_used: now })
            &&& s[i].id != id ==> w[i] == s[i]
            &&& s[i].id == id ==> w.len() == s.len()
        }),
{
    let e = EntryFacts { id, last_used: now };
    let w = with_session(s, e);
    lemma_position(s, id, 0);
    match position_from(s, id, 0) {
        Some(k) => {
            assert(w[k] == e);
        },
        None => {
            assert(w[s.len() as int] == e);
            if s[i].id == id {
                lemma_position_found(s, id, 0, i);
            }
        },
    }
}

/// A header that is a UUID names the session as it stands, but for the space
/// around it; any other text names one of its own, whatever the request says.
pub proof fn header_names_the_session(raw: Seq<char>, a: MessagesRequest, b: MessagesRequest)
    requires
        trimmed_space(raw).len() > 0,
    ensures
        session_of(Some(raw), a) == session_of(Some(raw), b),
        uuid_value(trimmed_space(raw)) is Some ==> session_of(Some(raw), a) == trimmed_space(raw),
        uuid_value(trimmed_space(raw)) is None ==> session_of(Some(raw), a) == uuid_text(
            seeded_uuid(trimmed_space(raw)),
        ),
{
}

/// What the user said first counts, however the conversation goes on; what
/// was said by others before does not.
pub proof fn first_user_message_counts(
    messages: Seq<MessagesMessage>,
    more: Seq<MessagesMessage>,
    m: MessagesMessage,
)
    requires
        forall|i: int|
            0 <= i < messages.len() ==> (#[trigger] messages[i]).role == MessagesRole::Assistant,
        m.role == MessagesRole::User,
    ensures
        first_user_from(messages.push(m) + more, 0) == content_text_of(m.content),
        first_user_from(messages, 0) == Seq::<char>::empty(),
{
    lemma_first_user(messages, m, more, 0);
    lemma_no_user(messages, 0);
}

proof fn lemma_first_user(
    messages: Seq<MessagesMessage>,
    m: MessagesMessage,
    more: Seq<MessagesMessage>,
    i: int,
)
    requires
        0 <= i <= messages.len(),
        forall|j: int|
            0 <= j < messages.len() ==> (#[trigger] messages[j]).role == MessagesRole::Assistant,
        m.role == MessagesRole::User,
    ensures
        first_user_from(messages.push(m) + more, i) == content_text_of(m.content),
    decreases messages.len() - i,
{
    let all = messages.push(m) + more;
    if i < messages.len() {
        assert(all[i] == messages[i]);
        lemma_first_user(messages, m, more, i + 1);
    } else {
        assert(all[i] == m);
    }
}

proof fn lemma_no_user(messages: Seq<MessagesMessage>, i: int)
    requires
        0 <= i <= messages.len(),
        forall|j: int|
            0 <= j < messages.len() ==> (#[trigger] messages[j]).role == MessagesRole::Assistant,
    ensures
        first_user_from(messages, i) == Seq::<char>::empty(),
    decreases messages.len() - i,
{
    if i < messages.len() {
        lemma_no_user(messages, i + 1);
    }
}

/// Of blocks the texts are read, in order, a line each; other blocks are not.
pub proof fn blocks_are_read_line_by_line(
    blocks: Seq<MessagesContentBlock>,
    a: String,
    b: String,
)
    ensures
        block_texts(blocks.push(MessagesContentBlock::Other)) == block_texts(blocks),
        block_texts(blocks.push(MessagesContentBlock::Text { text: a })) == block_texts(
            blocks,
        ).push(a@),
        blocks_text(
            seq![
                MessagesContentBlock::Text { text: a },
                MessagesContentBlock::Other,
                MessagesContentBlock::Text { text: b },
            ],
        ) == a@ + "\n"@ + b@,
{
    assert(blocks.push(MessagesContentBlock::Other).drop_last() =~= blocks);
    assert(blocks.push(MessagesContentBlock::Text { text: a }).drop_last() =~= blocks);
    let one = seq![MessagesContentBlock::Text { text: a }];
    let two = one.push(MessagesContentBlock::Other);
    let all = two.push(MessagesContentBlock::Text { text: b });
    assert(seq![
        MessagesContentBlock::Text { text: a },
        MessagesContentBlock::Other,
        MessagesContentBlock::Text { text: b },
    ] =~= all);
    assert(all.drop_last() =~= two);
    assert(two.drop_last() =~= one);
    assert(one.drop_last() =~= Seq::empty());
    assert(block_texts(Seq::<MessagesContentBlock>::empty()) =~= Seq::empty());
    assert(block_texts(one) =~= seq![a@]);
    assert(block_texts(two) =~= seq![a@]);
    assert(block_texts(all) =~= seq![a@, b@]);
    reveal_with_fuel(joined, 3);
    assert(seq![a@, b@].drop_last() =~= seq![a@]);
    assert(joined(block_texts(all), "\n"@) =~= a@ + "\n"@ + b@);
}

} // verus!
