//! External HTTP routing policy provider.
//!
//! Routing policies come from an external HTTP endpoint, with caching: policies
//! are cached by `policy_id` with revision-aware invalidation.

use crate::encoding::{percent_encoded, url_encode};
use crate::json::members_view;
use crate::router::preferences::{clone_usages, usages, ModelUsagePreference};
use crate::text::{concat2, concat3, numeral, same_text, to_decimal};
use vstd::hash_map::StringHashMap;
use vstd::prelude::*;
use vstd::string::StringExecFns;
use vstd::utf8::encode_utf8;

verus! {

pub const DEFAULT_TTL_SECONDS: u64 = 300;

/// Configuration for the external HTTP policy provider.
#[derive(Debug)]
pub struct PolicyProviderConfig {
    /// URL of the external policy endpoint.
    pub url: String,
    /// Headers to send with requests.
    pub headers: Vec<(String, String)>,
    /// Cache time to live in seconds.
    pub ttl_seconds: u64,
}

impl Default for PolicyProviderConfig {
    fn default() -> (r: Self)
        ensures
            r.url@ == Seq::<char>::empty(),
            r.headers@.len() == 0,
            r.ttl_seconds == DEFAULT_TTL_SECONDS,
    {
        let url: String = String::new();
        assert(url@ =~= Seq::empty());
        PolicyProviderConfig { url, headers: Vec::new(), ttl_seconds: DEFAULT_TTL_SECONDS }
    }
}

/// Response from the external policy endpoint.
#[derive(Debug)]
pub struct PolicyResponse {
    pub policy_id: String,
    pub revision: u64,
    pub schema_version: String,
    pub routing_preferences: Vec<ModelUsagePreference>,
}

/// Cached policy entry with revision and expiration.
#[derive(Debug)]
pub struct CachedPolicy {
    pub policy: Vec<ModelUsagePreference>,
    pub revision: u64,
    /// In milliseconds.
    pub cached_at: u64,
    /// In seconds.
    pub ttl: u64,
}

impl CachedPolicy {
    /// Whether the entry is older than its time to live, at time `now` (milliseconds).
    pub open spec fn expired(&self, now: u64) -> bool {
        now > self.cached_at + self.ttl * 1000
    }

    /// Whether the entry is older than its time to live, at time `now` (milliseconds).
    pub fn is_expired(&self, now: u64) -> (b: bool)
        ensures
            b == self.expired(now),
    {
        now as u128 > self.cached_at as u128 + self.ttl as u128 * 1000
    }

    /// Whether the entry answers a request for a revision.
    pub open spec fn answers(&self, revision: u64, now: u64) -> bool {
        !self.expired(now) && self.revision >= revision
    }
}

#[derive(Debug)]
pub enum PolicyProviderError {
    Http(String),
    Parse(String),
    UnsupportedSchemaVersion(String),
    PolicyIdMismatch { expected: String, actual: String },
    NotConfigured,
}

impl PolicyProviderError {
    /// The error in words.
    pub fn message(&self) -> (r: String)
        ensures
            r@ == (match *self {
                PolicyProviderError::Http(m) => "HTTP request failed: "@ + m@,
                PolicyProviderError::Parse(m) => "Failed to parse policy response: "@ + m@,
                PolicyProviderError::UnsupportedSchemaVersion(m) => "Unsupported schema version: "@
                    + m@,
                PolicyProviderError::PolicyIdMismatch { expected, actual } =>
                    "Policy ID mismatch: expected "@ + expected@ + ", got "@ + actual@,
                PolicyProviderError::NotConfigured => "No policy provider configured"@,
            }),
    {
        match self {
            PolicyProviderError::Http(m) => concat2("HTTP request failed: ", m.as_str()),
            PolicyProviderError::Parse(m) => concat2(
                "Failed to parse policy response: ",
                m.as_str(),
            ),
            PolicyProviderError::UnsupportedSchemaVersion(m) => concat2(
                "Unsupported schema version: ",
                m.as_str(),
            ),
            PolicyProviderError::PolicyIdMismatch { expected, actual } => {
                let mut r: String = concat3(
                    "Policy ID mismatch: expected ",
                    expected.as_str(),
                    ", got ",
                );
                r.append(actual.as_str());
                r
            },
            PolicyProviderError::NotConfigured => "No policy provider configured".to_owned(),
        }
    }
}

/// What the endpoint answered.
#[derive(Debug)]
pub enum PolicyReply {
    /// The request failed.
    Failed { error: String },
    /// A status other than success, with its text and the body.
    Status { status: String, body: String },
    /// A body that is no policy.
    Malformed { error: String },
    /// A policy.
    Policy(PolicyResponse),
}

/// How a policy is come by.
#[derive(Debug)]
pub enum PolicyLookup {
    /// From the cache.
    Cached(Vec<ModelUsagePreference>),
    /// By a request to this url.
    Fetch { url: String },
}

/// The url a policy is fetched from.
pub open spec fn policy_url(base: Seq<char>, policy_id: Seq<char>, revision: u64) -> Seq<char> {
    base + "?policy_id="@ + percent_encoded(encode_utf8(policy_id)) + "&revision="@ + numeral(
        revision as nat,
    )
}

/// External HTTP routing policy provider with caching.
pub struct PolicyProvider {
    config: PolicyProviderConfig,
    cache: StringHashMap<CachedPolicy>,
}

impl View for PolicyProvider {
    type V = Map<Seq<char>, CachedPolicy>;

    closed spec fn view(&self) -> Map<Seq<char>, CachedPolicy> {
        self.cache@
    }
}

/// Why a reply is refused, if it is.
pub open spec fn refuses(policy_id: Seq<char>, reply: PolicyReply, e: PolicyProviderError) -> bool {
    match reply {
        PolicyReply::Failed { error } => match e {
            PolicyProviderError::Http(m) => m@ == error@,
            _ => false,
        },
        PolicyReply::Status { status, body } => match e {
            PolicyProviderError::Parse(m) => m@ == "HTTP "@ + status@ + " from policy endpoint: "@
                + body@,
            _ => false,
        },
        PolicyReply::Malformed { error } => match e {
            PolicyProviderError::Parse(m) => m@ == "Failed to parse JSON response: "@ + error@,
            _ => false,
        },
        PolicyReply::Policy(p) => match e {
            PolicyProviderError::UnsupportedSchemaVersion(m) => p.schema_version@ != "v1"@ && m@
                == p.schema_version@,
            PolicyProviderError::PolicyIdMismatch { expected, actual } => p.schema_version@
                == "v1"@ && p.policy_id@ != policy_id && expected@ == policy_id && actual@
                == p.policy_id@,
            _ => false,
        },
    }
}

/// Whether a reply is a policy for the given id.
pub open spec fn accepts(policy_id: Seq<char>, reply: PolicyReply) -> bool {
    match reply {
        PolicyReply::Policy(p) => p.schema_version@ == "v1"@ && p.policy_id@ == policy_id,
        _ => false,
    }
}

/// Whether `r` is how a policy is come by.
pub open spec fn lookup_fits(
    base: Seq<char>,
    cache: Map<Seq<char>, CachedPolicy>,
    policy_id: Seq<char>,
    revision: u64,
    now: u64,
    r: Result<Option<PolicyLookup>, PolicyProviderError>,
) -> bool {
    let cached = cache.contains_key(policy_id) && cache[policy_id].answers(revision, now);
    match r {
        Err(_) => false,
        Ok(None) => base.len() == 0,
        Ok(Some(PolicyLookup::Cached(v))) => base.len() > 0 && cached && usages(v@) == usages(
            cache[policy_id].policy@,
        ),
        Ok(Some(PolicyLookup::Fetch { url })) => base.len() > 0 && !cached && url@ == policy_url(
            base,
            policy_id,
            revision,
        ),
    }
}

/// Whether `r` is the policy out of a reply, and `after` the cache with it.
pub open spec fn fetch_fits(
    policy_id: Seq<char>,
    reply: PolicyReply,
    before: Map<Seq<char>, CachedPolicy>,
    ttl: u64,
    now: u64,
    r: Result<Vec<ModelUsagePreference>, PolicyProviderError>,
    after: Map<Seq<char>, CachedPolicy>,
) -> bool {
    match r {
        Ok(v) => {
            &&& accepts(policy_id, reply)
            &&& usages(v@) == usages(reply->Policy_0.routing_preferences@)
            &&& after.contains_key(policy_id)
            &&& after == before.insert(policy_id, after[policy_id])
            &&& is_entry_for(after[policy_id], reply->Policy_0, ttl, now)
        },
        Err(e) => {
            &&& !accepts(policy_id, reply)
            &&& refuses(policy_id, reply, e)
            &&& after == before
        },
    }
}

fn check_reply(policy_id: &str, reply: PolicyReply) -> (r: Result<
    PolicyResponse,
    PolicyProviderError,
>)
    ensures
        match r {
            Ok(p) => reply == PolicyReply::Policy(p) && accepts(policy_id@, reply),
            Err(e) => refuses(policy_id@, reply, e) && !accepts(policy_id@, reply),
        },
{
    match reply {
        PolicyReply::Failed { error } => Err(PolicyProviderError::Http(error)),
        PolicyReply::Status { status, body } => {
            let mut m: String = concat3("HTTP ", status.as_str(), " from policy endpoint: ");
            m.append(body.as_str());
            Err(PolicyProviderError::Parse(m))
        },
        PolicyReply::Malformed { error } => Err(
            PolicyProviderError::Parse(
                concat2("Failed to parse JSON response: ", error.as_str()),
            ),
        ),
        PolicyReply::Policy(p) => {
            if !same_text(p.schema_version.as_str(), "v1") {
                return Err(PolicyProviderError::UnsupportedSchemaVersion(p.schema_version));
            }
            if !same_text(p.policy_id.as_str(), policy_id) {
                return Err(
                    PolicyProviderError::PolicyIdMismatch {
                        expected: policy_id.to_owned(),
                        actual: p.policy_id,
                    },
                );
            }
            Ok(p)
        },
    }
}

impl PolicyProvider {
    /// The url of the endpoint.
    pub closed spec fn url(&self) -> Seq<char> {
        self.config.url@
    }

    /// How long a policy is cached, in seconds.
    pub closed spec fn ttl(&self) -> u64 {
        self.config.ttl_seconds
    }

    /// The headers that are sent to the endpoint, by name and value.
    pub closed spec fn header_texts(&self) -> Seq<(Seq<char>, Seq<char>)> {
        members_view(self.config.headers@)
    }

    /// The headers that are sent to the endpoint.
    pub fn headers(&self) -> (r: &Vec<(String, String)>)
        ensures
            members_view(r@) == self.header_texts(),
    {
        &self.config.headers
    }

    /// A provider with an empty cache.
    pub fn new(config: PolicyProviderConfig) -> (r: Self)
        ensures
            r@ == Map::<Seq<char>, CachedPolicy>::empty(),
            r.url() == config.url@,
            r.ttl() == config.ttl_seconds,
            r.header_texts() == members_view(config.headers@),
    {
        PolicyProvider { config, cache: StringHashMap::new() }
    }

    /// How the routing policy for the given id and revision is come by, at
    /// time `now` (milliseconds).
    ///
    /// Resolution order:
    /// 1. If cached and cached revision >= requested revision, use cache
    /// 2. Otherwise, fetch from external endpoint
    ///
    /// Returns `None` if the provider is not configured: then nothing is fetched.
    pub fn get_policy(&self, policy_id: &str, revision: Option<u64>, now: u64) -> (r: Result<
        Option<PolicyLookup>,
        PolicyProviderError,
    >)
        ensures
            lookup_fits(
                self.url(),
                self@,
                policy_id@,
                match revision {
                    Some(n) => n,
                    None => 0,
                },
                now,
                r,
            ),
    {
        if self.config.url.as_str().is_empty() {
            return Ok(None);
        }
        let wanted: u64 = match revision {
            Some(n) => n,
            None => 0,
        };
        if let Some(cached) = self.cache.get(policy_id) {
            if !cached.is_expired(now) && cached.revision >= wanted {
                return Ok(Some(PolicyLookup::Cached(clone_usages(&cached.policy))));
            }
        }
        let mut url: String = concat2(self.config.url.as_str(), "?policy_id=");
        url.append(url_encode(policy_id).as_str());
        url.append("&revision=");
        url.append(to_decimal(wanted as u128).as_str());
        Ok(Some(PolicyLookup::Fetch { url }))
    }

    /// The routing policy out of the endpoint's reply, which is cached at
    /// time `now` (milliseconds). A reply that is refused leaves the cache as it was.
    pub fn fetch_policy(&mut self, policy_id: &str, reply: PolicyReply, now: u64) -> (r: Result<
        Vec<ModelUsagePreference>,
        PolicyProviderError,
    >)
        ensures
            final(self).url() == old(self).url(),
            final(self).ttl() == old(self).ttl(),
            final(self).header_texts() == old(self).header_texts(),
            fetch_fits(policy_id@, reply, old(self)@, old(self).ttl(), now, r, final(self)@),
    {
        match check_reply(policy_id, reply) {
            Ok(response) => {
                let entry: CachedPolicy = CachedPolicy {
                    policy: clone_usages(&response.routing_preferences),
                    revision: response.revision,
                    cached_at: now,
                    ttl: self.config.ttl_seconds,
                };
                self.cache.insert(policy_id.to_owned(), entry);
                Ok(response.routing_preferences)
            },
            Err(e) => Err(e),
        }
    }

    /// Clears the cache for a specific policy_id or all policies.
    pub fn clear_cache(&mut self, policy_id: Option<&str>)
        ensures
            final(self).url() == old(self).url(),
            final(self).ttl() == old(self).ttl(),
            final(self).header_texts() == old(self).header_texts(),
            final(self)@ == (match policy_id {
                Some(id) => old(self)@.remove(id@),
                None => Map::empty(),
            }),
    {
        match policy_id {
            Some(id) => {
                self.cache.remove(id);
            },
            None => {
                self.cache.clear();
            },
        }
    }
}

/// Whether an entry holds a response, cached at a time.
pub open spec fn is_entry_for(
    entry: CachedPolicy,
    response: PolicyResponse,
    ttl: u64,
    now: u64,
) -> bool {
    &&& usages(entry.policy@) == usages(response.routing_preferences@)
    &&& entry.revision == response.revision
    &&& entry.cached_at == now
    &&& entry.ttl == ttl
}

/// A policy that was received is served from the cache until its time is
/// over, to every request for its revision or an earlier one, and to no other.
pub proof fn received_policy_is_served(
    entry: CachedPolicy,
    response: PolicyResponse,
    ttl: u64,
    now: u64,
    later: u64,
    revision: u64,
)
    requires
        is_entry_for(entry, response, ttl, now),
    ensures
        entry.answers(revision, later) == (later <= now + ttl * 1000 && revision
            <= response.revision),
{
}

/// A policy in the known version and of the asked id is taken, and no request
/// is made for it or an earlier revision until its time is over.
pub proof fn fetched_policy_saves_a_request(
    base: Seq<char>,
    policy_id: Seq<char>,
    policy: PolicyResponse,
    before: Map<Seq<char>, CachedPolicy>,
    ttl: u64,
    now: u64,
    r: Result<Vec<ModelUsagePreference>, PolicyProviderError>,
    after: Map<Seq<char>, CachedPolicy>,
    revision: u64,
    later: u64,
    found: Result<Option<PolicyLookup>, PolicyProviderError>,
)
    requires
        fetch_fits(policy_id, PolicyReply::Policy(policy), before, ttl, now, r, after),
        lookup_fits(base, after, policy_id, revision, later, found),
        policy.policy_id@ == policy_id,
        policy.schema_version@ == "v1"@,
        base.len() > 0,
    ensures
        r is Ok,
        usages(r->Ok_0@) == usages(policy.routing_preferences@),
        later <= now + 1000 * ttl && revision <= policy.revision ==> (found matches Ok(
            Some(PolicyLookup::Cached(v)),
        ) && usages(v@) == usages(policy.routing_preferences@)),
        later > now + 1000 * ttl || revision > policy.revision ==> (found matches Ok(
            Some(PolicyLookup::Fetch { .. }),
        )),
        DEFAULT_TTL_SECONDS == 300,
{
}

/// A refused reply says why: the transport first, then the status and the
/// body, then the version, then the id. The cache stays as it was, and other
/// policies stay whatever was fetched.
pub proof fn refusals_leave_the_cache_alone(
    policy_id: Seq<char>,
    other: Seq<char>,
    reply: PolicyReply,
    before: Map<Seq<char>, CachedPolicy>,
    ttl: u64,
    now: u64,
    r: Result<Vec<ModelUsagePreference>, PolicyProviderError>,
    after: Map<Seq<char>, CachedPolicy>,
)
    requires
        fetch_fits(policy_id, reply, before, ttl, now, r, after),
        other != policy_id,
    ensures
        r is Err ==> after == before,
        after.contains_key(other) == before.contains_key(other),
        before.contains_key(other) ==> after[other] == before[other],
        reply is Failed ==> (r matches Err(PolicyProviderError::Http(m)) && m@
            == reply->Failed_error@),
        reply is Status || reply is Malformed ==> (r matches Err(PolicyProviderError::Parse(_))),
        reply is Policy && reply->Policy_0.schema_version@ != "v1"@ ==> (r matches Err(
            PolicyProviderError::UnsupportedSchemaVersion(m),
        ) && m@ == reply->Policy_0.schema_version@),
        reply is Policy && reply->Policy_0.schema_version@ == "v1"@ && reply->Policy_0.policy_id@
            != policy_id ==> (r matches Err(
            PolicyProviderError::PolicyIdMismatch { expected, actual },
        ) && expected@ == policy_id && actual@ == reply->Policy_0.policy_id@),
{
}

/// Without an endpoint nothing is looked up; with one, what is not cached is
/// asked for under its id and revision.
pub proof fn endpoint_is_asked_for_the_revision(
    base: Seq<char>,
    cache: Map<Seq<char>, CachedPolicy>,
    policy_id: Seq<char>,
    revision: u64,
    now: u64,
    found: Result<Option<PolicyLookup>, PolicyProviderError>,
)
    requires
        lookup_fits(base, cache, policy_id, revision, now, found),
        !cache.contains_key(policy_id),
    ensures
        base.len() == 0 ==> (found matches Ok(None)),
        base.len() > 0 ==> (found matches Ok(Some(PolicyLookup::Fetch { url })) && {
            let tail = "&revision="@ + numeral(revision as nat);
            &&& url@.len() >= base.len() + tail.len()
            &&& url@.take(base.len() as int) == base
            &&& url@.skip(url@.len() - tail.len()) == tail
            &&& url@.subrange(base.len() as int, url@.len() - tail.len()) == "?policy_id="@
                + percent_encoded(encode_utf8(policy_id))
        }),
{
    if base.len() > 0 {
        let url = policy_url(base, policy_id, revision);
        let tail = "&revision="@ + numeral(revision as nat);
        assert(url.take(base.len() as int) =~= base);
        assert(url.skip(url.len() - tail.len()) =~= tail);
        assert(url.subrange(base.len() as int, url.len() - tail.len()) =~= "?policy_id="@
            + percent_encoded(encode_utf8(policy_id)));
    }
}

} // verus!
