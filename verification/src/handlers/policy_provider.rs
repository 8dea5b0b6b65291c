//! Routing policies from an external provider, for one gateway.

use crate::expiring_map::{current, size_is_number_of_keys, ExpiringMap, Stamped};
use crate::json::members_view;
use crate::router::headers::{
    header_name_fault, header_value_fault, is_header_name, is_header_value,
};
use crate::router::orchestrator::{millis, to_millis};
use crate::router::preferences::{clone_usages, usages, ModelUsagePreference};
use crate::text::{ascii_lowercase, concat2, concat3, same_text, to_ascii_lower};
use vstd::prelude::*;
use vstd::string::StringExecFns;

verus! {

pub const DEFAULT_POLICY_TTL_SECONDS: u64 = 300;

/// Why a policy could not be had: for now, or at all.
#[derive(Debug)]
pub enum PolicyFetchError {
    Transient(String),
    Invalid(String),
}

impl PolicyFetchError {
    /// The error in words.
    pub open spec fn text(&self) -> Seq<char> {
        match *self {
            PolicyFetchError::Transient(m) => m@,
            PolicyFetchError::Invalid(m) => m@,
        }
    }

    /// Whether another try may succeed.
    pub fn is_transient(&self) -> (b: bool)
        ensures
            b == (self is Transient),
    {
        match self {
            PolicyFetchError::Transient(_) => true,
            PolicyFetchError::Invalid(_) => false,
        }
    }

    /// The error in words.
    pub fn message(&self) -> (r: &str)
        ensures
            r@ == self.text(),
    {
        match self {
            PolicyFetchError::Transient(m) => m.as_str(),
            PolicyFetchError::Invalid(m) => m.as_str(),
        }
    }
}

/// What the provider answered.
#[derive(Debug)]
pub enum ProviderReply {
    /// The request failed.
    Failed { error: String },
    /// A status, with its text, and what the body held.
    Answered { code: u16, status: String, payload: Result<ExternalPolicyResponse, String> },
}

/// A policy as the provider sends it.
#[derive(Debug)]
pub struct ExternalPolicyResponse {
    pub policy_id: String,
    pub routing_preferences: Vec<ModelUsagePreference>,
}

/// Whether a status is a success.
pub open spec fn is_success(code: u16) -> bool {
    200 <= code < 300
}

/// Whether a status blames the server.
pub open spec fn is_server_error(code: u16) -> bool {
    500 <= code < 600
}

/// Whether a reply holds the policy of the given id.
pub open spec fn answers_with_policy(policy_id: Seq<char>, reply: ProviderReply) -> bool {
    match reply {
        ProviderReply::Answered { code, payload: Ok(p), .. } => is_success(code) && p.policy_id@
            == policy_id,
        _ => false,
    }
}

/// The mismatch of ids in words.
pub open spec fn mismatch_text(expected: Seq<char>, actual: Seq<char>) -> Seq<char> {
    "policy_id mismatch in provider response: expected '"@ + expected + "', got '"@ + actual + "'"@
}

/// Whether an error is the one for a reply.
pub open spec fn is_error_for(policy_id: Seq<char>, reply: ProviderReply, e: PolicyFetchError) -> bool {
    match reply {
        ProviderReply::Failed { error } => e is Transient && e.text() == "policy fetch failed: "@
            + error@,
        ProviderReply::Answered { code, status, payload } => if is_server_error(code) {
            e is Transient && e.text() == "policy provider returned "@ + status@
        } else if !is_success(code) {
            e is Invalid && e.text() == "policy provider returned non-success status "@ + status@
        } else {
            match payload {
                Err(error) => e is Invalid && e.text() == "invalid policy payload: "@ + error@,
                Ok(p) => e is Invalid && p.policy_id@ != policy_id && e.text() == mismatch_text(
                    policy_id,
                    p.policy_id@,
                ),
            }
        },
    }
}

fn check_reply(policy_id: &str, reply: ProviderReply) -> (r: Result<
    ExternalPolicyResponse,
    PolicyFetchError,
>)
    ensures
        match r {
            Ok(p) => {
                &&& answers_with_policy(policy_id@, reply)
                &&& reply->payload == Ok::<ExternalPolicyResponse, String>(p)
            },
            Err(e) => !answers_with_policy(policy_id@, reply) && is_error_for(
                policy_id@,
                reply,
                e,
            ),
        },
{
    match reply {
        ProviderReply::Failed { error } => Err(
            PolicyFetchError::Transient(concat2("policy fetch failed: ", error.as_str())),
        ),
        ProviderReply::Answered { code, status, payload } => {
            if 500 <= code && code < 600 {
                return Err(
                    PolicyFetchError::Transient(
                        concat2("policy provider returned ", status.as_str()),
                    ),
                );
            }
            if code < 200 || code >= 300 {
                return Err(
                    PolicyFetchError::Invalid(
                        concat2("policy provider returned non-success status ", status.as_str()),
                    ),
                );
            }
            match payload {
                Err(error) => Err(
                    PolicyFetchError::Invalid(concat2("invalid policy payload: ", error.as_str())),
                ),
                Ok(p) => {
                    if same_text(p.policy_id.as_str(), policy_id) {
                        return Ok(p);
                    }
                    let mut m: String = concat3(
                        "policy_id mismatch in provider response: expected '",
                        policy_id,
                        "', got '",
                    );
                    m.append(p.policy_id.as_str());
                    m.append("'");
                    Err(PolicyFetchError::Invalid(m))
                },
            }
        },
    }
}

/// Whether `r` is the policy out of a reply, and `after` what the cache holds
/// with it.
pub open spec fn fetch_fits(
    policy_id: Seq<char>,
    reply: ProviderReply,
    before: Map<Seq<char>, Stamped<Vec<ModelUsagePreference>>>,
    size: nat,
    ttl: u64,
    now: u64,
    r: Result<Vec<ModelUsagePreference>, PolicyFetchError>,
    after: Map<Seq<char>, Stamped<Vec<ModelUsagePreference>>>,
    new_size: nat,
) -> bool {
    match r {
        Ok(v) => {
            &&& answers_with_policy(policy_id, reply)
            &&& usages(v@) == usages((reply->payload)->Ok_0.routing_preferences@)
            &&& after.contains_key(policy_id)
            &&& size < usize::MAX ==> after == before.insert(policy_id, after[policy_id])
            &&& new_size == size + (if before.contains_key(policy_id) || size >= usize::MAX {
                0int
            } else {
                1
            })
            &&& usages(after[policy_id].value@) == usages(v@)
            &&& after[policy_id].stored_at == now
            &&& after[policy_id].ttl == millis(ttl)
        },
        Err(e) => {
            &&& !answers_with_policy(policy_id, reply)
            &&& is_error_for(policy_id, reply, e)
            &&& after == before
            &&& new_size == size
        },
    }
}

/// Whether a configured header can be sent.
pub open spec fn is_sendable(header: (Seq<char>, Seq<char>)) -> bool {
    is_header_name(header.0) && is_header_value(header.1)
}

/// What is wrong with a header that cannot be sent: its name, else its value.
pub open spec fn header_fault(header: (Seq<char>, Seq<char>)) -> Seq<char> {
    if !is_header_name(header.0) {
        "invalid header name '"@ + header.0 + "' in routing.policy_provider.headers: "@
            + "invalid HTTP header name"@
    } else {
        "invalid header value for '"@ + header.0 + "' in routing.policy_provider.headers: "@
            + "failed to parse header value"@
    }
}

/// Whether a list of headers holds one that cannot be sent, at `i` the first.
pub open spec fn first_unsendable(headers: Seq<(Seq<char>, Seq<char>)>, i: int) -> bool {
    &&& 0 <= i < headers.len()
    &&& !is_sendable(headers[i])
    &&& forall|j: int| 0 <= j < i ==> is_sendable(#[trigger] headers[j])
}

/// Headers without those of one name.
pub open spec fn without_name(headers: Seq<(Seq<char>, Seq<char>)>, name: Seq<char>) -> Seq<
    (Seq<char>, Seq<char>),
>
    decreases headers.len(),
{
    if headers.len() == 0 {
        Seq::empty()
    } else {
        let rest = without_name(headers.drop_last(), name);
        if headers.last().0 == name { rest } else { rest.push(headers.last()) }
    }
}

/// Headers by name: the case of a name does not matter, and of several
/// headers of one name the last one counts.
pub open spec fn header_map(headers: Seq<(Seq<char>, Seq<char>)>) -> Seq<(Seq<char>, Seq<char>)>
    decreases headers.len(),
{
    if headers.len() == 0 {
        Seq::empty()
    } else {
        let (name, value) = headers.last();
        without_name(header_map(headers.drop_last()), ascii_lowercase(name)).push(
            (ascii_lowercase(name), value),
        )
    }
}

fn drop_name(headers: &Vec<(String, String)>, name: &str) -> (r: Vec<(String, String)>)
    ensures
        members_view(r@) == without_name(members_view(headers@), name@),
{
    let ghost all = members_view(headers@);
    let mut r: Vec<(String, String)> = Vec::new();
    let mut i: usize = 0;
    assert(members_view(r@) =~= without_name(all.take(0), name@));
    while i < headers.len()
        invariant
            i <= headers.len(),
            all == members_view(headers@),
            members_view(r@) == without_name(all.take(i as int), name@),
        decreases headers.len() - i,
    {
        let ghost cut = all.take(i + 1);
        assert(cut.drop_last() =~= all.take(i as int));
        assert(cut.last() == all[i as int]);
        if !same_text(headers[i].0.as_str(), name) {
            let ghost before = members_view(r@);
            r.push((headers[i].0.clone(), headers[i].1.clone()));
            assert(members_view(r@) =~= before.push(all[i as int]));
        }
        i += 1;
    }
    assert(all.take(headers@.len() as int) =~= all);
    r
}

/// The headers that are sent to the provider: the configured ones by name, if
/// all of them can be sent. The first that cannot refuses the request for good.
pub fn build_headers(headers: &Vec<(String, String)>) -> (r: Result<
    Vec<(String, String)>,
    PolicyFetchError,
>)
    ensures
        match r {
            Ok(v) => {
                &&& members_view(v@) == header_map(members_view(headers@))
                &&& forall|i: int|
                    0 <= i < headers@.len() ==> is_sendable(
                        #[trigger] members_view(headers@)[i],
                    )
            },
            Err(e) => e is Invalid && exists|i: int| #[trigger]
                first_unsendable(members_view(headers@), i) && e.text() == header_fault(
                    members_view(headers@)[i],
                ),
        },
{
    let ghost all = members_view(headers@);
    let mut r: Vec<(String, String)> = Vec::new();
    let mut i: usize = 0;
    assert(members_view(r@) =~= header_map(all.take(0)));
    while i < headers.len()
        invariant
            i <= headers.len(),
            all == members_view(headers@),
            members_view(r@) == header_map(all.take(i as int)),
            forall|j: int| 0 <= j < i ==> is_sendable(#[trigger] all[j]),
        decreases headers.len() - i,
    {
        let name: &str = headers[i].0.as_str();
        let value: &str = headers[i].1.as_str();
        let ghost cut = all.take(i + 1);
        assert(cut.drop_last() =~= all.take(i as int));
        assert(cut.last() == (name@, value@));
        assert(all[i as int] == (name@, value@));
        if let Some(fault) = header_name_fault(name) {
            let mut m: String = concat3(
                "invalid header name '",
                name,
                "' in routing.policy_provider.headers: ",
            );
            m.append(fault.as_str());
            assert(first_unsendable(all, i as int));
            return Err(PolicyFetchError::Invalid(m));
        }
        if let Some(fault) = header_value_fault(value) {
            let mut m: String = concat3(
                "invalid header value for '",
                name,
                "' in routing.policy_provider.headers: ",
            );
            m.append(fault.as_str());
            assert(first_unsendable(all, i as int));
            return Err(PolicyFetchError::Invalid(m));
        }
        let lower: String = to_ascii_lower(name);
        r = drop_name(&r, lower.as_str());
        let ghost before = members_view(r@);
        r.push((lower, value.to_owned()));
        assert(members_view(r@) =~= before.push((ascii_lowercase(name@), value@)));
        i += 1;
    }
    assert(all.take(headers@.len() as int) =~= all);
    Ok(r)
}

proof fn lemma_without_name(headers: Seq<(Seq<char>, Seq<char>)>, name: Seq<char>)
    requires
        forall|i: int, j: int|
            0 <= i < j < headers.len() ==> (#[trigger] headers[i]).0 != (#[trigger] headers[j]).0,
    ensures
        ({
            let r = without_name(headers, name);
            &&& forall|i: int, j: int|
                0 <= i < j < r.len() ==> (#[trigger] r[i]).0 != (#[trigger] r[j]).0
            &&& forall|i: int| 0 <= i < r.len() ==> (#[trigger] r[i]).0 != name && headers.contains(r[i])
        }),
    decreases headers.len(),
{
    if headers.len() > 0 {
        let short = headers.drop_last();
        assert forall|i: int, j: int| 0 <= i < j < short.len() implies (#[trigger] short[i]).0 != (
        #[trigger] short[j]).0 by {
            assert(short[i] == headers[i]);
            assert(short[j] == headers[j]);
        }
        lemma_without_name(short, name);
        let rest = without_name(short, name);
        let r = without_name(headers, name);
        let last = headers[headers.len() - 1];
        assert forall|i: int| 0 <= i < rest.len() implies headers.contains(#[trigger] rest[i])
            && rest[i].0 != last.0 by {
            assert(short.contains(rest[i]));
            let k = choose|k: int| 0 <= k < short.len() && short[k] == rest[i];
            assert(headers[k] == rest[i]);
        }
        assert(headers.contains(last));
        assert forall|i: int, j: int| 0 <= i < j < r.len() implies (#[trigger] r[i]).0 != (
        #[trigger] r[j]).0 by {
            assert(r[i] == rest[i]);
            if j < rest.len() {
                assert(r[j] == rest[j]);
            }
        }
        assert forall|i: int| 0 <= i < r.len() implies (#[trigger] r[i]).0 != name
            && headers.contains(r[i]) by {
            if i < rest.len() {
                assert(r[i] == rest[i]);
            }
        }
    }
}

/// No name is sent twice, and the last configured header is sent as it is.
pub proof fn last_header_counts(headers: Seq<(Seq<char>, Seq<char>)>)
    ensures
        forall|i: int, j: int|
            0 <= i < j < header_map(headers).len() ==> (#[trigger] header_map(headers)[i]).0 != (
            #[trigger] header_map(headers)[j]).0,
        headers.len() > 0 ==> header_map(headers).len() > 0 && header_map(headers).last() == (
            ascii_lowercase(headers.last().0),
            headers.last().1,
        ),
    decreases headers.len(),
{
    if headers.len() > 0 {
        last_header_counts(headers.drop_last());
        let name = ascii_lowercase(headers.last().0);
        let before = header_map(headers.drop_last());
        lemma_without_name(before, name);
        let rest = without_name(before, name);
        let all = header_map(headers);
        assert forall|i: int, j: int| 0 <= i < j < all.len() implies (#[trigger] all[i]).0 != (
        #[trigger] all[j]).0 by {
            assert(all[i] == rest[i]);
            if j < rest.len() {
                assert(all[j] == rest[j]);
            }
        }
    }
}

/// Policies of one provider, each kept for the same time.
pub struct PolicyProviderClient {
    cache: ExpiringMap<Vec<ModelUsagePreference>>,
    ttl: u64,
}

impl View for PolicyProviderClient {
    type V = Map<Seq<char>, Stamped<Vec<ModelUsagePreference>>>;

    closed spec fn view(&self) -> Map<Seq<char>, Stamped<Vec<ModelUsagePreference>>> {
        self.cache@
    }
}

impl PolicyProviderClient {
    /// Whether every policy stands in the cache once.
    pub closed spec fn wf(&self) -> bool {
        self.cache.wf() && self.cache.limit() == usize::MAX
    }

    /// The number of policies in the cache, dead ones included.
    pub closed spec fn size(&self) -> nat {
        self.cache.size()
    }

    /// How long a policy is kept, in seconds.
    pub closed spec fn ttl(&self) -> u64 {
        self.ttl
    }

    /// A client with an empty cache.
    pub fn new(ttl_seconds: Option<u64>) -> (r: Self)
        ensures
            r.wf(),
            r.size() == 0,
            r@ == Map::<Seq<char>, Stamped<Vec<ModelUsagePreference>>>::empty(),
            r.ttl() == (match ttl_seconds {
                Some(t) => t,
                None => DEFAULT_POLICY_TTL_SECONDS,
            }),
    {
        let ttl: u64 = match ttl_seconds {
            Some(t) => t,
            None => DEFAULT_POLICY_TTL_SECONDS,
        };
        PolicyProviderClient { cache: ExpiringMap::new(usize::MAX), ttl }
    }

    /// The policy of an id out of the cache, at time `now` (milliseconds).
    pub fn cached_policy(&self, policy_id: &str, now: u64) -> (r: Option<Vec<ModelUsagePreference>>)
        requires
            self.wf(),
        ensures
            match r {
                Some(v) => current(self@, policy_id@, now) is Some && usages(v@) == usages(
                    current(self@, policy_id@, now)->0@,
                ),
                None => current(self@, policy_id@, now) is None,
            },
    {
        match self.cache.get(policy_id, now) {
            Some(v) => Some(clone_usages(v)),
            None => None,
        }
    }

    /// The policy of an id out of the provider's reply, which is cached at
    /// time `now` (milliseconds). A failure leaves the cache as it was.
    pub fn fetch_policy(&mut self, policy_id: &str, reply: ProviderReply, now: u64) -> (r: Result<
        Vec<ModelUsagePreference>,
        PolicyFetchError,
    >)
        requires
            old(self).wf(),
        ensures
            final(self).ttl() == old(self).ttl(),
            fetch_fits(
                policy_id@,
                reply,
                old(self)@,
                old(self).size(),
                old(self).ttl(),
                now,
                r,
                final(self)@,
                final(self).size(),
            ),
            final(self).wf(),
    {
        match check_reply(policy_id, reply) {
            Ok(p) => {
                let copy: Vec<ModelUsagePreference> = clone_usages(&p.routing_preferences);
                self.cache.put(policy_id, copy, now, to_millis(self.ttl));
                Ok(p.routing_preferences)
            },
            Err(e) => Err(e),
        }
    }

    /// The size of the cache is the number of its policies.
    pub proof fn size_is_number_of_policies(&self)
        requires
            self.wf(),
        ensures
            self@.dom().finite(),
            self.size() == self@.dom().len(),
    {
        size_is_number_of_keys(self.cache);
    }
}

/// A policy is taken from a successful answer that holds it, is given out for
/// the configured time and no longer, and changes no other policy.
pub proof fn fetched_policy_is_kept(
    policy_id: Seq<char>,
    other: Seq<char>,
    code: u16,
    status: String,
    policy: ExternalPolicyResponse,
    before: Map<Seq<char>, Stamped<Vec<ModelUsagePreference>>>,
    size: nat,
    ttl: u64,
    now: u64,
    r: Result<Vec<ModelUsagePreference>, PolicyFetchError>,
    after: Map<Seq<char>, Stamped<Vec<ModelUsagePreference>>>,
    new_size: nat,
    later: u64,
)
    requires
        fetch_fits(
            policy_id,
            ProviderReply::Answered { code, status, payload: Ok(policy) },
            before,
            size,
            ttl,
            now,
            r,
            after,
            new_size,
        ),
        200 <= code <= 299,
        policy.policy_id@ == policy_id,
        size < usize::MAX,
        ttl <= 1_000_000,
        now <= later,
        other != policy_id,
    ensures
        r is Ok,
        usages(r->Ok_0@) == usages(policy.routing_preferences@),
        later < now + 1000 * ttl ==> current(after, policy_id, later) is Some && usages(
            current(after, policy_id, later)->0@,
        ) == usages(policy.routing_preferences@),
        later >= now + 1000 * ttl ==> current(after, policy_id, later) is None,
        current(after, other, later) == current(before, other, later),
        DEFAULT_POLICY_TTL_SECONDS == 300,
{
}

/// A request that failed and a fault of the server may pass; every other
/// answer without the policy is final. None of them changes the cache.
pub proof fn only_outages_are_transient(
    policy_id: Seq<char>,
    reply: ProviderReply,
    before: Map<Seq<char>, Stamped<Vec<ModelUsagePreference>>>,
    size: nat,
    ttl: u64,
    now: u64,
    r: Result<Vec<ModelUsagePreference>, PolicyFetchError>,
    after: Map<Seq<char>, Stamped<Vec<ModelUsagePreference>>>,
    new_size: nat,
)
    requires
        fetch_fits(policy_id, reply, before, size, ttl, now, r, after, new_size),
    ensures
        reply is Failed ==> r is Err && r->Err_0 is Transient,
        reply is Answered && 500 <= reply->code <= 599 ==> r is Err && r->Err_0 is Transient,
        reply is Answered && (reply->code < 200 || 300 <= reply->code <= 499 || reply->code >= 600)
            ==> r is Err && r->Err_0 is Invalid,
        reply is Answered && 200 <= reply->code <= 299 && reply->payload is Err ==> r is Err
            && r->Err_0 is Invalid,
        reply is Answered && 200 <= reply->code <= 299 && reply->payload is Ok
            && reply->payload->Ok_0.policy_id@ != policy_id ==> r is Err && r->Err_0 is Invalid,
        r is Err ==> after == before,
{
}

proof fn lemma_kept_header(headers: Seq<(Seq<char>, Seq<char>)>, name: Seq<char>, i: int)
    requires
        0 <= i < headers.len(),
        headers[i].0 != name,
    ensures
        without_name(headers, name).contains(headers[i]),
    decreases headers.len(),
{
    let r = without_name(headers, name);
    if i == headers.len() - 1 {
        assert(r[r.len() - 1] == headers[i]);
    } else {
        let short = headers.drop_last();
        lemma_kept_header(short, name, i);
        let rest = without_name(short, name);
        let k = choose|k: int| 0 <= k < rest.len() && rest[k] == headers[i];
        assert(r[k] == headers[i]);
    }
}

/// A configured header is sent under its name in lower case, unless one of the
/// same name follows it.
pub proof fn every_other_header_is_sent(headers: Seq<(Seq<char>, Seq<char>)>, i: int)
    requires
        0 <= i < headers.len(),
        forall|j: int|
            i < j < headers.len() ==> ascii_lowercase((#[trigger] headers[j]).0) != ascii_lowercase(
                headers[i].0,
            ),
    ensures
        header_map(headers).contains((ascii_lowercase(headers[i].0), headers[i].1)),
    decreases headers.len(),
{
    let h = (ascii_lowercase(headers[i].0), headers[i].1);
    let all = header_map(headers);
    if i == headers.len() - 1 {
        assert(all[all.len() - 1] == h);
    } else {
        let short = headers.drop_last();
        assert forall|j: int| i < j < short.len() implies ascii_lowercase((#[trigger] short[j]).0)
            != ascii_lowercase(short[i].0) by {
            assert(short[j] == headers[j]);
        }
        every_other_header_is_sent(short, i);
        let before = header_map(short);
        let last = headers[headers.len() - 1];
        assert(last == headers.last());
        let k = choose|k: int| 0 <= k < before.len() && before[k] == h;
        lemma_kept_header(before, ascii_lowercase(last.0), k);
        let rest = without_name(before, ascii_lowercase(last.0));
        let m = choose|m: int| 0 <= m < rest.len() && rest[m] == h;
        assert(all[m] == h);
    }
}

/// A failure says in words what went wrong, with what was said by others.
pub proof fn failures_are_told_in_words(
    policy_id: Seq<char>,
    reply: ProviderReply,
    e: PolicyFetchError,
)
    requires
        is_error_for(policy_id, reply, e),
    ensures
        reply matches ProviderReply::Failed { error } ==> e.text() == "policy fetch failed: "@
            + error@,
        reply matches ProviderReply::Answered { code, status, payload } ==> {
            &&& 500 <= code <= 599 ==> e.text() == "policy provider returned "@ + status@
            &&& code < 200 || 300 <= code <= 499 || code >= 600 ==> e.text()
                == "policy provider returned non-success status "@ + status@
            &&& 200 <= code <= 299 && payload is Err ==> e.text() == "invalid policy payload: "@
                + payload->Err_0@
            &&& 200 <= code <= 299 && payload is Ok ==> e.text()
                == "policy_id mismatch in provider response: expected '"@ + policy_id + "', got '"@
                + payload->Ok_0.policy_id@ + "'"@
        },
{
}

} // verus!
