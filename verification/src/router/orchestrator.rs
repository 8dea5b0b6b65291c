//! What switching models costs, where a session's binding is kept, and which
//! route a request takes.

use crate::assoc::{find_named, named};
use crate::chat::Message;
use crate::expiring_map::{current, takes_in, Stamped};
use crate::natural::Natural;
use crate::router::model_metrics::{ModelMetricsService, ModelPricing, RankContext};
use crate::router::orchestrator_model::{OrchestratorModelError, OrchestratorSelection};
use crate::router::preferences::{
    find_preference, last_named, preferences, usage_preferences, usages, usages_of,
    ModelUsagePreference, PreferenceFacts, TopLevelRoutingPreference,
};
use crate::session_cache::memory::MemorySessionCache;
use crate::session_cache::SessionBinding;
use crate::signals::schemas::opt_text;
use crate::text::{clone_texts, concat2, concat3, lemma_split_unique, texts};
use vstd::prelude::*;

verus! {

pub const DEFAULT_SESSION_TTL_SECONDS: u64 = 600;

/// What reading a context costs on a candidate model and on the anchor, in
/// 10^-18 USD. The cost of the switch is the difference: negative where the
/// candidate is outright cheaper.
#[derive(Debug)]
pub struct SwitchCost {
    pub candidate: Natural,
    pub anchor: Natural,
}

/// What a [`SwitchCost`] says.
pub struct CostFacts {
    pub candidate: nat,
    pub anchor: nat,
}

impl View for SwitchCost {
    type V = CostFacts;

    open spec fn view(&self) -> CostFacts {
        CostFacts { candidate: self.candidate@, anchor: self.anchor@ }
    }
}

impl CostFacts {
    /// The cost of the switch.
    pub open spec fn delta(self) -> int {
        self.candidate - self.anchor
    }
}

impl SwitchCost {
    /// Whether the switch costs nothing or saves money.
    pub fn is_free(&self) -> (b: bool)
        ensures
            b == (self@.delta() <= 0),
    {
        self.anchor.at_least(&self.candidate)
    }

    /// What the switch costs more than staying.
    pub fn overhead(&self) -> (r: Natural)
        requires
            self@.delta() > 0,
        ensures
            r@ == self@.delta(),
    {
        self.candidate.minus(&self.anchor)
    }
}

/// Input-cost of abandoning a plausibly-warm cache to switch to a candidate.
///
/// Deliberately input-only: output-token savings are unknowable before the response
/// is generated, so they are never credited. Rates are prices of one token.
pub fn switch_cost_in_usd(
    context_tokens: u64,
    anchor_cached_rate: &Natural,
    candidate_uncached_rate: &Natural,
) -> (r: SwitchCost)
    ensures
        r@.candidate == context_tokens * candidate_uncached_rate@,
        r@.anchor == context_tokens * anchor_cached_rate@,
        r@.delta() == context_tokens * (candidate_uncached_rate@ - anchor_cached_rate@),
{
    let tokens: Natural = Natural::new(context_tokens as u128);
    proof {
        let t = context_tokens as int;
        let c = candidate_uncached_rate@ as int;
        let a = anchor_cached_rate@ as int;
        assert(t * (c - a) == t * c - t * a) by (nonlinear_arith);
    }
    SwitchCost {
        candidate: tokens.times(candidate_uncached_rate),
        anchor: tokens.times(anchor_cached_rate),
    }
}

/// The cost of a context on the candidate and on the anchor: the candidate
/// still has `warm_tokens` of it cached and reads the rest at its full price.
pub open spec fn switch_costs(
    context_tokens: nat,
    warm_tokens: nat,
    anchor: ModelPricing,
    candidate: ModelPricing,
    discount: u64,
) -> CostFacts {
    CostFacts {
        candidate: warm_tokens * candidate.cached_rate(discount) + (context_tokens - warm_tokens)
            as nat * candidate.uncached_rate(),
        anchor: context_tokens * anchor.cached_rate(discount),
    }
}

/// The cost of a switch by the price table; `None` where a price is missing.
pub open spec fn estimated_switch(
    prices: Seq<(String, ModelPricing)>,
    context_tokens: nat,
    warm_tokens: nat,
    anchor_model: Seq<char>,
    candidate_model: Seq<char>,
    discount: u64,
) -> Option<CostFacts> {
    match (named(prices, anchor_model), named(prices, candidate_model)) {
        (Some(a), Some(c)) => Some(switch_costs(context_tokens, warm_tokens, a, c, discount)),
        _ => None,
    }
}

/// Estimate the input-cost of switching a warm session from `anchor_model`
/// (the model that handled the latest request) to `candidate_model`, which still has
/// `warm_tokens` of the context cached from an earlier visit. `None` when
/// pricing is missing for either side so the caller can fail open (switch
/// freely). `discount` (in millionths of the input rate) estimates a
/// cached-read rate where none is published.
pub fn estimate_switch_cost_in_usd(
    prices: &Vec<(String, ModelPricing)>,
    context_tokens: u64,
    anchor_model: &str,
    candidate_model: &str,
    warm_tokens: u64,
    discount: u64,
) -> (r: Option<SwitchCost>)
    requires
        warm_tokens <= context_tokens,
    ensures
        ({
            let expected = estimated_switch(
                prices@,
                context_tokens as nat,
                warm_tokens as nat,
                anchor_model@,
                candidate_model@,
                discount,
            );
            match r {
                Some(c) => expected == Some(c@),
                None => expected is None,
            }
        }),
{
    let anchor: &ModelPricing = match find_named(prices, anchor_model) {
        Some(p) => p,
        None => {
            return None;
        },
    };
    let candidate: &ModelPricing = match find_named(prices, candidate_model) {
        Some(p) => p,
        None => {
            return None;
        },
    };
    let warm: Natural = Natural::new(warm_tokens as u128).times(
        &candidate.cached_input_rate(discount),
    );
    let cold: Natural = Natural::new((context_tokens - warm_tokens) as u128).times(
        &candidate.uncached_input_rate(),
    );
    let stay: Natural = Natural::new(context_tokens as u128).times(
        &anchor.cached_input_rate(discount),
    );
    Some(SwitchCost { candidate: warm.plus(&cold), anchor: stay })
}

/// The cost of reading a context at a model's cached rate; `None` where the
/// model has no price.
pub open spec fn read_cost(
    prices: Seq<(String, ModelPricing)>,
    context_tokens: nat,
    model: Seq<char>,
    discount: u64,
) -> Option<nat> {
    match named(prices, model) {
        Some(p) => Some(context_tokens * p.cached_rate(discount)),
        None => None,
    }
}

/// This turn's contribution to the session's *never-switch* baseline: the cost of
/// reading the context at the model's cached input rate. `None` when the model has no
/// pricing (the caller then can't grow the baseline this turn).
pub fn cached_read_cost_in_usd(
    prices: &Vec<(String, ModelPricing)>,
    context_tokens: u64,
    model: &str,
    discount: u64,
) -> (r: Option<Natural>)
    ensures
        match r {
            Some(n) => read_cost(prices@, context_tokens as nat, model@, discount) == Some(n@),
            None => read_cost(prices@, context_tokens as nat, model@, discount) is None,
        },
{
    match find_named(prices, model) {
        Some(p) => Some(
            Natural::new(context_tokens as u128).times(&p.cached_input_rate(discount)),
        ),
        None => None,
    }
}

/// The key of a session, within its tenant where there is one.
pub open spec fn key_of(tenant: Option<Seq<char>>, session: Seq<char>) -> Seq<char> {
    match tenant {
        Some(t) => t + ":"@ + session,
        None => session,
    }
}

/// An optional text by its view.
pub open spec fn opt_str(s: Option<&str>) -> Option<Seq<char>> {
    match s {
        Some(t) => Some(t@),
        None => None,
    }
}

/// The key a session is kept under.
pub fn session_key(tenant_id: Option<&str>, session_id: &str) -> (r: String)
    ensures
        r@ == key_of(opt_str(tenant_id), session_id@),
{
    match tenant_id {
        Some(t) => concat3(t, ":", session_id),
        None => session_id.to_owned(),
    }
}

/// The global memory bound in seconds.
pub fn session_ttl_or_default(session_ttl_seconds: Option<u64>) -> (r: u64)
    ensures
        r == (match session_ttl_seconds {
            Some(t) => t,
            None => DEFAULT_SESSION_TTL_SECONDS,
        }),
{
    match session_ttl_seconds {
        Some(t) => t,
        None => DEFAULT_SESSION_TTL_SECONDS,
    }
}

// ---------------------------------------------------------------------------
// The service
// ---------------------------------------------------------------------------

/// Why a route could not be determined.
#[derive(Debug)]
pub enum OrchestrationError {
    /// The routing model could not be reached.
    Http(String),
    /// Its reply could not be read.
    OrchestratorModelError(OrchestratorModelError),
}

impl OrchestrationError {
    /// The error in words.
    pub fn message(&self) -> (r: String)
        ensures
            r@ == (match *self {
                OrchestrationError::Http(m) => m@,
                OrchestrationError::OrchestratorModelError(e) => "Orchestrator model error: "@
                    + e.text(),
            }),
    {
        match self {
            OrchestrationError::Http(m) => m.clone(),
            OrchestrationError::OrchestratorModelError(e) => concat2(
                "Orchestrator model error: ",
                e.message().as_str(),
            ),
        }
    }
}

/// Session bindings, prices and preferences: what routing decides from.
pub struct OrchestratorService {
    top_level_preferences: Vec<TopLevelRoutingPreference>,
    metrics_service: Option<ModelMetricsService>,
    session_cache: Option<MemorySessionCache>,
    session_ttl: u64,
    tenant_header: Option<String>,
}

/// The preference a route name stands for: the request's own before the
/// configured one.
pub open spec fn preference_for(
    inline: Option<Seq<PreferenceFacts>>,
    configured: Seq<PreferenceFacts>,
    name: Seq<char>,
) -> Option<PreferenceFacts> {
    match inline {
        Some(own) => match last_named(own, name) {
            Some(p) => Some(p),
            None => last_named(configured, name),
        },
        None => last_named(configured, name),
    }
}

/// What a request's own preferences say, where it has any.
pub open spec fn opt_preferences(own: Option<&Vec<TopLevelRoutingPreference>>) -> Option<
    Seq<PreferenceFacts>,
> {
    match own {
        Some(v) => Some(preferences(v@)),
        None => None,
    }
}

/// The preference a route name stands for.
pub fn find_route<'a>(
    inline: Option<&'a Vec<TopLevelRoutingPreference>>,
    configured: &'a Vec<TopLevelRoutingPreference>,
    name: &str,
) -> (r: Option<&'a TopLevelRoutingPreference>)
    ensures
        match r {
            Some(p) => preference_for(
                opt_preferences(inline),
                preferences(configured@),
                name@,
            ) == Some(p@),
            None => preference_for(
                opt_preferences(inline),
                preferences(configured@),
                name@,
            ) is None,
        },
{
    if let Some(own) = inline {
        let found: Option<&TopLevelRoutingPreference> = find_preference(own, name);
        if found.is_some() {
            return found;
        }
    }
    find_preference(configured, name)
}

/// Whether `ranked` are the models of a preference in the order of its policy.
pub open spec fn ranks_preference(
    metrics: Option<ModelMetricsService>,
    p: PreferenceFacts,
    ctx: RankContext,
    ranked: Seq<Seq<char>>,
) -> bool {
    match metrics {
        Some(m) => m.ranks(p.models, p.policy, ctx, ranked),
        None => ranked == p.models,
    }
}

/// Whether `r` is the binding a cache holds for a session at a time.
pub open spec fn binding_fits(
    cache: Option<MemorySessionCache>,
    key: Seq<char>,
    now: u64,
    r: Option<SessionBinding>,
) -> bool {
    let held = match cache {
        Some(c) => current(c@, key, now),
        None => None,
    };
    match r {
        Some(b) => held is Some && b@ == held->0@,
        None => held is None,
    }
}

/// Whether `after` is a cache that took in a binding.
pub open spec fn store_fits(
    before: Option<MemorySessionCache>,
    key: Seq<char>,
    binding: SessionBinding,
    now: u64,
    ttl: u64,
    after: Option<MemorySessionCache>,
) -> bool {
    match before {
        None => after is None,
        Some(b) => {
            &&& after is Some
            &&& after->0.limit() == b.limit()
            &&& takes_in(
                b@,
                b.size(),
                b.limit(),
                key,
                (Stamped { value: binding, stored_at: now, ttl }),
                after->0@,
                after->0.size(),
            )
        },
    }
}

/// Whether `r` is what is put to the routing model: the request's own
/// preferences or the configured ones.
pub open spec fn question_fits(
    has_messages: bool,
    own: Option<Seq<PreferenceFacts>>,
    configured: Seq<PreferenceFacts>,
    r: Option<Vec<ModelUsagePreference>>,
) -> bool {
    let asked = usages_of(
        match own {
            Some(v) => v,
            None => configured,
        },
    );
    match r {
        Some(v) => has_messages && asked.len() > 0 && usages(v@) == asked,
        None => !has_messages || asked.len() == 0,
    }
}

/// Whether `r` is the first selected route and its models in the order of its
/// policy, or `None` where no route was selected or nobody defined it.
pub open spec fn selection_fits(
    reply: Option<&OrchestratorSelection>,
    own: Option<Seq<PreferenceFacts>>,
    configured: Seq<PreferenceFacts>,
    metrics: Option<ModelMetricsService>,
    ctx: RankContext,
    r: Option<(String, Vec<String>)>,
) -> bool {
    let selected = reply is Some && reply->0.routes@.len() > 0;
    let name = reply->0.routes@[0].0@;
    let pref = preference_for(own, configured, name);
    match r {
        Some((route, models)) => {
            &&& selected
            &&& pref is Some
            &&& route@ == name
            &&& ranks_preference(metrics, pref->0, ctx, texts(models@))
        },
        None => !selected || pref is None,
    }
}

/// Milliseconds for seconds, as many as fit.
pub open spec fn millis(seconds: u64) -> u64 {
    if seconds * 1000 <= u64::MAX { (seconds * 1000) as u64 } else { u64::MAX }
}

/// Milliseconds for seconds, as many as fit.
pub(crate) fn to_millis(seconds: u64) -> (r: u64)
    ensures
        r == millis(seconds),
{
    if seconds <= u64::MAX / 1000 {
        seconds * 1000
    } else {
        u64::MAX
    }
}

impl OrchestratorService {
    /// Whether the session cache is well formed.
    pub closed spec fn wf(&self) -> bool {
        self.session_cache is Some ==> self.session_cache->0.wf()
    }

    /// The configured preferences.
    pub closed spec fn configured(&self) -> Seq<PreferenceFacts> {
        preferences(self.top_level_preferences@)
    }

    /// Prices and latencies.
    pub closed spec fn metrics(&self) -> Option<ModelMetricsService> {
        self.metrics_service
    }

    /// The prices, none where there is no source for them.
    pub open spec fn prices(&self) -> Seq<(String, ModelPricing)> {
        match self.metrics() {
            Some(m) => m.pricing@,
            None => Seq::empty(),
        }
    }

    /// The session cache.
    pub closed spec fn cache(&self) -> Option<MemorySessionCache> {
        self.session_cache
    }

    /// The global memory bound for a session, in seconds.
    pub closed spec fn ttl(&self) -> u64 {
        self.session_ttl
    }

    /// The header that names the tenant.
    pub closed spec fn tenant(&self) -> Option<Seq<char>> {
        opt_text(self.tenant_header)
    }

    /// A service without preferences, prices or sessions.
    pub fn new() -> (r: Self)
        ensures
            r.wf(),
            r.configured() == Seq::<PreferenceFacts>::empty(),
            r.metrics() is None,
            r.cache() is None,
            r.ttl() == DEFAULT_SESSION_TTL_SECONDS,
            r.tenant() is None,
    {
        let top_level_preferences: Vec<TopLevelRoutingPreference> = Vec::new();
        assert(preferences(top_level_preferences@) =~= Seq::empty());
        OrchestratorService {
            top_level_preferences,
            metrics_service: None,
            session_cache: None,
            session_ttl: DEFAULT_SESSION_TTL_SECONDS,
            tenant_header: None,
        }
    }

    /// A service that routes and keeps sessions.
    pub fn with_routing(
        top_level_prefs: Option<Vec<TopLevelRoutingPreference>>,
        metrics_service: Option<ModelMetricsService>,
        session_ttl_seconds: Option<u64>,
        session_cache: MemorySessionCache,
        tenant_header: Option<String>,
    ) -> (r: Self)
        requires
            session_cache.wf(),
        ensures
            r.wf(),
            r.configured() == (match top_level_prefs {
                Some(v) => preferences(v@),
                None => Seq::empty(),
            }),
            r.metrics() == metrics_service,
            r.cache() == Some(session_cache),
            r.ttl() == (match session_ttl_seconds {
                Some(t) => t,
                None => DEFAULT_SESSION_TTL_SECONDS,
            }),
            r.tenant() == opt_text(tenant_header),
    {
        let top_level_preferences: Vec<TopLevelRoutingPreference> = match top_level_prefs {
            Some(v) => v,
            None => Vec::new(),
        };
        proof {
            if top_level_prefs is None {
                assert(preferences(top_level_preferences@) =~= Seq::empty());
            }
        }
        OrchestratorService {
            top_level_preferences,
            metrics_service,
            session_cache: Some(session_cache),
            session_ttl: session_ttl_or_default(session_ttl_seconds),
            tenant_header,
        }
    }

    /// The header that names the tenant.
    #[must_use]
    pub fn tenant_header(&self) -> (r: Option<&str>)
        ensures
            opt_str(r) == self.tenant(),
    {
        match &self.tenant_header {
            Some(t) => Some(t.as_str()),
            None => None,
        }
    }

    /// Look up a session binding at time `now` (milliseconds). Warmth is the
    /// caller's concern (time since `last_used`); this only reports whether a
    /// binding exists.
    pub fn get_binding(&self, session_id: &str, tenant_id: Option<&str>, now: u64) -> (r: Option<
        SessionBinding,
    >)
        requires
            self.wf(),
        ensures
            binding_fits(
                self.cache(),
                key_of(opt_str(tenant_id), session_id@),
                now,
                r,
            ),
    {
        match &self.session_cache {
            Some(cache) => cache.get(session_key(tenant_id, session_id).as_str(), now),
            None => None,
        }
    }

    /// The memory bound for a session binding in seconds: the per-scope
    /// override when provided, otherwise the global setting. This only governs
    /// when an idle binding is reclaimed from memory — not whether its cache is warm.
    pub fn effective_session_ttl(&self, ttl_override_seconds: Option<u64>) -> (r: u64)
        ensures
            r == (match ttl_override_seconds {
                Some(t) => t,
                None => self.ttl(),
            }),
    {
        match ttl_override_seconds {
            Some(t) => t,
            None => self.session_ttl,
        }
    }

    /// Persist a session binding at time `now` with a memory bound in
    /// milliseconds (the global setting when `gc_ttl` is `None`).
    pub fn store_binding(
        &mut self,
        session_id: &str,
        tenant_id: Option<&str>,
        binding: SessionBinding,
        gc_ttl: Option<u64>,
        now: u64,
    )
        requires
            old(self).wf(),
        ensures
            final(self).wf(),
            final(self).configured() == old(self).configured(),
            final(self).metrics() == old(self).metrics(),
            final(self).ttl() == old(self).ttl(),
            final(self).tenant() == old(self).tenant(),
            store_fits(
                old(self).cache(),
                key_of(opt_str(tenant_id), session_id@),
                binding,
                now,
                match gc_ttl {
                    Some(t) => t,
                    None => millis(old(self).ttl()),
                },
                final(self).cache(),
            ),
    {
        let ttl: u64 = match gc_ttl {
            Some(t) => t,
            None => to_millis(self.session_ttl),
        };
        let key: String = session_key(tenant_id, session_id);
        let mut cache: Option<MemorySessionCache> = self.session_cache.take();
        if let Some(mut c) = cache {
            c.put(key.as_str(), binding, now, ttl);
            cache = Some(c);
        } else {
            cache = None;
        }
        self.session_cache = cache;
    }

    /// Structured per-million pricing for a model, from the configured cost feed.
    /// `None` when no cost source is configured or the model is unknown to the feed.
    pub fn model_rates(&self, model: &str) -> (r: Option<ModelPricing>)
        ensures
            r == named(self.prices(), model@),
    {
        match &self.metrics_service {
            Some(m) => match find_named(&m.pricing, model) {
                Some(p) => Some(*p),
                None => None,
            },
            None => None,
        }
    }

    // ---- LLM routing ----

    /// What is put to the routing model for a request: the request's own
    /// preferences or the configured ones. `None` where there is nothing to
    /// ask: no messages, or no preferences.
    pub fn plan_route(
        &self,
        messages: &[Message],
        inline_routing_preferences: Option<&Vec<TopLevelRoutingPreference>>,
    ) -> (r: Option<Vec<ModelUsagePreference>>)
        ensures
            question_fits(
                messages@.len() > 0,
                opt_preferences(inline_routing_preferences),
                self.configured(),
                r,
            ),
    {
        let asked: Vec<ModelUsagePreference> = match inline_routing_preferences {
            Some(v) => usage_preferences(v),
            None => usage_preferences(&self.top_level_preferences),
        };
        if messages.len() == 0 || asked.len() == 0 {
            assert(usages(asked@).len() == asked@.len());
            None
        } else {
            assert(usages(asked@).len() == asked@.len());
            Some(asked)
        }
    }

    /// Whether the routing model is asked at all: about a conversation, and
    /// about at least one usage.
    pub fn needs_orchestration(
        messages: &[Message],
        usage_preferences: Option<&Vec<ModelUsagePreference>>,
    ) -> (b: bool)
        ensures
            b == (messages@.len() > 0 && usage_preferences is Some
                && usage_preferences->0@.len() > 0),
    {
        match usage_preferences {
            Some(v) => messages.len() > 0 && v.len() > 0,
            None => false,
        }
    }

    /// The route of a request and its models in order of preference, from the
    /// routing model's reply: of several selected routes the first counts. `None`
    /// where no route was selected, or one that nobody defined.
    pub fn determine_route(
        &self,
        reply: Option<&OrchestratorSelection>,
        inline_routing_preferences: Option<&Vec<TopLevelRoutingPreference>>,
        ctx: &RankContext,
    ) -> (r: Option<(String, Vec<String>)>)
        ensures
            selection_fits(
                reply,
                opt_preferences(inline_routing_preferences),
                self.configured(),
                self.metrics(),
                *ctx,
                r,
            ),
    {
        let routes: &Vec<(String, String)> = match reply {
            Some(s) => &s.routes,
            None => {
                return None;
            },
        };
        if routes.len() == 0 {
            return None;
        }
        let name: &String = &routes[0].0;
        match find_route(inline_routing_preferences, &self.top_level_preferences, name.as_str()) {
            Some(pref) => {
                let ranked: Vec<String> = match &self.metrics_service {
                    Some(m) => m.rank_models(&pref.models, pref.selection_policy, ctx),
                    None => clone_texts(&pref.models),
                };
                Some((name.clone(), ranked))
            },
            None => None,
        }
    }
}

/// Bindings of different tenants are kept apart: where tenant ids hold no
/// colon, two sessions share a key only if tenant and session are the same.
pub proof fn tenants_are_kept_apart(
    tenant: Seq<char>,
    other: Seq<char>,
    session: Seq<char>,
    other_session: Seq<char>,
)
    requires
        !tenant.contains(':'),
        !other.contains(':'),
        key_of(Some(tenant), session) == key_of(Some(other), other_session),
    ensures
        tenant == other,
        session == other_session,
{
    reveal_strlit(":");
    assert(tenant + ":"@ + session =~= tenant.push(':') + session);
    assert(other + ":"@ + other_session =~= other.push(':') + other_session);
    lemma_split_unique(tenant, session, other, other_session, ':');
}

} // verus!
