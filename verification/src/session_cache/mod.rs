//! What is remembered of a conversation between its turns.

pub mod memory;
pub mod redis;

use crate::natural::Natural;
use crate::signals::schemas::opt_text;
use crate::text::same_text;
use vstd::prelude::*;

verus! {

/// One model this session has been dispatched to, with the recency and context size
/// needed to estimate whether its provider cache is still warm on a later return.
#[derive(Debug)]
pub struct RouteVisit {
    /// Provider-qualified model id (e.g. `openai/gpt-4o`).
    pub model: String,
    /// When this model last handled a turn in this session, in milliseconds
    /// since the Unix epoch.
    pub last_used: u64,
    /// Context size (input tokens) that model saw on its last turn — the prefix it may
    /// still have cached if it's revisited before its cache window elapses.
    pub cached_tokens: u64,
}

/// What a [`RouteVisit`] says.
pub struct VisitFacts {
    pub model: Seq<char>,
    pub last_used: u64,
    pub cached_tokens: u64,
}

impl View for RouteVisit {
    type V = VisitFacts;

    open spec fn view(&self) -> VisitFacts {
        VisitFacts {
            model: self.model@,
            last_used: self.last_used,
            cached_tokens: self.cached_tokens,
        }
    }
}

/// What a history says.
pub open spec fn visits(v: Seq<RouteVisit>) -> Seq<VisitFacts> {
    Seq::new(v.len(), |i: int| v[i]@)
}

impl Clone for RouteVisit {
    fn clone(&self) -> (r: Self)
        ensures
            r@ == self@,
    {
        RouteVisit {
            model: self.model.clone(),
            last_used: self.last_used,
            cached_tokens: self.cached_tokens,
        }
    }
}

/// Copies a history.
pub fn clone_history(v: &Vec<RouteVisit>) -> (r: Vec<RouteVisit>)
    ensures
        visits(r@) == visits(v@),
{
    let mut r: Vec<RouteVisit> = Vec::new();
    let mut i: usize = 0;
    while i < v.len()
        invariant
            i <= v.len(),
            r@.len() == i,
            forall|j: int| 0 <= j < i ==> (#[trigger] r@[j])@ == v@[j]@,
        decreases v.len() - i,
    {
        r.push(v[i].clone());
        i += 1;
    }
    assert(visits(r@) =~= visits(v@));
    r
}

/// A conversation's binding to a model, plus the state the session router needs to
/// reason about cache warmth and switch affordability across turns.
///
/// The entry is kept alive as a plain value (subject only to a memory bound) and the
/// router decides warmth from [`SessionBinding::last_used`] against the provider's
/// cache window. Amounts of money are counted in 10^-18 US dollars.
#[derive(Debug)]
pub struct SessionBinding {
    /// Provider-qualified model that handled the latest request (e.g. `openai/gpt-4o`).
    /// This is what the session is currently *warm on*.
    pub anchor_model: String,
    /// Provider-qualified model the session started on this warm episode — the model it
    /// would have stayed on had it *never switched*. Empty where it is not known.
    pub default_model: String,
    pub route_name: Option<String>,
    /// Hash of the stable prompt prefix (system + tools) observed when the binding was
    /// stored. Used to detect prefix drift.
    pub prefix_hash: Option<u64>,
    /// When this session was last dispatched, in milliseconds since the Unix epoch.
    pub last_used: u64,
    /// Best estimate of the cacheable context size (input tokens).
    pub cached_tokens: u64,
    /// Cumulative *never-switch* baseline for this warm episode: the running cost
    /// the session would have paid by staying on its `default_model`.
    pub baseline_usd: Natural,
    /// Cumulative overhead actually spent on paid switches this warm episode.
    pub switch_spend_usd: Natural,
    /// Number of model switches taken during this warm session.
    pub switches: u32,
    /// Bounded record of the models this session has been dispatched to.
    pub history: Vec<RouteVisit>,
    /// Cumulative *actual* cost of the whole conversation.
    pub session_cost_usd: Natural,
}

/// What a [`SessionBinding`] says.
#[verifier::ext_equal]
pub struct BindingFacts {
    pub anchor_model: Seq<char>,
    pub default_model: Seq<char>,
    pub route_name: Option<Seq<char>>,
    pub prefix_hash: Option<u64>,
    pub last_used: u64,
    pub cached_tokens: u64,
    pub baseline_usd: nat,
    pub switch_spend_usd: nat,
    pub switches: u32,
    pub history: Seq<VisitFacts>,
    pub session_cost_usd: nat,
}

impl View for SessionBinding {
    type V = BindingFacts;

    open spec fn view(&self) -> BindingFacts {
        BindingFacts {
            anchor_model: self.anchor_model@,
            default_model: self.default_model@,
            route_name: opt_text(self.route_name),
            prefix_hash: self.prefix_hash,
            last_used: self.last_used,
            cached_tokens: self.cached_tokens,
            baseline_usd: self.baseline_usd@,
            switch_spend_usd: self.switch_spend_usd@,
            switches: self.switches,
            history: visits(self.history@),
            session_cost_usd: self.session_cost_usd@,
        }
    }
}

/// Copies an optional string.
pub fn clone_opt(s: &Option<String>) -> (r: Option<String>)
    ensures
        opt_text(r) == opt_text(*s),
{
    match s {
        Some(t) => Some(t.clone()),
        None => None,
    }
}

impl Clone for SessionBinding {
    fn clone(&self) -> (r: Self)
        ensures
            r@ == self@,
    {
        SessionBinding {
            anchor_model: self.anchor_model.clone(),
            default_model: self.default_model.clone(),
            route_name: clone_opt(&self.route_name),
            prefix_hash: self.prefix_hash,
            last_used: self.last_used,
            cached_tokens: self.cached_tokens,
            baseline_usd: self.baseline_usd.clone(),
            switch_spend_usd: self.switch_spend_usd.clone(),
            switches: self.switches,
            history: clone_history(&self.history),
            session_cost_usd: self.session_cost_usd.clone(),
        }
    }
}

/// Max distinct models retained in [`SessionBinding::history`].
pub const MAX_ROUTE_HISTORY: usize = 8;

// ---------------------------------------------------------------------------
// Route history
// ---------------------------------------------------------------------------

/// The position of the first visit of a model from `i` on.
pub open spec fn visit_of(h: Seq<VisitFacts>, model: Seq<char>, i: int) -> Option<int>
    decreases h.len() - i,
{
    if i >= h.len() {
        None
    } else if h[i].model == model {
        Some(i)
    } else {
        visit_of(h, model, i + 1)
    }
}

/// The history with the visit put in: in place of the one of the same model,
/// or at the end.
pub open spec fn with_visit(h: Seq<VisitFacts>, v: VisitFacts) -> Seq<VisitFacts> {
    match visit_of(h, v.model, 0) {
        Some(i) => h.update(i, VisitFacts { model: h[i].model, ..v }),
        None => h.push(v),
    }
}

/// The position of the first of the least recent visits among the first `n`.
pub open spec fn least_recent(h: Seq<VisitFacts>, n: int) -> int
    decreases n,
{
    if n <= 1 {
        0
    } else {
        let best = least_recent(h, n - 1);
        if h[n - 1].last_used < h[best].last_used { n - 1 } else { best }
    }
}

/// The history without its least recent visits, as many as exceed the bound.
pub open spec fn bounded(h: Seq<VisitFacts>) -> Seq<VisitFacts>
    decreases h.len(),
{
    if h.len() > MAX_ROUTE_HISTORY {
        let p = least_recent(h, h.len() as int);
        if 0 <= p < h.len() { bounded(h.remove(p)) } else { h }
    } else {
        h
    }
}

/// The history after a visit.
pub open spec fn visited(h: Seq<VisitFacts>, v: VisitFacts) -> Seq<VisitFacts> {
    bounded(with_visit(h, v))
}

pub proof fn lemma_least_recent(h: Seq<VisitFacts>, n: int)
    requires
        0 < n <= h.len(),
    ensures
        0 <= least_recent(h, n) < n,
        forall|j: int| 0 <= j < n ==> h[least_recent(h, n)].last_used <= (#[trigger] h[j]).last_used,
        forall|j: int|
            0 <= j < least_recent(h, n) ==> h[least_recent(h, n)].last_used < (
            #[trigger] h[j]).last_used,
    decreases n,
{
    if n > 1 {
        lemma_least_recent(h, n - 1);
    }
}

pub proof fn lemma_visit_of(h: Seq<VisitFacts>, model: Seq<char>, i: int)
    requires
        0 <= i,
    ensures
        match visit_of(h, model, i) {
            Some(p) => i <= p < h.len() && h[p].model == model && forall|j: int|
                i <= j < p ==> (#[trigger] h[j]).model != model,
            None => forall|j: int| i <= j < h.len() ==> (#[trigger] h[j]).model != model,
        },
    decreases h.len() - i,
{
    if i < h.len() && h[i].model != model {
        lemma_visit_of(h, model, i + 1);
    }
}

fn find_visit(history: &Vec<RouteVisit>, model: &str) -> (r: Option<usize>)
    ensures
        match r {
            Some(i) => i < history@.len() && visit_of(visits(history@), model@, 0) == Some(i as int),
            None => visit_of(visits(history@), model@, 0) is None,
        },
{
    let ghost h = visits(history@);
    let mut i: usize = 0;
    while i < history.len()
        invariant
            i <= history@.len(),
            h == visits(history@),
            visit_of(h, model@, 0) == visit_of(h, model@, i as int),
        decreases history.len() - i,
    {
        assert(h[i as int] == history@[i as int]@);
        if same_text(history[i].model.as_str(), model) {
            return Some(i);
        }
        i += 1;
    }
    None
}

fn least_recent_visit(history: &Vec<RouteVisit>) -> (r: usize)
    requires
        history@.len() > 0,
    ensures
        r == least_recent(visits(history@), history@.len() as int),
        r < history@.len(),
{
    let ghost h = visits(history@);
    let mut best: usize = 0;
    let mut i: usize = 1;
    while i < history.len()
        invariant
            1 <= i <= history@.len(),
            best < i,
            h == visits(history@),
            best == least_recent(h, i as int),
        decreases history.len() - i,
    {
        assert(h[i as int] == history@[i as int]@);
        assert(h[best as int] == history@[best as int]@);
        if history[i].last_used < history[best].last_used {
            best = i;
        }
        i += 1;
    }
    best
}

/// Record (or refresh) a model visit in `history`, then drop the least recent down to
/// [`MAX_ROUTE_HISTORY`]. Refreshing an existing model updates its recency and context
/// size in place rather than appending a duplicate.
pub fn record_route_visit(
    history: &mut Vec<RouteVisit>,
    model: &str,
    last_used: u64,
    cached_tokens: u64,
)
    ensures
        visits(final(history)@) == visited(
            visits(old(history)@),
            (VisitFacts { model: model@, last_used, cached_tokens }),
        ),
{
    let ghost before = visits(history@);
    let ghost v = VisitFacts { model: model@, last_used, cached_tokens };
    match find_visit(history, model) {
        Some(i) => {
            let kept: String = history[i].model.clone();
            let entry: RouteVisit = RouteVisit { model: kept, last_used, cached_tokens };
            assert(visits(history@.update(i as int, entry)) =~= before.update(i as int, entry@));
            assert(before[i as int] == history@[i as int]@);
            history.set(i, entry);
        },
        None => {
            let entry: RouteVisit = RouteVisit {
                model: model.to_owned(),
                last_used,
                cached_tokens,
            };
            assert(visits(history@.push(entry)) =~= before.push(entry@));
            history.push(entry);
        },
    }
    while history.len() > MAX_ROUTE_HISTORY
        invariant
            visited(before, v) == bounded(visits(history@)),
        decreases history.len(),
    {
        let p: usize = least_recent_visit(history);
        assert(visits(history@.remove(p as int)) =~= visits(history@).remove(p as int));
        history.remove(p);
    }
}

// ---------------------------------------------------------------------------
// What holds of every history
// ---------------------------------------------------------------------------

/// Whether no model occurs twice.
pub open spec fn distinct_models(h: Seq<VisitFacts>) -> bool {
    forall|i: int, j: int|
        0 <= i < j < h.len() ==> (#[trigger] h[i]).model != (#[trigger] h[j]).model
}

/// Whether a visit is in a history.
pub open spec fn holds_visit(h: Seq<VisitFacts>, v: VisitFacts) -> bool {
    exists|i: int| 0 <= i < h.len() && #[trigger] h[i] == v
}

proof fn lemma_bounded(h: Seq<VisitFacts>)
    ensures
        bounded(h).len() <= MAX_ROUTE_HISTORY,
        bounded(h).len() <= h.len(),
        h.len() <= MAX_ROUTE_HISTORY ==> bounded(h) == h,
        h.len() > MAX_ROUTE_HISTORY ==> bounded(h).len() == MAX_ROUTE_HISTORY,
        distinct_models(h) ==> distinct_models(bounded(h)),
    decreases h.len(),
{
    if h.len() > MAX_ROUTE_HISTORY {
        let p = least_recent(h, h.len() as int);
        lemma_least_recent(h, h.len() as int);
        let t = h.remove(p);
        lemma_bounded(t);
        if distinct_models(h) {
            assert forall|i: int, j: int| 0 <= i < j < t.len() implies (#[trigger] t[i]).model != (
            #[trigger] t[j]).model by {
                let a = if i < p { i } else { i + 1 };
                let b = if j < p { j } else { j + 1 };
                assert(t[i] == h[a]);
                assert(t[j] == h[b]);
            }
        }
    }
}

/// A history never holds more models than the bound, and no model twice.
pub proof fn history_is_bounded(h: Seq<VisitFacts>, v: VisitFacts)
    requires
        distinct_models(h),
    ensures
        visited(h, v).len() <= MAX_ROUTE_HISTORY,
        distinct_models(visited(h, v)),
{
    lemma_visit_of(h, v.model, 0);
    let w = with_visit(h, v);
    assert(distinct_models(w)) by {
        match visit_of(h, v.model, 0) {
            Some(p) => {
                assert forall|i: int, j: int| 0 <= i < j < w.len() implies (#[trigger] w[i]).model
                    != (#[trigger] w[j]).model by {
                    assert(w[i].model == h[i].model);
                    assert(w[j].model == h[j].model);
                }
            },
            None => {
                assert forall|i: int, j: int| 0 <= i < j < w.len() implies (#[trigger] w[i]).model
                    != (#[trigger] w[j]).model by {
                    assert(w[i] == h[i]);
                    if j < h.len() {
                        assert(w[j] == h[j]);
                    }
                }
            },
        }
    }
    lemma_bounded(w);
}

proof fn lemma_latest_survives(h: Seq<VisitFacts>, v: VisitFacts)
    requires
        h.len() > 0,
        h.last() == v,
        forall|i: int| 0 <= i < h.len() ==> (#[trigger] h[i]).last_used <= v.last_used,
    ensures
        holds_visit(bounded(h), v),
    decreases h.len(),
{
    if h.len() > MAX_ROUTE_HISTORY {
        let n = h.len() as int;
        let p = least_recent(h, n);
        lemma_least_recent(h, n);
        assert(p < n - 1) by {
            if p == n - 1 {
                assert(h[p].last_used < h[0].last_used);
            }
        }
        let t = h.remove(p);
        assert(t.last() == h[n - 1]);
        assert forall|i: int| 0 <= i < t.len() implies (#[trigger] t[i]).last_used
            <= v.last_used by {
            let a = if i < p { i } else { i + 1 };
            assert(t[i] == h[a]);
        }
        lemma_latest_survives(t, v);
    } else {
        assert(h[h.len() - 1] == v);
    }
}

/// A visit that is at least as recent as every other is in the history
/// afterwards, also where room had to be made for it.
pub proof fn latest_visit_is_kept(h: Seq<VisitFacts>, v: VisitFacts)
    requires
        h.len() <= MAX_ROUTE_HISTORY,
        forall|i: int| 0 <= i < h.len() ==> (#[trigger] h[i]).last_used <= v.last_used,
    ensures
        holds_visit(visited(h, v), v),
{
    lemma_visit_of(h, v.model, 0);
    let w = with_visit(h, v);
    match visit_of(h, v.model, 0) {
        Some(p) => {
            assert(w[p] == v);
            lemma_bounded(w);
            assert(bounded(w)[p] == v);
        },
        None => {
            assert(w.last() == v);
            assert forall|i: int| 0 <= i < w.len() implies (#[trigger] w[i]).last_used
                <= v.last_used by {
                if i < h.len() {
                    assert(w[i] == h[i]);
                }
            }
            lemma_latest_survives(w, v);
        },
    }
}

// ---------------------------------------------------------------------------
// Pins
// ---------------------------------------------------------------------------

/// A routing decision a session is pinned to.
#[derive(Debug)]
pub struct CachedRoute {
    pub model_name: String,
    pub route_name: Option<String>,
    /// Hash of the prompt prefix the pin was made for.
    pub prefix_hash: Option<u64>,
    /// Whether a response has shown cache activity under this pin.
    pub observed_cache_hit: bool,
}

/// What a [`CachedRoute`] says.
pub struct PinFacts {
    pub model_name: Seq<char>,
    pub route_name: Option<Seq<char>>,
    pub prefix_hash: Option<u64>,
    pub observed_cache_hit: bool,
}

impl View for CachedRoute {
    type V = PinFacts;

    open spec fn view(&self) -> PinFacts {
        PinFacts {
            model_name: self.model_name@,
            route_name: opt_text(self.route_name),
            prefix_hash: self.prefix_hash,
            observed_cache_hit: self.observed_cache_hit,
        }
    }
}

/// A pin as it was found, and whether its time is over.
#[derive(Debug)]
pub struct CacheLookup {
    pub route: CachedRoute,
    pub is_stale: bool,
}

// ---------------------------------------------------------------------------
// Configuration
// ---------------------------------------------------------------------------

pub const DEFAULT_SESSION_MAX_ENTRIES: usize = 10_000;

pub const MAX_SESSION_MAX_ENTRIES: usize = 10_000;

/// Where session bindings are kept.
#[derive(Debug, Clone, Copy, PartialEq, Eq, Structural)]
pub enum SessionCacheType {
    Memory,
    Redis,
}

/// The backend to start, or why none can be.
#[derive(Debug)]
pub enum SessionBackend {
    Memory { max_entries: usize },
    Redis { url: String },
    MissingUrl,
}

/// The number of sessions kept in memory: as configured, but not above the maximum.
pub open spec fn session_limit(configured: Option<usize>) -> usize {
    match configured {
        Some(n) if n < MAX_SESSION_MAX_ENTRIES => n,
        Some(_) => MAX_SESSION_MAX_ENTRIES,
        None => DEFAULT_SESSION_MAX_ENTRIES,
    }
}

/// Whether `r` is the backend that is configured.
pub open spec fn is_backend_for(
    session_max_entries: Option<usize>,
    cache_type: Option<SessionCacheType>,
    url: Option<&str>,
    r: SessionBackend,
) -> bool {
    match cache_type {
        Some(SessionCacheType::Redis) => match url {
            Some(u) => r is Redis && r->url@ == u@,
            None => r is MissingUrl,
        },
        _ => r is Memory && r->max_entries == session_limit(session_max_entries),
    }
}

/// Choose the session cache backend from config. Defaults to the in-memory
/// backend when nothing is configured; the shared backend needs a url.
pub fn init_session_cache(
    session_max_entries: Option<usize>,
    cache_type: Option<SessionCacheType>,
    url: Option<&str>,
) -> (r: SessionBackend)
    ensures
        is_backend_for(session_max_entries, cache_type, url, r),
{
    match cache_type {
        Some(SessionCacheType::Redis) => match url {
            Some(u) => SessionBackend::Redis { url: u.to_owned() },
            None => SessionBackend::MissingUrl,
        },
        _ => {
            let max_entries: usize = match session_max_entries {
                Some(n) => if n < MAX_SESSION_MAX_ENTRIES {
                    n
                } else {
                    MAX_SESSION_MAX_ENTRIES
                },
                None => DEFAULT_SESSION_MAX_ENTRIES,
            };
            SessionBackend::Memory { max_entries }
        },
    }
}

/// A model's visit replaces the one before and no other; of more than eight
/// models the one goes that was not visited for longest.
pub proof fn visit_replaces_the_one_before(h: Seq<VisitFacts>, v: VisitFacts, i: int)
    requires
        distinct_models(h),
        0 <= i < h.len(),
    ensures
        h.len() < 8 && h[i].model != v.model ==> holds_visit(visited(h, v), h[i]),
        h.len() < 8 ==> holds_visit(visited(h, v), v),
        h.len() < 8 && h[i].model == v.model ==> visited(h, v).len() == h.len(),
        visited(h, v).len() <= 8,
        h.len() == 8 && (forall|j: int| 0 <= j < h.len() ==> (#[trigger] h[j]).model != v.model)
            && (exists|j: int|
            0 <= j < h.len() && (#[trigger] h[j]).last_used < h[i].last_used) && v.last_used
            >= h[i].last_used ==> holds_visit(visited(h, v), h[i]),
{
    lemma_visit_of(h, v.model, 0);
    let w = with_visit(h, v);
    lemma_bounded(w);
    match visit_of(h, v.model, 0) {
        Some(p) => {
            assert(w[p] == v);
            assert(w.len() == h.len());
            if h[i].model != v.model {
                assert(w[i] == h[i]);
            }
            if h.len() < 8 {
                assert(bounded(w) == w);
            }
        },
        None => {
            assert(w[h.len() as int] == v);
            assert(w[i] == h[i]);
            if h.len() < 8 {
                assert(bounded(w) == w);
            }
            if h.len() == 8 && (exists|j: int|
                0 <= j < h.len() && (#[trigger] h[j]).last_used < h[i].last_used) {
                let j = choose|j: int|
                    0 <= j < h.len() && (#[trigger] h[j]).last_used < h[i].last_used;
                let p = least_recent(w, 9);
                lemma_least_recent(w, 9);
                assert(w[j].last_used < w[i].last_used);
                assert(p != i);
                let t = w.remove(p);
                assert(t.len() == 8);
                assert(bounded(t) == t);
                assert(bounded(w) == t);
                assert(t[if i < p { i } else { i - 1 }] == h[i]);
            }
        },
    }
}

/// Sessions are kept in memory unless the shared store is asked for, which
/// needs a url; never more than ten thousand of them.
pub proof fn backend_is_as_configured(
    limit: Option<usize>,
    cache_type: Option<SessionCacheType>,
    url: Option<&str>,
    r: SessionBackend,
)
    requires
        is_backend_for(limit, cache_type, url, r),
    ensures
        cache_type is None || cache_type->0 is Memory ==> r is Memory && r->max_entries <= 10_000,
        cache_type is None && limit is Some && limit->0 <= 10_000 ==> r->max_entries == limit->0,
        cache_type is None && (limit is None || limit->0 > 10_000) ==> r->max_entries == 10_000,
        cache_type is Some && cache_type->0 is Redis && url is Some ==> r is Redis && r->url@
            == url->0@,
        cache_type is Some && cache_type->0 is Redis && url is None ==> r is MissingUrl,
{
}

} // verus!
