//! What holds of every route, and of what the routing model is asked.

use crate::expiring_map::{current, only_the_oldest_makes_room, value_lives_for_its_time, Stamped};
use crate::router::llm::{knows, model_for, plan_fits, route_fits, RouterPlan};
use crate::router::model_metrics::{ModelMetricsService, RankContext, SelectionPreference};
use crate::router::orchestrator::{
    binding_fits, millis, preference_for, question_fits, ranks_preference, selection_fits,
    store_fits,
};
use crate::router::orchestrator_model::OrchestratorSelection;
use crate::router::preferences::{
    effective, last_definition_is_effective, last_named, provider_usages, redefined,
    sentinel_usages, sentinels_upto, usage_index, usage_of, usage_table, usages, usages_of,
    with_usage, LlmProvider, ModelUsagePreference, PreferenceFacts, UsageFacts,
};
use crate::session_cache::memory::MemorySessionCache;
use crate::session_cache::SessionBinding;
use crate::text::texts;
use vstd::prelude::*;

verus! {

// ---------------------------------------------------------------------------
// What is asked
// ---------------------------------------------------------------------------

/// Without a message nobody is asked for a route.
pub proof fn no_message_no_route(
    given: Option<Vec<ModelUsagePreference>>,
    own: Option<Seq<PreferenceFacts>>,
    configured: Seq<PreferenceFacts>,
    usage_defined: bool,
    plan: RouterPlan,
    asked: Option<Vec<ModelUsagePreference>>,
)
    requires
        plan_fits(false, given, own, configured, usage_defined, plan),
        question_fits(false, own, configured, asked),
    ensures
        plan is NoRouting,
        asked is None,
{
}

/// A single usage leaves nothing to choose; two of them, a configured usage
/// or a top-level preference do.
pub proof fn a_choice_calls_for_routing(
    given: Option<Vec<ModelUsagePreference>>,
    own: Option<Seq<PreferenceFacts>>,
    configured: Seq<PreferenceFacts>,
    usage_defined: bool,
    plan: RouterPlan,
)
    requires
        plan_fits(true, given, own, configured, usage_defined, plan),
    ensures
        usage_defined || own is Some || configured.len() > 0 ==> plan is Ask,
        given is Some && given->0@.len() > 1 ==> plan is Ask,
        !usage_defined && own is None && configured.len() == 0 && (given is Some
            ==> given->0@.len() <= 1) ==> plan is NoRouting,
{
}

/// A request's own preferences go before the configured ones, and these before
/// the usages it gives.
pub proof fn own_preferences_are_asked_about(
    given: Option<Vec<ModelUsagePreference>>,
    own: Option<Seq<PreferenceFacts>>,
    configured: Seq<PreferenceFacts>,
    usage_defined: bool,
    plan: RouterPlan,
    asked: Option<Vec<ModelUsagePreference>>,
)
    requires
        plan_fits(true, given, own, configured, usage_defined, plan),
        question_fits(true, own, configured, asked),
    ensures
        own is Some ==> (plan matches RouterPlan::Ask(a) && a is Some && usages(a->0@)
            == usages_of(own->0)),
        own is None && configured.len() > 0 ==> plan == RouterPlan::Ask(None),
        own is None && configured.len() == 0 && given is Some && given->0@.len() > 1 ==> plan
            == RouterPlan::Ask(given),
        own is Some && asked is Some ==> usages(asked->0@) == usages_of(own->0),
        own is None && asked is Some ==> usages(asked->0@) == usages_of(configured),
{
}

/// The routing model is told each preference once, under its first model, by
/// name and description, and of one defined twice the last definition.
pub proof fn last_definition_is_asked_about(s: Seq<PreferenceFacts>, p: PreferenceFacts)
    requires
        last_named(s, p.name) == Some(p),
    ensures
        exists|i: int|
            0 <= i < usages_of(s).len() && (#[trigger] usages_of(s)[i]).routes.len() == 1
                && usages_of(s)[i].routes[0].name == p.name
                && usages_of(s)[i].routes[0].description == p.description && (p.models.len() > 0
                ==> usages_of(s)[i].model == p.models[0]),
{
    last_definition_is_effective(s, p);
    let e = effective(s);
    let k = choose|k: int| 0 <= k < e.len() && e[k] == p;
    assert(usages_of(s)[k] == usage_of(p));
}

/// A later definition of a name replaces an earlier one, and no other.
pub proof fn later_definition_counts(
    s: Seq<PreferenceFacts>,
    p: PreferenceFacts,
    name: Seq<char>,
)
    ensures
        last_named(s.push(p), p.name) == Some(p),
        name != p.name ==> last_named(s.push(p), name) == last_named(s, name),
        last_named(Seq::empty(), name) is None,
{
    assert(s.push(p).drop_last() =~= s);
}

proof fn lemma_usage_index(s: Seq<UsageFacts>, model: Seq<char>, i: int)
    requires
        0 <= i <= s.len(),
    ensures
        match usage_index(s, model, i) {
            Some(k) => i <= k < s.len() && s[k].model == model,
            None => forall|k: int| i <= k < s.len() ==> (#[trigger] s[k]).model != model,
        },
    decreases s.len() - i,
{
    if i < s.len() && s[i].model != model {
        lemma_usage_index(s, model, i + 1);
    }
}

/// Whether a table holds a usage.
pub open spec fn lists_usage(s: Seq<UsageFacts>, u: UsageFacts) -> bool {
    exists|i: int| 0 <= i < s.len() && #[trigger] s[i] == u
}

/// Of two usages of one model the later one is known; those of other models
/// are kept.
pub proof fn later_usage_of_a_model_counts(s: Seq<UsageFacts>, u: UsageFacts, other: UsageFacts)
    ensures
        lists_usage(usage_table(s.push(u)), u),
        other.model != u.model && lists_usage(usage_table(s), other) ==> lists_usage(
            usage_table(s.push(u)),
            other,
        ),
        other.model == u.model && other != u && (forall|i: int, j: int|
            0 <= i < j < usage_table(s).len() ==> (#[trigger] usage_table(s)[i]).model != (
            #[trigger] usage_table(s)[j]).model) ==> !lists_usage(usage_table(s.push(u)), other),
{
    assert(s.push(u).drop_last() =~= s);
    let t = usage_table(s);
    let w = with_usage(t, u);
    lemma_usage_index(t, u.model, 0);
    match usage_index(t, u.model, 0) {
        Some(k) => {
            assert(w[k] == u);
        },
        None => {
            assert(w[t.len() as int] == u);
        },
    }
    if other.model != u.model && lists_usage(t, other) {
        let i = choose|i: int| 0 <= i < t.len() && #[trigger] t[i] == other;
        assert(w[i] == other);
    }
    if other.model == u.model && other != u && lists_usage(w, other) && (forall|i: int, j: int|
        0 <= i < j < t.len() ==> (#[trigger] t[i]).model != (#[trigger] t[j]).model) {
        let i = choose|i: int| 0 <= i < w.len() && #[trigger] w[i] == other;
        assert(i < t.len());
        assert(t[i] == other);
    }
}

/// A provider's routes are known under its name; one without routes is not.
pub proof fn providers_bring_their_routes(s: Seq<LlmProvider>, p: LlmProvider)
    ensures
        p.routing_preferences is Some ==> provider_usages(s.push(p)).len() == provider_usages(
            s,
        ).len() + 1 && provider_usages(s.push(p)).last().model == p.name@ && provider_usages(
            s.push(p),
        ).last().routes.len() == p.routing_preferences->0@.len() && provider_usages(
            s.push(p),
        ).drop_last() == provider_usages(s),
        p.routing_preferences is None ==> provider_usages(s.push(p)) == provider_usages(s),
{
    assert(s.push(p).drop_last() =~= s);
    if p.routing_preferences is Some {
        assert(provider_usages(s.push(p)).drop_last() =~= provider_usages(s));
    }
}

proof fn lemma_sentinels(s: Seq<PreferenceFacts>, n: int, i: int)
    requires
        0 <= i < n <= s.len(),
        !redefined(s, i),
        s[i].models.len() > 0,
    ensures
        lists_usage(sentinels_upto(s, n), usage_of(s[i])),
    decreases n,
{
    let now = sentinels_upto(s, n);
    if i == n - 1 {
        assert(now[now.len() - 1] == usage_of(s[i]));
    } else {
        lemma_sentinels(s, n - 1, i);
        let before = sentinels_upto(s, n - 1);
        let k = choose|k: int| 0 <= k < before.len() && #[trigger] before[k] == usage_of(s[i]);
        assert(now[k] == before[k]);
    }
}

/// The routing model knows every preference that names a model, under the
/// first of them.
pub proof fn preferences_are_known_by_their_first_model(s: Seq<PreferenceFacts>, i: int)
    requires
        0 <= i < s.len(),
        s[i].models.len() > 0,
        forall|j: int| i < j < s.len() ==> (#[trigger] s[j]).name != s[i].name,
    ensures
        exists|k: int|
            0 <= k < sentinel_usages(s).len() && (#[trigger] sentinel_usages(s)[k]).model
                == s[i].models[0] && sentinel_usages(s)[k].routes.len() == 1
                && sentinel_usages(s)[k].routes[0].name == s[i].name
                && sentinel_usages(s)[k].routes[0].description == s[i].description,
{
    assert(!redefined(s, i));
    lemma_sentinels(s, s.len() as int, i);
    let t = sentinel_usages(s);
    let k = choose|k: int| 0 <= k < t.len() && #[trigger] t[k] == usage_of(s[i]);
    assert(t[k].model == s[i].models[0]);
}

// ---------------------------------------------------------------------------
// Which route is taken
// ---------------------------------------------------------------------------

/// The first of the selected routes is taken, whatever follows it, with the
/// models of the request's own definition before those of the configuration.
pub proof fn first_selected_route_is_taken(
    reply: OrchestratorSelection,
    own: Seq<PreferenceFacts>,
    configured: Seq<PreferenceFacts>,
    p: PreferenceFacts,
    ctx: RankContext,
    r: Option<(String, Vec<String>)>,
)
    requires
        reply.routes@.len() > 0,
        reply.routes@[0].0@ == p.name,
        selection_fits(Some(&reply), Some(own), configured, None, ctx, r),
        last_named(own, p.name) == Some(p) || last_named(own, p.name) is None && last_named(
            configured,
            p.name,
        ) == Some(p),
    ensures
        r is Some,
        (r->0).0@ == p.name,
        texts((r->0).1@) == p.models,
{
}

/// A route that nobody defined is not taken, and neither is any without a
/// selection.
pub proof fn undefined_route_is_not_taken(
    reply: Option<&OrchestratorSelection>,
    own: Option<Seq<PreferenceFacts>>,
    configured: Seq<PreferenceFacts>,
    metrics: Option<ModelMetricsService>,
    ctx: RankContext,
    r: Option<(String, Vec<String>)>,
)
    requires
        selection_fits(reply, own, configured, metrics, ctx, r),
        reply is None || reply->0.routes@.len() == 0 || (last_named(
            configured,
            reply->0.routes@[0].0@,
        ) is None && (own is Some ==> last_named(own->0, reply->0.routes@[0].0@) is None)),
    ensures
        r is None,
{
}

/// A preference without an order of its own gives its models as they stand,
/// with prices at hand or not.
pub proof fn unranked_models_stay_as_they_stand(
    metrics: Option<ModelMetricsService>,
    p: PreferenceFacts,
    ctx: RankContext,
    ranked: Seq<Seq<char>>,
)
    requires
        p.policy == SelectionPreference::Unranked || metrics is None,
        ranks_preference(metrics, p, ctx, ranked),
    ensures
        ranked == p.models,
{
}

/// A route that is defined leads to the first of its models; one that is not
/// leads to the model that the reply names; no reply leads nowhere.
pub proof fn reply_leads_to_a_model(
    route: String,
    sentinel: String,
    own: Option<Seq<PreferenceFacts>>,
    configured: Seq<PreferenceFacts>,
    ctx: RankContext,
    r: Option<(String, String)>,
    none: Option<(String, String)>,
)
    requires
        route_fits(Some((route, sentinel)), own, configured, None, ctx, r),
        route_fits(None, own, configured, None, ctx, none),
    ensures
        none is None,
        r is Some,
        (r->0).0@ == route@,
        own is None && last_named(configured, route@) is None ==> (r->0).1@ == sentinel@,
        own is None && last_named(configured, route@) is Some && last_named(
            configured,
            route@,
        )->0.models.len() > 0 ==> (r->0).1@ == last_named(configured, route@)->0.models[0],
        own is Some && last_named(own->0, route@) is Some && last_named(
            own->0,
            route@,
        )->0.models.len() > 0 ==> (r->0).1@ == last_named(own->0, route@)->0.models[0],
{
    let p = preference_for(own, configured, route@);
    assert(model_for(p, None, ctx, sentinel@, (r->0).1@));
}

// ---------------------------------------------------------------------------
// Bindings
// ---------------------------------------------------------------------------

/// A session's binding is given back as it was stored until its time is over:
/// ten minutes where nothing else is said.
pub proof fn stored_binding_is_given_back(
    before: MemorySessionCache,
    key: Seq<char>,
    binding: SessionBinding,
    stored_at: u64,
    ttl: u64,
    after: Option<MemorySessionCache>,
    now: u64,
    r: Option<SessionBinding>,
)
    requires
        store_fits(Some(before), key, binding, stored_at, ttl, after),
        binding_fits(after, key, now, r),
        stored_at <= now,
    ensures
        now < stored_at + ttl ==> r is Some && r->0@ == binding@,
        now >= stored_at + ttl ==> r is None,
        millis(600) == 600_000,
        millis(1) == 1_000,
{
    value_lives_for_its_time(
        before@,
        before.size(),
        before.limit(),
        key,
        Stamped { value: binding, stored_at, ttl },
        after->0@,
        after->0.size(),
        now,
    );
}

/// Storing a session's binding leaves another's alone while there is room.
pub proof fn other_bindings_are_left_alone(
    before: MemorySessionCache,
    key: Seq<char>,
    binding: SessionBinding,
    stored_at: u64,
    ttl: u64,
    after: Option<MemorySessionCache>,
    other: Seq<char>,
    now: u64,
)
    requires
        store_fits(Some(before), key, binding, stored_at, ttl, after),
        before.size() < before.limit(),
        other != key,
    ensures
        after is Some,
        current(after->0@, other, now) == current(before@, other, now),
{
    only_the_oldest_makes_room(
        before@,
        before.size(),
        before.limit(),
        key,
        Stamped { value: binding, stored_at, ttl },
        after->0@,
        after->0.size(),
        other,
        key,
        now,
    );
}

/// Where no bindings are kept, none is given.
pub proof fn without_a_cache_nothing_is_kept(
    key: Seq<char>,
    binding: SessionBinding,
    stored_at: u64,
    ttl: u64,
    after: Option<MemorySessionCache>,
    now: u64,
    r: Option<SessionBinding>,
)
    requires
        store_fits(None, key, binding, stored_at, ttl, after),
        binding_fits(after, key, now, r),
    ensures
        r is None,
{
}

/// Top-level preferences replace those of the providers. A single one defines
/// a use, and so does a single provider with routes.
pub proof fn top_level_preferences_replace_those_of_providers(
    providers: Seq<LlmProvider>,
    p: LlmProvider,
    top_level: Option<Seq<PreferenceFacts>>,
    configured: Seq<PreferenceFacts>,
    routes: Seq<UsageFacts>,
    usage_defined: bool,
)
    requires
        knows(providers.push(p), top_level, configured, routes, usage_defined),
    ensures
        top_level is Some ==> configured == top_level->0 && knows(
            Seq::empty(),
            top_level,
            configured,
            routes,
            usage_defined,
        ),
        top_level is Some && top_level->0.len() > 0 ==> usage_defined,
        top_level is Some && top_level->0.len() == 0 ==> !usage_defined,
        top_level is None ==> configured.len() == 0,
        top_level is None && p.routing_preferences is Some ==> usage_defined && lists_usage(
            routes,
            provider_usages(providers.push(p)).last(),
        ),
        top_level is None && p.routing_preferences is None && provider_usages(providers).len() == 0
            ==> !usage_defined,
{
    providers_bring_their_routes(providers, p);
    if top_level is None && p.routing_preferences is Some {
        let before = provider_usages(providers);
        let u = provider_usages(providers.push(p)).last();
        assert(provider_usages(providers.push(p)) =~= before.push(u));
        later_usage_of_a_model_counts(before, u, u);
    }
}

} // verus!
