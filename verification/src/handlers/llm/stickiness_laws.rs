//! What holds of every pin, and of every switch that a pin weighs against.

use crate::assoc::named;
use crate::handlers::llm::session_stickiness::{
    gate_outcome_fits, pin_lookup_fits, pin_plan_fits, weighed, GateOutcome, PinAction,
    PinLookup, PinPlan, PromptCaching, SessionStickiness,
};
use crate::router::cache_regret::{
    fixed_ceiling_bounds_the_extra_cost, relative_ceiling_bounds_the_price_ratio,
    SwitchCostThreshold, SwitchDecision,
};
use crate::router::model_metrics::ModelPricing;
use crate::session_cache::{CacheLookup, PinFacts};
use vstd::prelude::*;

verus! {

/// A pin is followed exactly while it is fresh and the prompt did not change;
/// any other pin is only remembered, with whether the prompt changed.
pub proof fn fresh_pin_is_followed(r: PinLookup, found: CacheLookup, hash: Option<u64>)
    requires
        pin_lookup_fits(r, Some(found), hash),
    ensures
        ({
            let changed = found.route.prefix_hash is Some && hash is Some
                && found.route.prefix_hash->0 != hash->0;
            &&& (r.pinned_route == Some(found.route)) == (!found.is_stale && !changed)
            &&& (r.previous_route == Some(found.route)) == (found.is_stale || changed)
            &&& r.pinned_route is None || r.previous_route is None
            &&& r.previous_prefix_drifted == changed
        }),
{
}

/// Where no pin was found, none is followed or remembered.
pub proof fn missing_pin_is_nothing(r: PinLookup, hash: Option<u64>)
    requires
        pin_lookup_fits(r, None, hash),
    ensures
        r.pinned_route is None,
        r.previous_route is None,
        !r.previous_prefix_drifted,
{
}

/// An explicit session is pinned at once to its model, for the configured
/// time, and an implicit one only once its cache was seen to work; nothing is
/// pinned without a session or with caching off.
pub proof fn implicit_sessions_are_pinned_after_a_hit(
    r: PinPlan,
    caching: PromptCaching,
    has_session: bool,
    is_implicit: bool,
    pin: PinFacts,
)
    requires
        pin_plan_fits(r, caching, has_session, is_implicit, pin),
    ensures
        (r.store is Some) == (caching.enabled && has_session && !is_implicit),
        r.store is Some ==> r.store->0@ == pin && r.ttl_seconds == caching.session_ttl_seconds,
        (r.action is Some) == (caching.enabled && has_session),
        (r.action == Some(PinAction::CommitOnCacheActivity)) == (caching.enabled && has_session
            && is_implicit),
        r.action is Some && r.action->0 is Refresh ==> r.action->0->previously_observed_hit
            == pin.observed_cache_hit,
{
}

/// What a token read from the cache costs, in 10^-18 USD.
pub open spec fn cached_token(p: ModelPricing, s: SessionStickiness) -> int {
    if p.cached_input_per_million is Some {
        p.cached_input_per_million->0 * 1_000_000
    } else {
        p.input_per_million * s.cache_read_discount
    }
}

/// A switch away from a pin is vetoed exactly where the pin's cache was seen
/// to work, the prompt did not change, both prices are known, and reading the
/// context in full on the candidate costs more than the ceiling above reading
/// it from the cache. A vetoed switch leaves the pin's model and route, any
/// other the candidate's.
pub proof fn unaffordable_switch_is_vetoed(
    r: GateOutcome,
    s: SessionStickiness,
    previous: PinFacts,
    drifted: bool,
    tokens: u64,
    prices: Seq<(String, ModelPricing)>,
    before: (Seq<char>, Option<Seq<char>>),
    after: (Seq<char>, Option<Seq<char>>),
)
    requires
        gate_outcome_fits(r, Some(s), Some(previous), drifted, tokens, prices, before, after),
        tokens > 0,
    ensures
        r.retained ==> after == (previous.model_name, previous.route_name),
        !r.retained ==> after == before,
        !previous.observed_cache_hit || drifted || previous.model_name == before.0 || named(
            prices,
            previous.model_name,
        ) is None || named(prices, before.0) is None ==> !r.retained && r.evaluation is None,
        previous.observed_cache_hit && !drifted && previous.model_name != before.0 && named(
            prices,
            previous.model_name,
        ) is Some && named(prices, before.0) is Some ==> {
            let stay = cached_token(named(prices, previous.model_name)->0, s);
            let leave = named(prices, before.0)->0.input_per_million * 1_000_000;
            &&& r.evaluation is Some
            &&& match s.switch_cost {
                SwitchCostThreshold::MaxRegretUsd { value } => r.retained == (tokens * leave
                    > tokens * stay + value),
                SwitchCostThreshold::MaxRegretPctOfCached { value } => r.retained == (100
                    * value.den * leave > (100 * value.den + value.num) * stay),
            }
        },
        (r.counterfactual is Some) == (r.retained && s.record_counterfactual),
{
    if named(prices, previous.model_name) is Some && named(prices, before.0) is Some {
        let stay = named(prices, previous.model_name)->0.cached_rate(s.cache_read_discount);
        let leave = named(prices, before.0)->0.uncached_rate();
        match s.switch_cost {
            SwitchCostThreshold::MaxRegretUsd { value } => {
                fixed_ceiling_bounds_the_extra_cost(value, tokens as nat, stay, leave);
            },
            SwitchCostThreshold::MaxRegretPctOfCached { value } => {
                relative_ceiling_bounds_the_price_ratio(value, tokens as nat, stay, leave);
            },
        }
    }
}

/// Without settings or without a pin nothing is vetoed.
pub proof fn nothing_to_lose_vetoes_nothing(
    r: GateOutcome,
    s: Option<SessionStickiness>,
    previous: Option<PinFacts>,
    drifted: bool,
    tokens: u64,
    prices: Seq<(String, ModelPricing)>,
    before: (Seq<char>, Option<Seq<char>>),
    after: (Seq<char>, Option<Seq<char>>),
)
    requires
        gate_outcome_fits(r, s, previous, drifted, tokens, prices, before, after),
        s is None || previous is None,
    ensures
        !r.retained,
        after == before,
        r.counterfactual is None,
{
}

/// A switch that was weighed comes with its regret: what the context costs more
/// on the candidate than on the model that has it cached, and with the
/// decision it led to.
pub proof fn weighed_switch_tells_its_regret(
    r: GateOutcome,
    stickiness: Option<SessionStickiness>,
    previous: Option<PinFacts>,
    drifted: bool,
    tokens: u64,
    prices: Seq<(String, ModelPricing)>,
    before: (Seq<char>, Option<Seq<char>>),
    after: (Seq<char>, Option<Seq<char>>),
)
    requires
        gate_outcome_fits(r, stickiness, previous, drifted, tokens, prices, before, after),
    ensures
        ({
            let rates = weighed(stickiness, previous, drifted, prices, before.0);
            &&& r.evaluation is Some <==> rates is Some
            &&& r.evaluation is Some ==> r.evaluation->0.regret@.delta() == tokens * ((rates->0).1
                - (rates->0).0)
            &&& r.evaluation is Some ==> (r.retained <==> r.evaluation->0.decision
                == SwitchDecision::RetainPrevious)
            &&& r.evaluation is None ==> !r.retained && after == before
            &&& r.retained ==> previous is Some && after == (
                previous->0.model_name,
                previous->0.route_name,
            )
        }),
{
}

} // verus!
