//! Routing by a routing model: what it is asked, and what follows from its reply.

use crate::chat::Message;
use crate::router::model_metrics::{ModelMetricsService, RankContext};
use crate::router::orchestrator::{
    find_route, opt_preferences, preference_for, ranks_preference,
};
use crate::router::preferences::{
    preferences, provider_usages, sentinel_usages, sentinels, tabulate, usage_preferences,
    usage_table, usages, usages_of, usages_of_providers, LlmProvider, ModelUsagePreference,
    PreferenceFacts, TopLevelRoutingPreference, UsageFacts,
};
use crate::text::{concat2, texts};
use vstd::prelude::*;

verus! {

/// Why a route could not be determined.
#[derive(Debug)]
pub enum RoutingError {
    /// The routing model could not be reached.
    Http(String),
    /// Its reply could not be read.
    RouterModelError(String),
}

impl RoutingError {
    /// The error in words.
    pub fn message(&self) -> (r: String)
        ensures
            r@ == (match *self {
                RoutingError::Http(m) => m@,
                RoutingError::RouterModelError(m) => "Router model error: "@ + m@,
            }),
    {
        match self {
            RoutingError::Http(m) => m.clone(),
            RoutingError::RouterModelError(m) => concat2("Router model error: ", m.as_str()),
        }
    }
}

/// The configured routes and what models are chosen by.
pub struct RouterService {
    routes: Vec<ModelUsagePreference>,
    llm_usage_defined: bool,
    top_level_preferences: Vec<TopLevelRoutingPreference>,
    metrics_service: Option<ModelMetricsService>,
}

/// What the routing model is asked, if it is asked.
#[derive(Debug)]
pub enum RouterPlan {
    /// There is nothing to route by.
    NoRouting,
    /// It is asked about these routes, or about the configured ones.
    Ask(Option<Vec<ModelUsagePreference>>),
}

/// The model of a reply: that of the preference the route stands for, in the
/// order of its policy, else the one the routing model gave.
pub open spec fn model_for(
    pref: Option<PreferenceFacts>,
    metrics: Option<ModelMetricsService>,
    ctx: RankContext,
    sentinel: Seq<char>,
    model: Seq<char>,
) -> bool {
    match pref {
        Some(p) => exists|ranked: Seq<Seq<char>>|
            #[trigger] ranks_preference(metrics, p, ctx, ranked) && model == (if ranked.len() > 0 {
                ranked[0]
            } else {
                Seq::empty()
            }),
        None => model == sentinel,
    }
}

/// Whether `r` is what the routing model is asked. Nothing without messages,
/// nor where neither at least two usages are given, nor usages are configured,
/// nor there are top-level preferences.
pub open spec fn plan_fits(
    has_messages: bool,
    given: Option<Vec<ModelUsagePreference>>,
    own: Option<Seq<PreferenceFacts>>,
    configured: Seq<PreferenceFacts>,
    usage_defined: bool,
    r: RouterPlan,
) -> bool {
    let top_level = own is Some || configured.len() > 0;
    let several = given is Some && given->0@.len() >= 2;
    let routed = has_messages && (several || usage_defined || top_level);
    match r {
        RouterPlan::NoRouting => !routed,
        RouterPlan::Ask(asked) => routed && (match own {
            Some(v) => asked is Some && usages(asked->0@) == usages_of(v),
            None => if configured.len() > 0 {
                asked is None
            } else {
                asked == given
            },
        }),
    }
}

/// Whether `r` is the route and the model that follow from what was read from
/// the routing model's reply.
pub open spec fn route_fits(
    parsed: Option<(String, String)>,
    own: Option<Seq<PreferenceFacts>>,
    configured: Seq<PreferenceFacts>,
    metrics: Option<ModelMetricsService>,
    ctx: RankContext,
    r: Option<(String, String)>,
) -> bool {
    match parsed {
        None => r is None,
        Some((route, sentinel)) => {
            &&& r is Some
            &&& (r->0).0@ == route@
            &&& model_for(
                preference_for(own, configured, route@),
                metrics,
                ctx,
                sentinel@,
                (r->0).1@,
            )
        },
    }
}

/// Whether these are the preferences, the routes and whether there are any,
/// of a service for providers and top-level preferences.
pub open spec fn knows(
    providers: Seq<LlmProvider>,
    top_level: Option<Seq<PreferenceFacts>>,
    configured: Seq<PreferenceFacts>,
    routes: Seq<UsageFacts>,
    usage_defined: bool,
) -> bool {
    match top_level {
        Some(v) => {
            &&& configured == v
            &&& routes == usage_table(sentinel_usages(v))
            &&& usage_defined == (v.len() > 0)
        },
        None => {
            &&& configured == Seq::<PreferenceFacts>::empty()
            &&& routes == usage_table(provider_usages(providers))
            &&& usage_defined == (provider_usages(providers).len() > 0)
        },
    }
}

impl RouterService {
    /// The routes by model that the routing model knows.
    pub closed spec fn known_routes(&self) -> Seq<UsageFacts> {
        usages(self.routes@)
    }

    /// Whether routes are configured at all.
    pub closed spec fn usage_defined(&self) -> bool {
        self.llm_usage_defined
    }

    /// The configured top-level preferences.
    pub closed spec fn configured(&self) -> Seq<PreferenceFacts> {
        preferences(self.top_level_preferences@)
    }

    /// Prices and latencies.
    pub closed spec fn metrics(&self) -> Option<ModelMetricsService> {
        self.metrics_service
    }

    /// A service for the configured preferences: the top-level ones where they
    /// are given, else those of the providers. Of top-level preferences with
    /// the same first model the later one is known to the routing model.
    pub fn new(
        providers: &Vec<LlmProvider>,
        top_level_prefs: Option<Vec<TopLevelRoutingPreference>>,
        metrics_service: Option<ModelMetricsService>,
    ) -> (r: Self)
        ensures
            r.metrics() == metrics_service,
            knows(
                providers@,
                match top_level_prefs {
                    Some(v) => Some(preferences(v@)),
                    None => None,
                },
                r.configured(),
                r.known_routes(),
                r.usage_defined(),
            ),
    {
        match top_level_prefs {
            Some(prefs) => {
                let routes: Vec<ModelUsagePreference> = tabulate(sentinels(&prefs));
                let llm_usage_defined: bool = prefs.len() > 0;
                RouterService {
                    routes,
                    llm_usage_defined,
                    top_level_preferences: prefs,
                    metrics_service,
                }
            },
            None => {
                let list: Vec<ModelUsagePreference> = usages_of_providers(providers);
                let llm_usage_defined: bool = list.len() > 0;
                assert(usages(list@).len() == list@.len());
                let none: Vec<TopLevelRoutingPreference> = Vec::new();
                assert(preferences(none@) =~= Seq::empty());
                RouterService {
                    routes: tabulate(list),
                    llm_usage_defined,
                    top_level_preferences: none,
                    metrics_service,
                }
            },
        }
    }

    /// The routes by model that the routing model knows.
    pub fn routes(&self) -> (r: &Vec<ModelUsagePreference>)
        ensures
            usages(r@) == self.known_routes(),
    {
        &self.routes
    }

    /// What the routing model is asked for a request. A request's own
    /// top-level preferences override the configured ones, which the routing
    /// model knows; a request's usage preferences count where there are none,
    /// and call for routing only where there are at least two.
    pub fn plan_route(
        &self,
        messages: &[Message],
        usage_preferences_given: Option<Vec<ModelUsagePreference>>,
        inline_routing_preferences: Option<&Vec<TopLevelRoutingPreference>>,
    ) -> (r: RouterPlan)
        ensures
            plan_fits(
                messages@.len() > 0,
                usage_preferences_given,
                opt_preferences(inline_routing_preferences),
                self.configured(),
                self.usage_defined(),
                r,
            ),
    {
        if messages.len() == 0 {
            return RouterPlan::NoRouting;
        }
        let several: bool = match &usage_preferences_given {
            Some(v) => v.len() >= 2,
            None => false,
        };
        let has_config: bool = self.top_level_preferences.len() > 0;
        if !several && !self.llm_usage_defined && !has_config
            && inline_routing_preferences.is_none() {
            return RouterPlan::NoRouting;
        }
        match inline_routing_preferences {
            Some(v) => RouterPlan::Ask(Some(usage_preferences(v))),
            None => if has_config {
                RouterPlan::Ask(None)
            } else {
                RouterPlan::Ask(usage_preferences_given)
            },
        }
    }

    /// The route and the model of a request, from the route and the model that
    /// were read from the routing model's reply.
    pub fn determine_route(
        &self,
        parsed: Option<(String, String)>,
        inline_routing_preferences: Option<&Vec<TopLevelRoutingPreference>>,
        ctx: &RankContext,
    ) -> (r: Option<(String, String)>)
        ensures
            route_fits(
                parsed,
                opt_preferences(inline_routing_preferences),
                self.configured(),
                self.metrics(),
                *ctx,
                r,
            ),
    {
        let (route_name, sentinel_model) = match parsed {
            Some(p) => p,
            None => {
                return None;
            },
        };
        match find_route(
            inline_routing_preferences,
            &self.top_level_preferences,
            route_name.as_str(),
        ) {
            Some(pref) => {
                let selected: String = match &self.metrics_service {
                    Some(m) => {
                        let ranked: Vec<String> = m.rank_models(
                            &pref.models,
                            pref.selection_policy,
                            ctx,
                        );
                        proof {
                            assert(ranks_preference(self.metrics(), pref@, *ctx, texts(ranked@)));
                        }
                        first_or_empty(&ranked)
                    },
                    None => {
                        proof {
                            assert(ranks_preference(
                                self.metrics(),
                                pref@,
                                *ctx,
                                texts(pref.models@),
                            ));
                        }
                        first_or_empty(&pref.models)
                    },
                };
                Some((route_name, selected))
            },
            None => Some((route_name, sentinel_model)),
        }
    }
}

/// The first text, or the empty one.
pub fn first_or_empty(v: &Vec<String>) -> (r: String)
    ensures
        r@ == (if v@.len() > 0 { texts(v@)[0] } else { Seq::empty() }),
{
    if v.len() > 0 {
        v[0].clone()
    } else {
        let r: String = String::new();
        assert(r@ =~= Seq::empty());
        r
    }
}

} // verus!
