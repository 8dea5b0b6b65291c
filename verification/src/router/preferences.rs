//! Which models a request may be routed to, and for what.

use crate::router::model_metrics::SelectionPreference;
use crate::text::{same_text, texts};
use vstd::prelude::*;

verus! {

/// A route and what it is for.
#[derive(Debug)]
pub struct RoutingPreference {
    pub name: String,
    pub description: String,
}

/// What a [`RoutingPreference`] says.
pub struct RouteText {
    pub name: Seq<char>,
    pub description: Seq<char>,
}

impl View for RoutingPreference {
    type V = RouteText;

    open spec fn view(&self) -> RouteText {
        RouteText { name: self.name@, description: self.description@ }
    }
}

/// What a list of routes says.
pub open spec fn route_texts(v: Seq<RoutingPreference>) -> Seq<RouteText> {
    Seq::new(v.len(), |i: int| v[i]@)
}

/// A model and the routes it serves.
#[derive(Debug)]
pub struct ModelUsagePreference {
    pub model: String,
    pub routing_preferences: Vec<RoutingPreference>,
}

/// What a [`ModelUsagePreference`] says.
pub struct UsageFacts {
    pub model: Seq<char>,
    pub routes: Seq<RouteText>,
}

impl View for ModelUsagePreference {
    type V = UsageFacts;

    open spec fn view(&self) -> UsageFacts {
        UsageFacts { model: self.model@, routes: route_texts(self.routing_preferences@) }
    }
}

/// What a list of usages says.
pub open spec fn usages(v: Seq<ModelUsagePreference>) -> Seq<UsageFacts> {
    Seq::new(v.len(), |i: int| v[i]@)
}

/// A route with its candidate models, as configured or sent with a request.
#[derive(Debug)]
pub struct TopLevelRoutingPreference {
    pub name: String,
    pub description: String,
    pub models: Vec<String>,
    pub selection_policy: SelectionPreference,
}

/// What a [`TopLevelRoutingPreference`] says.
pub struct PreferenceFacts {
    pub name: Seq<char>,
    pub description: Seq<char>,
    pub models: Seq<Seq<char>>,
    pub policy: SelectionPreference,
}

impl View for TopLevelRoutingPreference {
    type V = PreferenceFacts;

    open spec fn view(&self) -> PreferenceFacts {
        PreferenceFacts {
            name: self.name@,
            description: self.description@,
            models: texts(self.models@),
            policy: self.selection_policy,
        }
    }
}

/// What a list of preferences says.
pub open spec fn preferences(v: Seq<TopLevelRoutingPreference>) -> Seq<PreferenceFacts> {
    Seq::new(v.len(), |i: int| v[i]@)
}

/// The last preference of a name.
pub open spec fn last_named(s: Seq<PreferenceFacts>, name: Seq<char>) -> Option<PreferenceFacts>
    decreases s.len(),
{
    if s.len() == 0 {
        None
    } else if s.last().name == name {
        Some(s.last())
    } else {
        last_named(s.drop_last(), name)
    }
}

/// Finds the last preference of a name.
pub fn find_preference<'a>(prefs: &'a Vec<TopLevelRoutingPreference>, name: &str) -> (r: Option<
    &'a TopLevelRoutingPreference,
>)
    ensures
        match r {
            Some(p) => last_named(preferences(prefs@), name@) == Some(p@),
            None => last_named(preferences(prefs@), name@) is None,
        },
{
    let ghost all = preferences(prefs@);
    let mut i: usize = prefs.len();
    assert(all.take(i as int) =~= all);
    while i > 0
        invariant
            i <= prefs@.len(),
            all == preferences(prefs@),
            last_named(all, name@) == last_named(all.take(i as int), name@),
        decreases i,
    {
        i -= 1;
        proof {
            let cut = all.take(i + 1);
            assert(cut.last() == prefs@[i as int]@);
            assert(cut.drop_last() =~= all.take(i as int));
        }
        if same_text(prefs[i].name.as_str(), name) {
            return Some(&prefs[i]);
        }
    }
    assert(all.take(0) =~= Seq::empty());
    None
}

/// Whether a later preference has the name of the one at `i`.
pub open spec fn redefined(s: Seq<PreferenceFacts>, i: int) -> bool {
    exists|j: int| i < j < s.len() && (#[trigger] s[j]).name == s[i].name
}

/// Those of the first `n` preferences that no later one replaces.
pub open spec fn effective_upto(s: Seq<PreferenceFacts>, n: int) -> Seq<PreferenceFacts>
    decreases n,
{
    if n <= 0 {
        Seq::empty()
    } else if redefined(s, n - 1) {
        effective_upto(s, n - 1)
    } else {
        effective_upto(s, n - 1).push(s[n - 1])
    }
}

/// The preferences, each name once: a later one replaces an earlier one.
pub open spec fn effective(s: Seq<PreferenceFacts>) -> Seq<PreferenceFacts> {
    effective_upto(s, s.len() as int)
}

/// How a preference is put to the routing model: its first model, its name
/// and its description.
pub open spec fn usage_of(p: PreferenceFacts) -> UsageFacts {
    UsageFacts {
        model: if p.models.len() > 0 { p.models[0] } else { Seq::empty() },
        routes: seq![RouteText { name: p.name, description: p.description }],
    }
}

/// How preferences are put to the routing model.
pub open spec fn usages_of(s: Seq<PreferenceFacts>) -> Seq<UsageFacts> {
    effective(s).map_values(|p: PreferenceFacts| usage_of(p))
}

fn is_redefined(prefs: &Vec<TopLevelRoutingPreference>, i: usize) -> (b: bool)
    requires
        i < prefs@.len(),
    ensures
        b == redefined(preferences(prefs@), i as int),
{
    let ghost all = preferences(prefs@);
    let n: usize = prefs.len();
    let mut j: usize = i + 1;
    while j < n
        invariant
            i < j <= n,
            n == prefs@.len(),
            all == preferences(prefs@),
            forall|k: int| i < k < j ==> (#[trigger] all[k]).name != all[i as int].name,
        decreases n - j,
    {
        assert(all[j as int] == prefs@[j as int]@);
        assert(all[i as int] == prefs@[i as int]@);
        if same_text(prefs[j].name.as_str(), prefs[i].name.as_str()) {
            return true;
        }
        j += 1;
    }
    false
}

fn usage_from(p: &TopLevelRoutingPreference) -> (r: ModelUsagePreference)
    ensures
        r@ == usage_of(p@),
{
    let model: String = if p.models.len() > 0 {
        p.models[0].clone()
    } else {
        String::new()
    };
    let mut routes: Vec<RoutingPreference> = Vec::new();
    routes.push(
        RoutingPreference { name: p.name.clone(), description: p.description.clone() },
    );
    assert(route_texts(routes@) =~= usage_of(p@).routes);
    assert(model@ =~= usage_of(p@).model);
    ModelUsagePreference { model, routing_preferences: routes }
}

/// How preferences are put to the routing model.
pub fn usage_preferences(prefs: &Vec<TopLevelRoutingPreference>) -> (r: Vec<ModelUsagePreference>)
    ensures
        usages(r@) == usages_of(preferences(prefs@)),
{
    let ghost all = preferences(prefs@);
    let ghost f = |p: PreferenceFacts| usage_of(p);
    let mut r: Vec<ModelUsagePreference> = Vec::new();
    let mut i: usize = 0;
    assert(usages(r@) =~= effective_upto(all, 0).map_values(f));
    while i < prefs.len()
        invariant
            i <= prefs@.len(),
            all == preferences(prefs@),
            f == (|p: PreferenceFacts| usage_of(p)),
            usages(r@) == effective_upto(all, i as int).map_values(f),
        decreases prefs.len() - i,
    {
        if !is_redefined(prefs, i) {
            let u: ModelUsagePreference = usage_from(&prefs[i]);
            proof {
                let before = effective_upto(all, i as int);
                assert(all[i as int] == prefs@[i as int]@);
                assert(before.push(all[i as int]).map_values(f) =~= before.map_values(f).push(u@));
                assert(usages(r@.push(u)) =~= usages(r@).push(u@));
            }
            r.push(u);
        }
        i += 1;
    }
    r
}

/// The usages of those of the first `n` preferences that no later one
/// replaces and that name a model.
pub open spec fn sentinels_upto(s: Seq<PreferenceFacts>, n: int) -> Seq<UsageFacts>
    decreases n,
{
    if n <= 0 {
        Seq::empty()
    } else if redefined(s, n - 1) || s[n - 1].models.len() == 0 {
        sentinels_upto(s, n - 1)
    } else {
        sentinels_upto(s, n - 1).push(usage_of(s[n - 1]))
    }
}

/// The usages of the effective preferences that name a model.
pub open spec fn sentinel_usages(s: Seq<PreferenceFacts>) -> Seq<UsageFacts> {
    sentinels_upto(s, s.len() as int)
}

/// The usages of the effective preferences that name a model.
pub fn sentinels(prefs: &Vec<TopLevelRoutingPreference>) -> (r: Vec<ModelUsagePreference>)
    ensures
        usages(r@) == sentinel_usages(preferences(prefs@)),
{
    let ghost all = preferences(prefs@);
    let mut r: Vec<ModelUsagePreference> = Vec::new();
    let mut i: usize = 0;
    assert(usages(r@) =~= sentinels_upto(all, 0));
    while i < prefs.len()
        invariant
            i <= prefs@.len(),
            all == preferences(prefs@),
            usages(r@) == sentinels_upto(all, i as int),
        decreases prefs.len() - i,
    {
        assert(all[i as int] == prefs@[i as int]@);
        if !is_redefined(prefs, i) && prefs[i].models.len() > 0 {
            let u: ModelUsagePreference = usage_from(&prefs[i]);
            assert(usages(r@.push(u)) =~= usages(r@).push(u@));
            r.push(u);
        }
        i += 1;
    }
    r
}

/// A name has a preference among the effective ones exactly where it was
/// defined, and then its last definition.
pub proof fn last_definition_is_effective(s: Seq<PreferenceFacts>, p: PreferenceFacts)
    ensures
        effective(s).contains(p) == (last_named(s, p.name) == Some(p)),
{
    lemma_effective_upto(s, s.len() as int, p);
    lemma_last_named(s, p.name);
    if effective(s).contains(p) {
        let i = choose|i: int| 0 <= i < s.len() && #[trigger] s[i] == p && !redefined(s, i);
        assert(last_named(s, p.name) is Some);
        let k = choose|k: int|
            0 <= k < s.len() && #[trigger] s[k] == last_named(s, p.name)->0 && !redefined(s, k)
                && s[k].name == p.name;
        assert(i == k) by {
            if i < k {
                assert(s[k].name == s[i].name);
            } else if k < i {
                assert(s[i].name == s[k].name);
            }
        }
    }
}

proof fn lemma_effective_upto(s: Seq<PreferenceFacts>, n: int, p: PreferenceFacts)
    requires
        0 <= n <= s.len(),
    ensures
        effective_upto(s, n).contains(p) == exists|i: int|
            0 <= i < n && #[trigger] s[i] == p && !redefined(s, i),
    decreases n,
{
    if n > 0 {
        lemma_effective_upto(s, n - 1, p);
        let before = effective_upto(s, n - 1);
        if !redefined(s, n - 1) {
            let after = before.push(s[n - 1]);
            if before.contains(p) {
                let k = before.index_of(p);
                assert(after[k] == p);
            }
            if s[n - 1] == p {
                assert(after[before.len() as int] == p);
            }
            if after.contains(p) && s[n - 1] != p {
                let k = after.index_of(p);
                assert(after[k] == p);
                assert(before[k] == p);
            }
        }
    }
}

proof fn lemma_last_named(s: Seq<PreferenceFacts>, name: Seq<char>)
    ensures
        match last_named(s, name) {
            Some(p) => exists|k: int|
                0 <= k < s.len() && #[trigger] s[k] == p && !redefined(s, k) && s[k].name == name,
            None => forall|k: int| 0 <= k < s.len() ==> (#[trigger] s[k]).name != name,
        },
    decreases s.len(),
{
    if s.len() > 0 {
        let shorter = s.drop_last();
        let n = s.len() - 1;
        if s.last().name == name {
            assert(s[n] == s.last());
            assert(!redefined(s, n));
        } else {
            lemma_last_named(shorter, name);
            match last_named(shorter, name) {
                Some(p) => {
                    let k = choose|k: int|
                        0 <= k < shorter.len() && #[trigger] shorter[k] == p && !redefined(
                            shorter,
                            k,
                        ) && shorter[k].name == name;
                    assert(s[k] == p);
                    assert(!redefined(s, k)) by {
                        if redefined(s, k) {
                            let j = choose|j: int|
                                k < j < s.len() && (#[trigger] s[j]).name == s[k].name;
                            assert(j < n);
                            assert(shorter[j] == s[j]);
                        }
                    }
                },
                None => {
                    assert forall|k: int| 0 <= k < s.len() implies (#[trigger] s[k]).name
                        != name by {
                        if k < n {
                            assert(shorter[k] == s[k]);
                        }
                    }
                },
            }
        }
    }
}

// ---------------------------------------------------------------------------
// Tables by model
// ---------------------------------------------------------------------------

/// The position of a model's usage.
pub open spec fn usage_index(s: Seq<UsageFacts>, model: Seq<char>, i: int) -> Option<int>
    decreases s.len() - i,
{
    if i >= s.len() {
        None
    } else if s[i].model == model {
        Some(i)
    } else {
        usage_index(s, model, i + 1)
    }
}

/// A table of usages with one more: it takes the place of its model's.
pub open spec fn with_usage(s: Seq<UsageFacts>, u: UsageFacts) -> Seq<UsageFacts> {
    match usage_index(s, u.model, 0) {
        Some(i) => s.update(i, u),
        None => s.push(u),
    }
}

/// A table of usages, filled in order.
pub open spec fn usage_table(s: Seq<UsageFacts>) -> Seq<UsageFacts>
    decreases s.len(),
{
    if s.len() == 0 {
        Seq::empty()
    } else {
        with_usage(usage_table(s.drop_last()), s.last())
    }
}

fn put_usage(table: &mut Vec<ModelUsagePreference>, u: ModelUsagePreference)
    ensures
        usages(final(table)@) == with_usage(usages(old(table)@), u@),
{
    let ghost all = usages(table@);
    let mut i: usize = 0;
    while i < table.len()
        invariant
            i <= table@.len(),
            table@ == old(table)@,
            all == usages(table@),
            usage_index(all, u@.model, 0) == usage_index(all, u@.model, i as int),
        decreases table.len() - i,
    {
        assert(all[i as int] == table@[i as int]@);
        if same_text(table[i].model.as_str(), u.model.as_str()) {
            assert(usages(table@.update(i as int, u)) =~= all.update(i as int, u@));
            table.set(i, u);
            return ;
        }
        i += 1;
    }
    assert(usages(table@.push(u)) =~= all.push(u@));
    table.push(u);
}

/// A table of usages by model: where a model occurs twice, the later usage counts.
pub fn tabulate(list: Vec<ModelUsagePreference>) -> (r: Vec<ModelUsagePreference>)
    ensures
        usages(r@) == usage_table(usages(list@)),
{
    let ghost all = usages(list@);
    let mut rest: Vec<ModelUsagePreference> = list;
    let mut r: Vec<ModelUsagePreference> = Vec::new();
    assert(usages(r@) =~= usage_table(all.take(0)));
    let ghost mut done: int = 0;
    while rest.len() > 0
        invariant
            0 <= done <= all.len(),
            usages(rest@) == all.skip(done),
            usages(r@) == usage_table(all.take(done)),
        decreases rest.len(),
    {
        let ghost before = rest@;
        let u: ModelUsagePreference = rest.remove(0);
        proof {
            assert(usages(before).len() == all.len() - done);
            assert(usages(before)[0] == u@);
            assert(all.skip(done)[0] == all[done]);
            let cut = all.take(done + 1);
            assert(cut.last() == u@);
            assert(cut.drop_last() =~= all.take(done));
            assert(usages(rest@) =~= all.skip(done + 1)) by {
                assert forall|i: int| 0 <= i < rest@.len() implies usages(rest@)[i] == all.skip(
                    done + 1,
                )[i] by {
                    assert(rest@[i] == before[i + 1]);
                    assert(usages(before)[i + 1] == all.skip(done)[i + 1]);
                }
            }
            done = done + 1;
        }
        put_usage(&mut r, u);
    }
    proof {
        assert(usages(rest@).len() == all.len() - done);
        assert(all.take(done) =~= all);
    }
    r
}

/// A configured provider and the routes it was given.
#[derive(Debug)]
pub struct LlmProvider {
    pub name: String,
    pub routing_preferences: Option<Vec<RoutingPreference>>,
}

/// The usages of the providers that were given routes.
pub open spec fn provider_usages(s: Seq<LlmProvider>) -> Seq<UsageFacts>
    decreases s.len(),
{
    if s.len() == 0 {
        Seq::empty()
    } else {
        let rest = provider_usages(s.drop_last());
        match s.last().routing_preferences {
            Some(routes) => rest.push(
                UsageFacts { model: s.last().name@, routes: route_texts(routes@) },
            ),
            None => rest,
        }
    }
}

/// A copy of a list of routes.
pub fn clone_routes(v: &Vec<RoutingPreference>) -> (r: Vec<RoutingPreference>)
    ensures
        route_texts(r@) == route_texts(v@),
{
    let mut r: Vec<RoutingPreference> = Vec::new();
    let mut i: usize = 0;
    while i < v.len()
        invariant
            i <= v@.len(),
            r@.len() == i,
            forall|j: int| 0 <= j < i ==> (#[trigger] r@[j])@ == v@[j]@,
        decreases v.len() - i,
    {
        r.push(
            RoutingPreference { name: v[i].name.clone(), description: v[i].description.clone() },
        );
        i += 1;
    }
    assert(route_texts(r@) =~= route_texts(v@));
    r
}

/// A copy of a list of usages.
pub fn clone_usages(v: &Vec<ModelUsagePreference>) -> (r: Vec<ModelUsagePreference>)
    ensures
        usages(r@) == usages(v@),
{
    let mut r: Vec<ModelUsagePreference> = Vec::new();
    let mut i: usize = 0;
    while i < v.len()
        invariant
            i <= v@.len(),
            r@.len() == i,
            forall|j: int| 0 <= j < i ==> (#[trigger] r@[j])@ == v@[j]@,
        decreases v.len() - i,
    {
        r.push(
            ModelUsagePreference {
                model: v[i].model.clone(),
                routing_preferences: clone_routes(&v[i].routing_preferences),
            },
        );
        i += 1;
    }
    assert(usages(r@) =~= usages(v@));
    r
}

/// The usages of the providers that were given routes.
pub fn usages_of_providers(providers: &Vec<LlmProvider>) -> (r: Vec<ModelUsagePreference>)
    ensures
        usages(r@) == provider_usages(providers@),
{
    let mut r: Vec<ModelUsagePreference> = Vec::new();
    let mut i: usize = 0;
    assert(usages(r@) =~= provider_usages(providers@.take(0)));
    while i < providers.len()
        invariant
            i <= providers@.len(),
            usages(r@) == provider_usages(providers@.take(i as int)),
        decreases providers.len() - i,
    {
        proof {
            let cut = providers@.take(i + 1);
            assert(cut.last() == providers@[i as int]);
            assert(cut.drop_last() =~= providers@.take(i as int));
        }
        if let Some(routes) = &providers[i].routing_preferences {
            let u: ModelUsagePreference = ModelUsagePreference {
                model: providers[i].name.clone(),
                routing_preferences: clone_routes(routes),
            };
            assert(usages(r@.push(u)) =~= usages(r@).push(u@));
            r.push(u);
        }
        i += 1;
    }
    assert(providers@.take(i as int) =~= providers@);
    r
}

} // verus!
