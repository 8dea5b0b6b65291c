//! What tokens cost.
//!
//! Costs are exact: whole numbers of 10^-12 cents.

use crate::text::same_text;
use vstd::prelude::*;

verus! {

/// Pricing info for a model, in 10^-12 cents per token.
#[derive(Debug, Clone, Copy, PartialEq, Eq, Structural)]
pub struct PricingInfo {
    pub input_price_per_token: i64,
    pub output_price_per_token: i64,
}

/// Prices a project or an operator set, in 10^-6 cents per million tokens.
#[derive(Debug, Clone, Copy, PartialEq, Eq, Structural)]
pub struct CustomPricing {
    pub input_price_per_million: i64,
    pub output_price_per_million: i64,
}

/// The custom price that applies: the project's own before the operator's.
pub open spec fn applied_price(
    project: Option<CustomPricing>,
    global: Option<CustomPricing>,
) -> Option<CustomPricing> {
    if project is Some { project } else { global }
}

/// The custom price of a model: the project's own before the operator's.
pub fn custom_price(
    project: Option<CustomPricing>,
    global: Option<CustomPricing>,
) -> (r: Option<CustomPricing>)
    ensures
        r == applied_price(project, global),
{
    if project.is_some() {
        project
    } else {
        global
    }
}

/// The price of a provider's model.
#[derive(Debug)]
pub struct PriceEntry {
    pub provider: String,
    pub model: String,
    pub price: PricingInfo,
}

/// The prices that a list gives for the tokens of requests and of responses,
/// where one that is not given is 0.
pub open spec fn listed_price(request_token: Option<i64>, response_token: Option<i64>) -> PricingInfo {
    PricingInfo {
        input_price_per_token: match request_token {
            Some(p) => p,
            None => 0,
        },
        output_price_per_token: match response_token {
            Some(p) => p,
            None => 0,
        },
    }
}

/// An entry out of a price list, where a price that is not given is 0.
pub fn list_entry(
    provider: &str,
    model: &str,
    request_token: Option<i64>,
    response_token: Option<i64>,
) -> (r: PriceEntry)
    ensures
        r.provider@ == provider@,
        r.model@ == model@,
        r.price == listed_price(request_token, response_token),
{
    PriceEntry {
        provider: provider.to_owned(),
        model: model.to_owned(),
        price: PricingInfo {
            input_price_per_token: match request_token {
                Some(p) => p,
                None => 0,
            },
            output_price_per_token: match response_token {
                Some(p) => p,
                None => 0,
            },
        },
    }
}

/// The prices by provider and model: a later entry replaces an earlier one.
pub open spec fn price_table(entries: Seq<PriceEntry>) -> Map<(Seq<char>, Seq<char>), PricingInfo>
    decreases entries.len(),
{
    if entries.len() == 0 {
        Map::empty()
    } else {
        let e = entries.last();
        price_table(entries.drop_last()).insert((e.provider@, e.model@), e.price)
    }
}

/// The cost of tokens at a price.
pub open spec fn token_cost(
    input_tokens: i32,
    output_tokens: i32,
    input_price: i64,
    output_price: i64,
) -> int {
    input_tokens * input_price + output_tokens * output_price
}

fn cost_at(input_tokens: i32, output_tokens: i32, input_price: i64, output_price: i64) -> (r: i128)
    ensures
        r == token_cost(input_tokens, output_tokens, input_price, output_price),
{
    proof {
        lemma_product_fits(input_tokens as int, input_price as int);
        lemma_product_fits(output_tokens as int, output_price as int);
    }
    let input: i128 = input_tokens as i128 * input_price as i128;
    let output: i128 = output_tokens as i128 * output_price as i128;
    input + output
}

proof fn lemma_product_fits(tokens: int, price: int)
    requires
        -0x8000_0000 <= tokens <= 0x8000_0000,
        -0x8000_0000_0000_0000 <= price <= 0x8000_0000_0000_0000,
    ensures
        -0x4000_0000_0000_0000_0000_0000 <= tokens * price <= 0x4000_0000_0000_0000_0000_0000,
{
    let t: int = 0x8000_0000;
    let p: int = 0x8000_0000_0000_0000;
    assert(tokens * price <= t * p && tokens * price >= -(t * p)) by (nonlinear_arith)
        requires
            -t <= tokens <= t,
            -p <= price <= p,
            t > 0,
            p > 0,
    ;
    assert(t * p == 0x4000_0000_0000_0000_0000_0000) by (nonlinear_arith)
        requires
            t == 0x8000_0000,
            p == 0x8000_0000_0000_0000,
    ;
}

/// Prices by provider and model.
pub struct PricingRegistry {
    prices: Vec<PriceEntry>,
}

impl View for PricingRegistry {
    type V = Map<(Seq<char>, Seq<char>), PricingInfo>;

    closed spec fn view(&self) -> Map<(Seq<char>, Seq<char>), PricingInfo> {
        price_table(self.prices@)
    }
}

/// The cost by the price table, 0 for a model without a price.
pub open spec fn listed_cost(
    table: Map<(Seq<char>, Seq<char>), PricingInfo>,
    provider: Seq<char>,
    model: Seq<char>,
    input_tokens: i32,
    output_tokens: i32,
) -> int {
    if table.contains_key((provider, model)) {
        let p = table[(provider, model)];
        token_cost(
            input_tokens,
            output_tokens,
            p.input_price_per_token,
            p.output_price_per_token,
        )
    } else {
        0
    }
}

/// The cost at a custom price where there is one, else by the price table.
pub open spec fn full_cost(
    table: Map<(Seq<char>, Seq<char>), PricingInfo>,
    custom: Option<CustomPricing>,
    provider: Seq<char>,
    model: Seq<char>,
    input_tokens: i32,
    output_tokens: i32,
) -> int {
    match custom {
        Some(c) => token_cost(
            input_tokens,
            output_tokens,
            c.input_price_per_million,
            c.output_price_per_million,
        ),
        None => listed_cost(table, provider, model, input_tokens, output_tokens),
    }
}

proof fn lemma_table_keys(entries: Seq<PriceEntry>, k: (Seq<char>, Seq<char>))
    ensures
        price_table(entries).dom().finite(),
        price_table(entries).contains_key(k) == exists|i: int|
            0 <= i < entries.len() && (#[trigger] entries[i]).provider@ == k.0
                && entries[i].model@ == k.1,
    decreases entries.len(),
{
    if entries.len() > 0 {
        let shorter = entries.drop_last();
        let n = entries.len() - 1;
        lemma_table_keys(shorter, k);
        if price_table(shorter).contains_key(k) {
            let i = choose|i: int|
                0 <= i < shorter.len() && (#[trigger] shorter[i]).provider@ == k.0
                    && shorter[i].model@ == k.1;
            assert(entries[i] == shorter[i]);
        }
        if exists|i: int|
            0 <= i < entries.len() && (#[trigger] entries[i]).provider@ == k.0
                && entries[i].model@ == k.1 {
            let i = choose|i: int|
                0 <= i < entries.len() && (#[trigger] entries[i]).provider@ == k.0
                    && entries[i].model@ == k.1;
            if i < n {
                assert(shorter[i] == entries[i]);
            }
        }
        assert(entries[n] == entries.last());
    }
}

impl PricingRegistry {
    /// A registry without prices.
    pub fn new() -> (r: Self)
        ensures
            r@ == Map::<(Seq<char>, Seq<char>), PricingInfo>::empty(),
    {
        PricingRegistry { prices: Vec::new() }
    }

    fn occurs_before(entries: &Vec<PriceEntry>, n: usize) -> (b: bool)
        requires
            n < entries@.len(),
        ensures
            b == price_table(entries@.take(n as int)).contains_key(
                (entries@[n as int].provider@, entries@[n as int].model@),
            ),
    {
        let ghost k = (entries@[n as int].provider@, entries@[n as int].model@);
        let ghost cut = entries@.take(n as int);
        proof {
            lemma_table_keys(cut, k);
        }
        let mut i: usize = 0;
        while i < n
            invariant
                i <= n < entries@.len(),
                cut == entries@.take(n as int),
                k == (entries@[n as int].provider@, entries@[n as int].model@),
                price_table(cut).contains_key(k) == exists|i: int|
                    0 <= i < cut.len() && (#[trigger] cut[i]).provider@ == k.0
                        && cut[i].model@ == k.1,
                forall|j: int|
                    0 <= j < i ==> (#[trigger] entries@[j]).provider@ != k.0
                        || entries@[j].model@ != k.1,
            decreases n - i,
        {
            if same_text(entries[i].provider.as_str(), entries[n].provider.as_str()) && same_text(
                entries[i].model.as_str(),
                entries[n].model.as_str(),
            ) {
                assert(cut[i as int].provider@ == k.0);
                return true;
            }
            i += 1;
        }
        proof {
            assert forall|j: int| 0 <= j < cut.len() implies (#[trigger] cut[j]).provider@ != k.0
                || cut[j].model@ != k.1 by {
                assert(cut[j] == entries@[j]);
            }
        }
        false
    }

    /// Replace the prices by the given entries, and return the number of
    /// models that have one.
    pub fn load(&mut self, entries: Vec<PriceEntry>) -> (count: usize)
        ensures
            final(self)@ == price_table(entries@),
            count == final(self)@.len(),
    {
        broadcast use vstd::set::group_set_axioms;

        let mut count: usize = 0;
        let mut i: usize = 0;
        assert(entries@.take(0) =~= Seq::empty());
        while i < entries.len()
            invariant
                count <= i <= entries@.len(),
                count == price_table(entries@.take(i as int)).len(),
            decreases entries.len() - i,
        {
            proof {
                let cut = entries@.take(i + 1);
                assert(cut.last() == entries@[i as int]);
                assert(cut.drop_last() =~= entries@.take(i as int));
                let e = entries@[i as int];
                let k = (e.provider@, e.model@);
                let table = price_table(entries@.take(i as int));
                lemma_table_keys(entries@.take(i as int), k);
                assert(table.insert(k, e.price).dom() =~= table.dom().insert(k));
            }
            if !Self::occurs_before(&entries, i) {
                count += 1;
            }
            i += 1;
        }
        assert(entries@.take(i as int) =~= entries@);
        self.prices = entries;
        count
    }

    /// Get pricing for a provider/model combination.
    pub fn get_pricing(&self, provider: &str, model: &str) -> (r: Option<PricingInfo>)
        ensures
            r == (if self@.contains_key((provider@, model@)) {
                Some(self@[(provider@, model@)])
            } else {
                None
            }),
    {
        let ghost all = self.prices@;
        let ghost k = (provider@, model@);
        let mut i: usize = self.prices.len();
        assert(all.take(i as int) =~= all);
        while i > 0
            invariant
                i <= all.len(),
                all == self.prices@,
                k == (provider@, model@),
                price_table(all).contains_key(k) == price_table(all.take(i as int)).contains_key(k),
                price_table(all.take(i as int)).contains_key(k) ==> price_table(all)[k]
                    == price_table(all.take(i as int))[k],
            decreases i,
        {
            i -= 1;
            proof {
                let cut = all.take(i + 1);
                assert(cut.last() == all[i as int]);
                assert(cut.drop_last() =~= all.take(i as int));
            }
            if same_text(self.prices[i].provider.as_str(), provider) && same_text(
                self.prices[i].model.as_str(),
                model,
            ) {
                return Some(self.prices[i].price);
            }
        }
        assert(all.take(0) =~= Seq::empty());
        None
    }

    /// Calculate cost for a request, by the price list alone.
    pub fn calculate_cost(
        &self,
        provider: &str,
        model: &str,
        input_tokens: i32,
        output_tokens: i32,
    ) -> (r: i128)
        ensures
            r == listed_cost(self@, provider@, model@, input_tokens, output_tokens),
    {
        match self.get_pricing(provider, model) {
            Some(p) => cost_at(
                input_tokens,
                output_tokens,
                p.input_price_per_token,
                p.output_price_per_token,
            ),
            None => 0,
        }
    }

    /// Calculate cost using the full pricing chain: the custom price of the
    /// project or the operator where there is one, else the price list.
    pub fn calculate_cost_with_custom(
        &self,
        custom: Option<CustomPricing>,
        provider: &str,
        model: &str,
        input_tokens: i32,
        output_tokens: i32,
    ) -> (r: i128)
        ensures
            r == full_cost(self@, custom, provider@, model@, input_tokens, output_tokens),
    {
        match custom {
            Some(c) => cost_at(
                input_tokens,
                output_tokens,
                c.input_price_per_million,
                c.output_price_per_million,
            ),
            None => self.calculate_cost(provider, model, input_tokens, output_tokens),
        }
    }
}

/// 10^-12 cents in a micro-cent, of which a cent has 10^4.
pub const UNITS_PER_MICRO_CENT: i128 = 100_000_000;

/// The cost of the least number of micro-cents that fits.
pub const LEAST_COST: i128 = -922_337_203_685_477_580_800_000_000;

/// A cost in whole micro-cents, rounded towards 0, as far as it fits.
pub open spec fn micro_cents_of(cost: int) -> i64 {
    let whole = if cost >= 0 {
        cost / (UNITS_PER_MICRO_CENT as int)
    } else {
        -((-cost) / (UNITS_PER_MICRO_CENT as int))
    };
    if whole > i64::MAX {
        i64::MAX
    } else if whole < i64::MIN {
        i64::MIN
    } else {
        whole as i64
    }
}

/// A cost in whole micro-cents, rounded towards 0, as far as it fits.
pub fn to_micro_cents(cost: i128) -> (r: i64)
    ensures
        r == micro_cents_of(cost as int),
{
    if cost <= LEAST_COST {
        return i64::MIN;
    }
    let whole: i128 = if cost >= 0 {
        cost / UNITS_PER_MICRO_CENT
    } else {
        -((-cost) / UNITS_PER_MICRO_CENT)
    };
    if whole > i64::MAX as i128 {
        i64::MAX
    } else if whole < i64::MIN as i128 {
        i64::MIN
    } else {
        whole as i64
    }
}

/// The cost of a request is a sum over its tokens: it grows with each of them
/// by the price of one.
pub proof fn cost_is_linear(a: i32, b: i32, more: i32, input_price: i64, output_price: i64)
    requires
        a + more <= i32::MAX,
        a + more >= i32::MIN,
    ensures
        token_cost((a + more) as i32, b, input_price, output_price) == token_cost(
            a,
            b,
            input_price,
            output_price,
        ) + more * input_price,
{
    let x = a as int;
    let m = more as int;
    let p = input_price as int;
    assert((x + m) * p == x * p + m * p) by (nonlinear_arith);
}

/// Under a custom price each further token of input adds its price, each
/// further token of output its own, and no tokens cost nothing; what the list
/// says does not matter.
pub proof fn custom_cost_is_linear(
    table: Map<(Seq<char>, Seq<char>), PricingInfo>,
    other: Map<(Seq<char>, Seq<char>), PricingInfo>,
    c: CustomPricing,
    provider: Seq<char>,
    model: Seq<char>,
    input: i32,
    output: i32,
)
    requires
        input < i32::MAX,
        output < i32::MAX,
    ensures
        full_cost(table, Some(c), provider, model, 0, 0) == 0,
        full_cost(table, Some(c), provider, model, (input + 1) as i32, output) - full_cost(
            table,
            Some(c),
            provider,
            model,
            input,
            output,
        ) == c.input_price_per_million,
        full_cost(table, Some(c), provider, model, input, (output + 1) as i32) - full_cost(
            table,
            Some(c),
            provider,
            model,
            input,
            output,
        ) == c.output_price_per_million,
        full_cost(table, Some(c), provider, model, input, output) == full_cost(
            other,
            Some(c),
            provider,
            model,
            input,
            output,
        ),
{
    lemma_one_more(input as int, c.input_price_per_million as int);
    lemma_one_more(output as int, c.output_price_per_million as int);
}

proof fn lemma_one_more(tokens: int, price: int)
    ensures
        (tokens + 1) * price == tokens * price + price,
        0 * price == 0,
{
    assert((tokens + 1) * price == tokens * price + price) by (nonlinear_arith);
}

/// By the list, each further token of input adds the price that the list
/// gives for the provider's model, each further token of output its own, and
/// no tokens cost nothing. A model without a price costs nothing.
pub proof fn listed_cost_is_linear(
    table: Map<(Seq<char>, Seq<char>), PricingInfo>,
    provider: Seq<char>,
    model: Seq<char>,
    input: i32,
    output: i32,
)
    requires
        input < i32::MAX,
        output < i32::MAX,
    ensures
        full_cost(table, None, provider, model, input, output) == listed_cost(
            table,
            provider,
            model,
            input,
            output,
        ),
        listed_cost(table, provider, model, 0, 0) == 0,
        !table.contains_key((provider, model)) ==> listed_cost(
            table,
            provider,
            model,
            input,
            output,
        ) == 0,
        table.contains_key((provider, model)) ==> {
            let p = table[(provider, model)];
            &&& listed_cost(table, provider, model, (input + 1) as i32, output) - listed_cost(
                table,
                provider,
                model,
                input,
                output,
            ) == p.input_price_per_token
            &&& listed_cost(table, provider, model, input, (output + 1) as i32) - listed_cost(
                table,
                provider,
                model,
                input,
                output,
            ) == p.output_price_per_token
        },
{
    if table.contains_key((provider, model)) {
        let p = table[(provider, model)];
        lemma_one_more(input as int, p.input_price_per_token as int);
        lemma_one_more(output as int, p.output_price_per_token as int);
    }
}

/// The last entry for a provider's model sets its price, and that of no other.
pub proof fn last_price_counts(
    entries: Seq<PriceEntry>,
    e: PriceEntry,
    provider: Seq<char>,
    model: Seq<char>,
)
    ensures
        price_table(entries.push(e)).contains_key((e.provider@, e.model@)),
        price_table(entries.push(e))[(e.provider@, e.model@)] == e.price,
        provider != e.provider@ || model != e.model@ ==> {
            &&& price_table(entries.push(e)).contains_key((provider, model)) == price_table(
                entries,
            ).contains_key((provider, model))
            &&& price_table(entries).contains_key((provider, model)) ==> price_table(
                entries.push(e),
            )[(provider, model)] == price_table(entries)[(provider, model)]
        },
        !price_table(Seq::empty()).contains_key((provider, model)),
{
    assert(entries.push(e).drop_last() =~= entries);
}

/// A project's own price goes before the operator's, which applies only where
/// the project has none.
pub proof fn own_price_goes_first(own: CustomPricing, global: Option<CustomPricing>)
    ensures
        applied_price(Some(own), global) == Some(own),
        applied_price(None, global) == global,
{
}

/// Tokens of requests are input and tokens of responses are output; a price
/// that is not given is nothing.
pub proof fn list_prices_are_read(request: i64, response: i64)
    ensures
        listed_price(Some(request), Some(response)).input_price_per_token == request,
        listed_price(Some(request), Some(response)).output_price_per_token == response,
        listed_price(None, Some(response)).input_price_per_token == 0,
        listed_price(None, Some(response)).output_price_per_token == response,
        listed_price(Some(request), None).input_price_per_token == request,
        listed_price(Some(request), None).output_price_per_token == 0,
{
}

/// A cost in micro-cents is the whole part of it, where a cent has ten
/// thousand: it is off by less than one micro-cent, and towards 0.
pub proof fn micro_cents_are_whole(cost: int)
    requires
        -900_000_000_000_000_000_000_000_000 <= cost <= 900_000_000_000_000_000_000_000_000,
    ensures
        cost >= 0 ==> micro_cents_of(cost) * 100_000_000 <= cost < (micro_cents_of(cost) + 1)
            * 100_000_000,
        micro_cents_of(-cost) == -micro_cents_of(cost),
{
}

} // verus!
