//! Pricing of usage that was recorded without a price.

use crate::billing::counters::{key_on, plus, Day, KeyFacts, SpendingCounters};
use crate::pricing::{
    full_cost, listed_cost, micro_cents_of, to_micro_cents, CustomPricing, PricingInfo,
    PricingRegistry,
};
use vstd::prelude::*;

verus! {

/// How many rows are priced at a time.
pub const BATCH_SIZE: i64 = 1000;

/// A usage record without a price, and the custom price that applies to it.
#[derive(Debug)]
pub struct UnpricedRow {
    pub id: u128,
    pub project_id: Option<u128>,
    pub provider: String,
    pub model: String,
    pub input_tokens: i32,
    pub output_tokens: i32,
    pub custom: Option<CustomPricing>,
}

/// The price of a usage record, in 10^-12 cents.
#[derive(Debug, Clone, Copy, PartialEq, Eq, Structural)]
pub struct PricedUpdate {
    pub id: u128,
    pub cost: i128,
}

/// The cost of a row: custom prices apply within a project.
pub open spec fn row_cost(
    table: Map<(Seq<char>, Seq<char>), PricingInfo>,
    row: UnpricedRow,
) -> int {
    if row.project_id is Some {
        full_cost(
            table,
            row.custom,
            row.provider@,
            row.model@,
            row.input_tokens,
            row.output_tokens,
        )
    } else {
        listed_cost(table, row.provider@, row.model@, row.input_tokens, row.output_tokens)
    }
}

/// The totals with an amount added to an entity's day and month.
pub open spec fn charged(
    totals: Map<KeyFacts, i64>,
    entity_type: Seq<char>,
    entity_id: u128,
    micro_cents: i64,
    today: Day,
) -> Map<KeyFacts, i64> {
    plus(
        plus(totals, key_on(entity_type, entity_id, "daily"@, today), micro_cents),
        key_on(entity_type, entity_id, "monthly"@, today),
        micro_cents,
    )
}

/// Adds an amount to an entity's day and month.
pub fn charge(
    counters: &mut SpendingCounters,
    entity_type: &str,
    entity_id: u128,
    micro_cents: i64,
    today: Day,
)
    ensures
        final(counters)@ == charged(old(counters)@, entity_type@, entity_id, micro_cents, today),
{
    counters.record_usage_on(entity_type, entity_id, "daily", micro_cents, today);
    counters.record_usage_on(entity_type, entity_id, "monthly", micro_cents, today);
}

/// The totals after a row of a given cost: a project's positive cost is charged.
pub open spec fn totals_after_row(
    totals: Map<KeyFacts, i64>,
    row: UnpricedRow,
    cost: int,
    today: Day,
) -> Map<KeyFacts, i64> {
    match row.project_id {
        Some(id) => if micro_cents_of(cost) > 0 {
            charged(totals, "project"@, id, micro_cents_of(cost), today)
        } else {
            totals
        },
        None => totals,
    }
}

/// The totals after rows.
pub open spec fn totals_after(
    totals: Map<KeyFacts, i64>,
    table: Map<(Seq<char>, Seq<char>), PricingInfo>,
    rows: Seq<UnpricedRow>,
    today: Day,
) -> Map<KeyFacts, i64>
    decreases rows.len(),
{
    if rows.len() == 0 {
        totals
    } else {
        totals_after_row(
            totals_after(totals, table, rows.drop_last(), today),
            rows.last(),
            row_cost(table, rows.last()),
            today,
        )
    }
}

/// Whether `updates` are the prices of rows.
pub open spec fn prices_rows(
    table: Map<(Seq<char>, Seq<char>), PricingInfo>,
    rows: Seq<UnpricedRow>,
    updates: Seq<PricedUpdate>,
) -> bool {
    &&& updates.len() == rows.len()
    &&& forall|i: int|
        0 <= i < rows.len() ==> (#[trigger] updates[i]).id == rows[i].id && updates[i].cost
            == row_cost(table, rows[i])
}

/// Prices usage that was recorded without a price.
pub struct PriceCalculator;

impl PriceCalculator {
    /// Price usage records, and charge the projects on a day.
    pub fn price_batch(
        rows: &Vec<UnpricedRow>,
        pricing: &PricingRegistry,
        counters: &mut SpendingCounters,
        today: Day,
    ) -> (updates: Vec<PricedUpdate>)
        ensures
            prices_rows(pricing@, rows@, updates@),
            final(counters)@ == totals_after(old(counters)@, pricing@, rows@, today),
    {
        let ghost before = counters@;
        let mut updates: Vec<PricedUpdate> = Vec::new();
        let mut i: usize = 0;
        assert(rows@.take(0) =~= Seq::empty());
        while i < rows.len()
            invariant
                i <= rows@.len(),
                updates@.len() == i,
                forall|j: int|
                    0 <= j < i ==> (#[trigger] updates@[j]).id == rows@[j].id && updates@[j].cost
                        == row_cost(pricing@, rows@[j]),
                counters@ == totals_after(before, pricing@, rows@.take(i as int), today),
            decreases rows.len() - i,
        {
            proof {
                let cut = rows@.take(i + 1);
                assert(cut.last() == rows@[i as int]);
                assert(cut.drop_last() =~= rows@.take(i as int));
            }
            let row: &UnpricedRow = &rows[i];
            let cost: i128 = if row.project_id.is_some() {
                pricing.calculate_cost_with_custom(
                    row.custom,
                    row.provider.as_str(),
                    row.model.as_str(),
                    row.input_tokens,
                    row.output_tokens,
                )
            } else {
                pricing.calculate_cost(
                    row.provider.as_str(),
                    row.model.as_str(),
                    row.input_tokens,
                    row.output_tokens,
                )
            };
            updates.push(PricedUpdate { id: row.id, cost });
            if let Some(project_id) = row.project_id {
                let micro_cents: i64 = to_micro_cents(cost);
                if micro_cents > 0 {
                    charge(counters, "project", project_id, micro_cents, today);
                }
            }
            i += 1;
        }
        assert(rows@.take(i as int) =~= rows@);
        updates
    }
}

/// Every row gets its price, under its own id: its custom price within a
/// project, the listed one otherwise.
pub proof fn every_row_gets_its_price(
    table: Map<(Seq<char>, Seq<char>), PricingInfo>,
    rows: Seq<UnpricedRow>,
    updates: Seq<PricedUpdate>,
    i: int,
)
    requires
        prices_rows(table, rows, updates),
        0 <= i < rows.len(),
    ensures
        updates.len() == rows.len(),
        updates[i].id == rows[i].id,
        rows[i].project_id is None || rows[i].custom is None ==> updates[i].cost == listed_cost(
            table,
            rows[i].provider@,
            rows[i].model@,
            rows[i].input_tokens,
            rows[i].output_tokens,
        ),
        rows[i].project_id is Some && rows[i].custom is Some ==> updates[i].cost == full_cost(
            table,
            rows[i].custom,
            rows[i].provider@,
            rows[i].model@,
            rows[i].input_tokens,
            rows[i].output_tokens,
        ),
{
}

} // verus!
