//! What holds of all spending that is counted.

use crate::billing::budget_checker::{blocked_by, LimitStatus};
use crate::billing::counters::{
    key_on, plus_all, start_of, total, within_budget, Day, KeyFacts,
};
use crate::billing::price_calculator::{charged, row_cost, totals_after, UnpricedRow};
use crate::handlers::usage_record::{recorded_cost, totals_after_record, UsageRecordRequest};
use crate::pricing::{listed_cost, micro_cents_of, PricingInfo};
use vstd::prelude::*;

verus! {

/// A daily period is the day, and a monthly one starts with the first day of
/// the month: so two days share a month's counter exactly where they are of
/// the same month of the same year.
pub proof fn periods_start_with_the_day_and_the_month(
    entity_type: Seq<char>,
    id: u128,
    a: Day,
    b: Day,
)
    ensures
        start_of("daily"@, a) == Some(a),
        start_of("monthly"@, a) == Some(Day { year: a.year, month: a.month, day: 1 }),
        (key_on(entity_type, id, "daily"@, a) == key_on(entity_type, id, "daily"@, b)) == (a == b),
        (key_on(entity_type, id, "monthly"@, a) == key_on(entity_type, id, "monthly"@, b)) == (
        a.year == b.year && a.month == b.month),
{
    reveal_strlit("daily");
    reveal_strlit("monthly");
    assert("daily"@.len() != "monthly"@.len());
}

/// No counter is shared between entities, kinds of entities or kinds of periods.
pub proof fn counters_are_kept_apart(
    entity_type: Seq<char>,
    id: u128,
    period_type: Seq<char>,
    other_type: Seq<char>,
    other_id: u128,
    other_period: Seq<char>,
    today: Day,
    other_day: Day,
)
    requires
        entity_type != other_type || id != other_id || period_type != other_period,
    ensures
        key_on(entity_type, id, period_type, today) != key_on(
            other_type,
            other_id,
            other_period,
            other_day,
        ),
{
}

/// Only a period of a day or of a month has a limit, and it is kept while
/// less than the limit was counted; where nothing was counted it is kept.
pub proof fn limit_is_kept_while_below(
    totals: Map<KeyFacts, i64>,
    entity_type: Seq<char>,
    id: u128,
    period_type: Seq<char>,
    limit: i64,
    today: Day,
)
    ensures
        period_type != "daily"@ && period_type != "monthly"@ ==> within_budget(
            totals,
            entity_type,
            id,
            period_type,
            limit,
            today,
        ),
        (period_type == "daily"@ || period_type == "monthly"@) && limit > 0 ==> within_budget(
            totals,
            entity_type,
            id,
            period_type,
            limit,
            today,
        ) == (total(totals, key_on(entity_type, id, period_type, today)) < limit),
        (period_type == "daily"@ || period_type == "monthly"@) && totals.contains_key(
            key_on(entity_type, id, period_type, today),
        ) ==> within_budget(totals, entity_type, id, period_type, limit, today) == (totals[key_on(
            entity_type,
            id,
            period_type,
            today,
        )] < limit),
{
}

/// Spending adds up: an amount is added under its key, and nothing under any other.
pub proof fn amounts_add_up(
    totals: Map<KeyFacts, i64>,
    deltas: Seq<(KeyFacts, i64)>,
    key: KeyFacts,
    amount: i64,
    other: KeyFacts,
)
    requires
        i64::MIN <= total(plus_all(totals, deltas), key) + amount <= i64::MAX,
        other != key,
    ensures
        total(plus_all(totals, deltas.push((key, amount))), key) == total(
            plus_all(totals, deltas),
            key,
        ) + amount,
        total(plus_all(totals, deltas.push((key, amount))), other) == total(
            plus_all(totals, deltas),
            other,
        ),
        plus_all(totals, Seq::empty()) == totals,
{
    assert(deltas.push((key, amount)).drop_last() =~= deltas);
}

/// A charge is added to the day and to the month of an entity, and to no
/// other counter.
pub proof fn charge_counts_for_day_and_month(
    totals: Map<KeyFacts, i64>,
    entity_type: Seq<char>,
    id: u128,
    amount: i64,
    today: Day,
    other: KeyFacts,
)
    requires
        i64::MIN <= total(totals, key_on(entity_type, id, "daily"@, today)) + amount <= i64::MAX,
        i64::MIN <= total(totals, key_on(entity_type, id, "monthly"@, today)) + amount <= i64::MAX,
        other != key_on(entity_type, id, "daily"@, today),
        other != key_on(entity_type, id, "monthly"@, today),
    ensures
        ({
            let after = charged(totals, entity_type, id, amount, today);
            let day = key_on(entity_type, id, "daily"@, today);
            let month = key_on(entity_type, id, "monthly"@, today);
            &&& total(after, day) == total(totals, day) + amount
            &&& total(after, month) == total(totals, month) + amount
            &&& total(after, other) == total(totals, other)
        }),
{
    reveal_strlit("daily");
    reveal_strlit("monthly");
    assert("daily"@.len() != "monthly"@.len());
}

/// Custom prices count within a project alone: a record of no project costs
/// what the list says, and is charged to nobody.
pub proof fn custom_prices_need_a_project(
    totals: Map<KeyFacts, i64>,
    table: Map<(Seq<char>, Seq<char>), PricingInfo>,
    rows: Seq<UnpricedRow>,
    row: UnpricedRow,
    today: Day,
)
    requires
        row.project_id is None,
    ensures
        row_cost(table, row) == listed_cost(
            table,
            row.provider@,
            row.model@,
            row.input_tokens,
            row.output_tokens,
        ),
        totals_after(totals, table, rows.push(row), today) == totals_after(
            totals,
            table,
            rows,
            today,
        ),
{
    assert(rows.push(row).drop_last() =~= rows);
}

/// A record of a project costs its tokens at the custom price where there is
/// one, and the whole micro-cents of that are charged to the project's day
/// and month.
pub proof fn priced_usage_is_charged_to_the_project(
    totals: Map<KeyFacts, i64>,
    table: Map<(Seq<char>, Seq<char>), PricingInfo>,
    rows: Seq<UnpricedRow>,
    row: UnpricedRow,
    id: u128,
    today: Day,
)
    requires
        row.project_id == Some(id),
    ensures
        row.custom is Some ==> row_cost(table, row) == row.input_tokens
            * row.custom->0.input_price_per_million + row.output_tokens
            * row.custom->0.output_price_per_million,
        row.custom is None ==> row_cost(table, row) == listed_cost(
            table,
            row.provider@,
            row.model@,
            row.input_tokens,
            row.output_tokens,
        ),
        row_cost(table, row) >= 100_000_000 ==> totals_after(totals, table, rows.push(row), today)
            == charged(
            totals_after(totals, table, rows, today),
            "project"@,
            id,
            micro_cents_of(row_cost(table, row)),
            today,
        ),
        row_cost(table, row) < 100_000_000 ==> totals_after(totals, table, rows.push(row), today)
            == totals_after(totals, table, rows, today),
        totals_after(totals, table, Seq::empty(), today) == totals,
{
    assert(rows.push(row).drop_last() =~= rows);
    let cost = row_cost(table, row);
    if cost < 0 {
        assert((-cost) / 100_000_000 >= 0);
    }
}

/// Usage that is priced at once costs what the list says, whole micro-cents
/// of which are charged to the project and, where it is known, to the user.
pub proof fn recorded_usage_is_charged(
    totals: Map<KeyFacts, i64>,
    table: Map<(Seq<char>, Seq<char>), PricingInfo>,
    r: UsageRecordRequest,
    today: Day,
    other: KeyFacts,
)
    requires
        !r.firewall_mode,
        forall|k: KeyFacts|
            i64::MIN <= #[trigger] total(totals, k) + micro_cents_of(recorded_cost(table, r))
                <= i64::MAX,
        other.entity_type != "user"@ && other.entity_type != "project"@,
    ensures
        recorded_cost(table, r) == listed_cost(
            table,
            r.provider@,
            r.model@,
            r.input_tokens,
            r.output_tokens,
        ),
        ({
            let amount = micro_cents_of(recorded_cost(table, r));
            let after = totals_after_record(totals, r, recorded_cost(table, r), today);
            let day = key_on("project"@, r.project_id, "daily"@, today);
            let month = key_on("project"@, r.project_id, "monthly"@, today);
            &&& total(after, day) == total(totals, day) + amount
            &&& total(after, month) == total(totals, month) + amount
            &&& total(after, other) == total(totals, other)
            &&& r.user_id is Some ==> {
                let day = key_on("user"@, r.user_id->0, "daily"@, today);
                let month = key_on("user"@, r.user_id->0, "monthly"@, today);
                &&& total(after, day) == total(totals, day) + amount
                &&& total(after, month) == total(totals, month) + amount
            }
        }),
{
    reveal_strlit("daily");
    reveal_strlit("monthly");
    reveal_strlit("user");
    reveal_strlit("project");
    assert("daily"@.len() != "monthly"@.len());
    assert("user"@.len() != "project"@.len());
    let amount = micro_cents_of(recorded_cost(table, r));
    let day = key_on("project"@, r.project_id, "daily"@, today);
    let month = key_on("project"@, r.project_id, "monthly"@, today);
    let with_user = match r.user_id {
        Some(id) => charged(totals, "user"@, id, amount, today),
        None => totals,
    };
    if r.user_id is Some {
        charge_counts_for_day_and_month(totals, "user"@, r.user_id->0, amount, today, other);
        charge_counts_for_day_and_month(totals, "user"@, r.user_id->0, amount, today, day);
        charge_counts_for_day_and_month(totals, "user"@, r.user_id->0, amount, today, month);
        let uday = key_on("user"@, r.user_id->0, "daily"@, today);
        let umonth = key_on("user"@, r.user_id->0, "monthly"@, today);
        charge_counts_for_day_and_month(with_user, "project"@, r.project_id, amount, today, uday);
        charge_counts_for_day_and_month(with_user, "project"@, r.project_id, amount, today, umonth);
    }
    charge_counts_for_day_and_month(with_user, "project"@, r.project_id, amount, today, other);
}

/// A project is blocked by a limit of its own that all or more was spent of,
/// where a cent has ten thousand micro-cents; limits of others block nothing.
pub proof fn used_up_limits_block_projects(
    limits: Seq<LimitStatus>,
    l: LimitStatus,
    other: u128,
)
    ensures
        ({
            let spent = if l.spent is Some { l.spent->0 as int } else { 0 };
            blocked_by(limits.push(l)).contains(l.entity_id) == (blocked_by(limits).contains(
                l.entity_id,
            ) || (l.entity_type@ == "project"@ && spent >= 10_000 * l.limit_cents))
        }),
        other != l.entity_id ==> blocked_by(limits.push(l)).contains(other) == blocked_by(
            limits,
        ).contains(other),
        !blocked_by(Seq::empty()).contains(other),
{
    assert(limits.push(l).drop_last() =~= limits);
}

} // verus!
