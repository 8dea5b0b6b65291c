//! Recording of what a request used.

use crate::billing::counters::{Day, KeyFacts, SpendingCounters};
use crate::billing::flusher::UsageEvent;
use crate::billing::price_calculator::{charge, charged};
use crate::pricing::{listed_cost, micro_cents_of, to_micro_cents, PricingInfo, PricingRegistry};
use vstd::prelude::*;

verus! {

/// Usage as the proxy reports it.
#[derive(Debug)]
pub struct UsageRecordRequest {
    pub user_id: Option<u128>,
    pub project_id: u128,
    pub pipe_id: Option<u128>,
    pub token_id: Option<u128>,
    pub provider: String,
    pub model: String,
    pub input_tokens: i32,
    pub output_tokens: i32,
    pub is_streaming: bool,
    pub status_code: Option<i32>,
    pub request_id: Option<String>,
    /// Firewall mode: pricing is left for later.
    pub firewall_mode: bool,
    pub api_key_hash: Option<String>,
}

/// The cost at which a record is written: none in firewall mode.
pub open spec fn recorded_cost(
    table: Map<(Seq<char>, Seq<char>), PricingInfo>,
    r: UsageRecordRequest,
) -> int {
    if r.firewall_mode {
        0
    } else {
        listed_cost(table, r.provider@, r.model@, r.input_tokens, r.output_tokens)
    }
}

/// Whether an event holds what a record says, at a cost.
pub open spec fn reports(record: UsageRecordRequest, cost: int, event: UsageEvent) -> bool {
    &&& event.cost == cost
    &&& event.is_priced == !record.firewall_mode
    &&& event.user_id == record.user_id
    &&& event.project_id == record.project_id
    &&& event.pipe_id == record.pipe_id
    &&& event.token_id == record.token_id
    &&& event.provider == record.provider
    &&& event.model == record.model
    &&& event.input_tokens == record.input_tokens
    &&& event.output_tokens == record.output_tokens
    &&& event.is_streaming == record.is_streaming
    &&& event.status_code == record.status_code
    &&& event.request_id == record.request_id
}

/// The totals after a record: user and project are charged for the day and
/// the month, but not in firewall mode.
pub open spec fn totals_after_record(
    totals: Map<KeyFacts, i64>,
    r: UsageRecordRequest,
    cost: int,
    today: Day,
) -> Map<KeyFacts, i64> {
    if r.firewall_mode {
        totals
    } else {
        let amount = micro_cents_of(cost);
        let with_user = match r.user_id {
            Some(id) => charged(totals, "user"@, id, amount, today),
            None => totals,
        };
        charged(with_user, "project"@, r.project_id, amount, today)
    }
}

/// The event to write for a record, whose cost is charged on a day.
/// - Managed proxy mode: the cost is calculated and charged now
/// - Firewall mode: the event is written without a price, which is calculated later
pub fn record_usage(
    record: UsageRecordRequest,
    pricing: &PricingRegistry,
    counters: &mut SpendingCounters,
    today: Day,
) -> (event: UsageEvent)
    ensures
        reports(record, recorded_cost(pricing@, record), event),
        final(counters)@ == totals_after_record(
            old(counters)@,
            record,
            recorded_cost(pricing@, record),
            today,
        ),
{
    let cost: i128 = if record.firewall_mode {
        0
    } else {
        let cost: i128 = pricing.calculate_cost(
            record.provider.as_str(),
            record.model.as_str(),
            record.input_tokens,
            record.output_tokens,
        );
        let amount: i64 = to_micro_cents(cost);
        if let Some(user_id) = record.user_id {
            charge(counters, "user", user_id, amount, today);
        }
        charge(counters, "project", record.project_id, amount, today);
        cost
    };
    UsageEvent {
        user_id: record.user_id,
        project_id: record.project_id,
        pipe_id: record.pipe_id,
        token_id: record.token_id,
        provider: record.provider,
        model: record.model,
        input_tokens: record.input_tokens,
        output_tokens: record.output_tokens,
        cost,
        is_streaming: record.is_streaming,
        status_code: record.status_code,
        request_id: record.request_id,
        is_priced: !record.firewall_mode,
    }
}

/// In firewall mode nothing is charged before the usage is priced.
pub proof fn firewall_usage_is_not_charged(
    totals: Map<KeyFacts, i64>,
    table: Map<(Seq<char>, Seq<char>), PricingInfo>,
    r: UsageRecordRequest,
    today: Day,
)
    requires
        r.firewall_mode,
    ensures
        recorded_cost(table, r) == 0,
        totals_after_record(totals, r, recorded_cost(table, r), today) == totals,
{
}

/// Usage is written as it was reported: who used what, of which model, and how
/// much. In firewall mode it waits for its price; otherwise it has the one of
/// the list.
pub proof fn usage_is_written_as_reported(
    table: Map<(Seq<char>, Seq<char>), PricingInfo>,
    r: UsageRecordRequest,
    event: UsageEvent,
)
    requires
        reports(r, recorded_cost(table, r), event),
    ensures
        event.input_tokens == r.input_tokens && event.output_tokens == r.output_tokens,
        event.provider == r.provider && event.model == r.model,
        event.user_id == r.user_id && event.project_id == r.project_id,
        event.pipe_id == r.pipe_id && event.token_id == r.token_id,
        event.status_code == r.status_code && event.request_id == r.request_id,
        event.is_streaming == r.is_streaming,
        r.firewall_mode ==> !event.is_priced && event.cost == 0,
        !r.firewall_mode ==> event.is_priced && event.cost == listed_cost(
            table,
            r.provider@,
            r.model@,
            r.input_tokens,
            r.output_tokens,
        ),
{
}

} // verus!
