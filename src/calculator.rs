//! Costs of events and model totals, and the text forms of counts, costs
//! and durations.
use vstd::prelude::*;
use crate::models::{Entry, ModelStats};
use crate::pricing::{get_pricing, price_spec, tier_of, Pricing, MAX_PRICE};

verus! {

/// Cost in cost units of the given counts at the given prices.
pub open spec fn priced_spec(p: Pricing, input: int, output: int, create: int, read: int) -> int {
    input * p.input + output * p.output + create * p.cache_create + read * p.cache_read
}

/// Full cost of an event: all four categories.
pub open spec fn entry_cost_spec(e: Entry) -> int {
    priced_spec(
        price_spec(tier_of(e.model@)),
        e.usage.input_tokens as int,
        e.usage.output_tokens as int,
        e.usage.cache_creation_input_tokens as int,
        e.usage.cache_read_input_tokens as int,
    )
}

/// Cost of an event that counts against the rate limit: cache reads are left out.
pub open spec fn entry_limit_cost_spec(e: Entry) -> int {
    priced_spec(
        price_spec(tier_of(e.model@)),
        e.usage.input_tokens as int,
        e.usage.output_tokens as int,
        e.usage.cache_creation_input_tokens as int,
        0,
    )
}

/// Cost of a model's accumulated totals.
pub open spec fn stats_cost_spec(m: ModelStats) -> int {
    priced_spec(
        price_spec(tier_of(m.model@)),
        m.input_tokens as int,
        m.output_tokens as int,
        m.cache_create_tokens as int,
        m.cache_read_tokens as int,
    )
}

/// Bound of the cost of `n` tokens at any price of the table.
pub open spec fn cost_bound(n: int) -> int {
    n * MAX_PRICE
}

/// An event's limit cost is part of its full cost, and neither exceeds the
/// bound for its token count.
pub proof fn lemma_entry_cost_bounds(e: Entry)
    ensures
        0 <= entry_limit_cost_spec(e) <= entry_cost_spec(e) <= cost_bound(e.usage.total_spec()),
{
    let p = price_spec(tier_of(e.model@));
    let u = e.usage;
    assert(0 <= entry_limit_cost_spec(e) <= entry_cost_spec(e)
        <= cost_bound(e.usage.total_spec())) by (nonlinear_arith)
        requires
            p.input <= 7500 && p.output <= 7500 && p.cache_create <= 7500 && p.cache_read <= 7500,
            entry_limit_cost_spec(e) == u.input_tokens * p.input + u.output_tokens * p.output
                + u.cache_creation_input_tokens * p.cache_create,
            entry_cost_spec(e) == entry_limit_cost_spec(e) + u.cache_read_input_tokens * p.cache_read,
            cost_bound(e.usage.total_spec()) == (u.input_tokens + u.output_tokens
                + u.cache_creation_input_tokens + u.cache_read_input_tokens) * 7500,
            u.input_tokens >= 0 && u.output_tokens >= 0,
            u.cache_creation_input_tokens >= 0 && u.cache_read_input_tokens >= 0,
    ;
}

fn priced(tokens: u64, price: u64) -> (r: u128)
    requires
        price <= MAX_PRICE,
    ensures
        r == tokens * price,
        r <= cost_bound(tokens as int),
{
    proof {
        assert(tokens * price <= tokens * MAX_PRICE) by (nonlinear_arith)
            requires
                price <= MAX_PRICE,
        ;
        assert(tokens * MAX_PRICE <= u64::MAX * MAX_PRICE) by (nonlinear_arith)
            requires
                tokens <= u64::MAX,
        ;
    }
    (tokens as u128) * (price as u128)
}

fn priced_usage(p: Pricing, input: u64, output: u64, create: u64, read: u64) -> (r: u128)
    requires
        p.input <= MAX_PRICE && p.output <= MAX_PRICE,
        p.cache_create <= MAX_PRICE && p.cache_read <= MAX_PRICE,
    ensures
        r == priced_spec(p, input as int, output as int, create as int, read as int),
        r <= cost_bound(input + output + create + read),
{
    let a = priced(input, p.input);
    let b = priced(output, p.output);
    let c = priced(create, p.cache_create);
    let d = priced(read, p.cache_read);
    a + b + c + d
}

/// Cost of a model's accumulated totals, in cost units.
pub fn calculate_cost(stats: &ModelStats) -> (r: u128)
    ensures
        r == stats_cost_spec(*stats),
        r <= cost_bound(stats.total_spec()),
{
    let p = get_pricing(stats.model.as_str());
    priced_usage(
        p,
        stats.input_tokens,
        stats.output_tokens,
        stats.cache_create_tokens,
        stats.cache_read_tokens,
    )
}

/// Full cost of one event, in cost units.
pub fn calculate_entry_cost(entry: &Entry) -> (r: u128)
    ensures
        r == entry_cost_spec(*entry),
        r <= cost_bound(entry.usage.total_spec()),
{
    let p = get_pricing(entry.model.as_str());
    let u = entry.usage;
    priced_usage(
        p,
        u.input_tokens,
        u.output_tokens,
        u.cache_creation_input_tokens,
        u.cache_read_input_tokens,
    )
}

/// Cost of one event that counts against the rate limit, in cost units.
pub fn calculate_entry_limit_cost(entry: &Entry) -> (r: u128)
    ensures
        r == entry_limit_cost_spec(*entry),
        r <= cost_bound(entry.usage.total_spec()),
{
    let p = get_pricing(entry.model.as_str());
    let u = entry.usage;
    priced_usage(p, u.input_tokens, u.output_tokens, u.cache_creation_input_tokens, 0)
}

/// Tokens of one event that count against the rate limit: its output tokens.
pub fn get_limit_tokens(entry: &Entry) -> (r: u64)
    ensures
        r == entry.usage.output_tokens,
{
    entry.usage.output_tokens
}

} // verus!
