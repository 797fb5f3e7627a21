//! The active-block analyzer: limit and real accounting, percentages,
//! burn rate and exhaustion predictions.
use vstd::prelude::*;
use crate::aggregate::{entry_cost_of, lemma_cost_sum_bound};
use crate::blocks::{
    active_block_index, all_in_range, build_blocks, create_blocks_at, first_active,
    lemma_block_sum, lemma_blocks_partition, lemma_shape_of, lemma_first_active_in_range, BlockModel, WINDOW_MS,
};
use crate::calculator::{
    calculate_entry_cost, calculate_entry_limit_cost, cost_bound, entry_limit_cost_spec,
    get_limit_tokens, lemma_entry_cost_bounds,
};
use crate::clock::now_millis;
use crate::models::{empty_info, CurrentBlockInfo, Entry, PlanLimits, Usage};
use crate::pricing::{price_spec, tier_of};
use crate::sums::{lemma_sum_mono, lemma_sum_prefix, lemma_sum_zero, sum_of, tokens_fit, total_of};

verus! {

/// Minimum time over which a rate is taken: one minute, in milliseconds.
pub const MINUTE_MS: i64 = 60_000;

/// Output tokens of an event.
pub open spec fn output_of() -> spec_fn(Entry) -> int {
    |e: Entry| e.usage.output_tokens as int
}

/// Limit cost of an event.
pub open spec fn limit_cost_of() -> spec_fn(Entry) -> int {
    |e: Entry| entry_limit_cost_spec(e)
}

/// Cost of an event's cache-read tokens.
pub open spec fn read_cost_of() -> spec_fn(Entry) -> int {
    |e: Entry| e.usage.cache_read_input_tokens * price_spec(tier_of(e.model@)).cache_read
}

/// `used` against `limit` in hundredths of a percent, rounded down; zero
/// when there is no limit.
pub open spec fn percent(used: int, limit: int) -> int {
    if limit <= 0 {
        0
    } else {
        used * 10_000 / limit
    }
}

/// Time over which the burn rate is taken: first to last event, at least a
/// minute; a minute for a single event.
pub open spec fn active_span(s: Seq<Entry>) -> int {
    if s.len() > 1 {
        let d = s.last().timestamp - s[0].timestamp;
        if d > MINUTE_MS { d } else { MINUTE_MS as int }
    } else {
        MINUTE_MS as int
    }
}

/// Linear extrapolation of when `remaining` more is used at the rate of
/// `used` per `span` milliseconds: now when nothing remains, never (`None`)
/// when nothing was used, capped at the largest instant.
pub open spec fn predict(now: int, remaining: int, used: int, span: int) -> Option<int> {
    if remaining <= 0 {
        Some(now)
    } else if used > 0 {
        let t = now + remaining * span / used;
        Some(if t > i64::MAX { i64::MAX as int } else { t })
    } else {
        None
    }
}

/// The analysis of one active block at `now` against `plan`.
pub open spec fn block_info(b: BlockModel, plan: PlanLimits, now: int) -> CurrentBlockInfo {
    let s = b.entries;
    let end = b.start + WINDOW_MS;
    let limit_cost = sum_of(s, limit_cost_of());
    let limit_tokens = sum_of(s, output_of());
    let span = active_span(s);
    CurrentBlockInfo {
        block_start: Some(b.start as i64),
        reset_time: Some(end as i64),
        secs_until_reset: (if end > now { (end - now) / 1000 } else { 0 }) as i64,
        limit_cost: limit_cost as u128,
        limit_tokens: limit_tokens as u64,
        limit_messages: s.len() as u64,
        real_cost: sum_of(s, entry_cost_of()) as u128,
        real_tokens: sum_of(s, total_of()) as u64,
        cost_percent: percent(limit_cost, plan.cost_limit as int) as u128,
        tokens_percent: percent(limit_tokens, plan.token_limit as int) as u128,
        messages_percent: percent(s.len() as int, plan.message_limit as int) as u128,
        tokens_per_min: (limit_tokens * 60_000_000 / span) as u128,
        cost_per_min: (limit_cost * MINUTE_MS / span) as u128,
        active_millis: span as u64,
        tokens_exhausted_at: match predict(now, plan.token_limit - limit_tokens, limit_tokens, span) {
            Some(t) => Some(t as i64),
            None => None,
        },
        cost_exhausted_at: match predict(now, plan.cost_limit - limit_cost, limit_cost, span) {
            Some(t) => Some(t as i64),
            None => None,
        },
        is_active: true,
    }
}

/// What the analyzer returns: the analysis of the block of `es` active at
/// `now`, or the all-zero result when none is.
pub open spec fn current_block_info(es: Seq<Entry>, plan: PlanLimits, now: int) -> CurrentBlockInfo {
    let bs = build_blocks(es);
    match first_active(bs, now) {
        Some(k) => block_info(bs[k], plan, now),
        None => empty_info(),
    }
}

pub(crate) fn percent_of(used: u128, limit: u128) -> (r: u128)
    requires
        used <= 1_000_000_000_000_000_000_000_000,
    ensures
        r == percent(used as int, limit as int),
{
    if limit > 0 {
        used * 10_000 / limit
    } else {
        0
    }
}

fn predict_exec(now: i64, used: u128, limit: u128, span: u64) -> (r: Option<i64>)
    requires
        limit <= u64::MAX,
        0 < span < 100_000_000,
    ensures
        r == match predict(now as int, limit - used, used as int, span as int) {
            Some(t) => Some(t as i64),
            None => None,
        },
{
    if used >= limit {
        Some(now)
    } else if used > 0 {
        let remaining = limit - used;
        let sp = span as u128;
        assert(remaining * sp <= u64::MAX * 100_000_000) by (nonlinear_arith)
            requires
                remaining <= u64::MAX,
                sp < 100_000_000,
        ;
        let prod = remaining * sp;
        let q = prod / used;
        assert(q <= prod) by (nonlinear_arith)
            requires
                q == prod / used,
                used > 0,
                prod >= 0,
        ;
        let t = (now as i128) + (q as i128);
        if t > i64::MAX as i128 {
            Some(i64::MAX)
        } else {
            Some(t as i64)
        }
    } else {
        None
    }
}

/// Sums over one block are at most the sums over all events.
pub proof fn lemma_block_sums(es: Seq<Entry>, k: int)
    requires
        0 <= k < build_blocks(es).len(),
    ensures
        sum_of(build_blocks(es)[k].entries, total_of()) <= sum_of(es, total_of()),
{
    lemma_blocks_partition(es);
    lemma_block_sum(build_blocks(es), k);
}

/// Analyzes the block of `entries` active at `now` (milliseconds since the
/// epoch) against `plan`; the all-zero result when no block is active.
pub fn get_current_block_info_at(entries: &Vec<Entry>, plan: &PlanLimits, now: i64) -> (r:
    CurrentBlockInfo)
    requires
        all_in_range(entries@),
        tokens_fit(entries@),
    ensures
        r == current_block_info(entries@, *plan, now as int),
        first_active(build_blocks(entries@), now as int) matches Some(k) ==> {
            let s = build_blocks(entries@)[k].entries;
            &&& r.limit_tokens == sum_of(s, output_of())
            &&& r.real_tokens == sum_of(s, total_of())
            &&& r.limit_cost == sum_of(s, limit_cost_of())
            &&& r.real_cost == sum_of(s, limit_cost_of()) + sum_of(s, read_cost_of())
        },
        plan.cost_limit == 0 ==> r.cost_percent == 0,
        plan.token_limit == 0 ==> r.tokens_percent == 0,
        plan.message_limit == 0 ==> r.messages_percent == 0,
{
    proof {
        lemma_percent_zero_limit(0, entries@, *plan, now as int);
        let bs = build_blocks(entries@);
        if first_active(bs, now as int) is Some {
            lemma_token_accounting(entries@, *plan, now as int);
            let k = first_active(bs, now as int).unwrap();
            lemma_first_active_in_range(bs, now as int);
            let s = bs[k].entries;
            lemma_limit_cost_excludes_cache_read(s, s[0], 0);
        }
    }
    let blocks = create_blocks_at(entries, now);
    let idx = match active_block_index(&blocks, Ghost(entries@), now) {
        Some(k) => k,
        None => {
            return CurrentBlockInfo::empty();
        },
    };
    let block = &blocks[idx];
    let ghost s = block.entries@;
    proof {
        lemma_shape_of(entries@, idx as int);
        lemma_block_sums(entries@, idx as int);
        lemma_cost_sum_bound(s);
    }
    let end = block.end_time;
    let secs_until_reset: i64 = if end > now {
        (((end as i128) - (now as i128)) / 1000) as i64
    } else {
        0
    };
    let mut limit_cost: u128 = 0;
    let mut limit_tokens: u64 = 0;
    let mut real_cost: u128 = 0;
    let mut real_tokens: u64 = 0;
    let n = block.entries.len();
    let mut i: usize = 0;
    while i < n
        invariant
            0 <= i <= n,
            n == block.entries.len(),
            s == block.entries@,
            sum_of(s, total_of()) <= u64::MAX,
            limit_cost == sum_of(s.take(i as int), limit_cost_of()),
            limit_tokens == sum_of(s.take(i as int), output_of()),
            real_cost == sum_of(s.take(i as int), entry_cost_of()),
            real_tokens == sum_of(s.take(i as int), total_of()),
        decreases n - i,
    {
        let e = &block.entries[i];
        let ghost next = s.take(i + 1);
        proof {
            assert(next.drop_last() =~= s.take(i as int));
            assert(next.last() == *e);
            lemma_sum_prefix(s, i + 1, total_of());
            lemma_sum_mono(next, output_of(), total_of());
            lemma_sum_mono(next, limit_cost_of(), entry_cost_of());
            lemma_cost_sum_bound(next);
            lemma_cost_sum_bound(s.take(i as int));
            lemma_entry_cost_bounds(*e);
        }
        limit_cost = limit_cost + calculate_entry_limit_cost(e);
        limit_tokens = limit_tokens + get_limit_tokens(e);
        real_cost = real_cost + calculate_entry_cost(e);
        real_tokens = real_tokens + e.usage.total();
        i = i + 1;
    }
    proof {
        assert(s.take(n as int) =~= s);
        lemma_sum_mono(s, output_of(), total_of());
        lemma_sum_mono(s, limit_cost_of(), entry_cost_of());
    }
    let span: i64 = if n > 1 {
        let d = block.entries[n - 1].timestamp as i128 - block.entries[0].timestamp as i128;
        if d > MINUTE_MS as i128 { d as i64 } else { MINUTE_MS }
    } else {
        MINUTE_MS
    };
    let messages = n as u64;
    proof {
        let st = sum_of(s, total_of());
        assert(cost_bound(st) <= 7500 * u64::MAX) by (nonlinear_arith)
            requires
                cost_bound(st) == st * 7500,
                st <= u64::MAX,
        ;
        assert(limit_cost <= real_cost);
        assert(limit_cost <= 7500 * u64::MAX);
        assert(span == active_span(s));
        assert(span < WINDOW_MS);
    }
    let cost_per_min = limit_cost * (MINUTE_MS as u128) / (span as u128);
    CurrentBlockInfo {
        block_start: Some(block.start_time),
        reset_time: Some(end),
        secs_until_reset,
        limit_cost,
        limit_tokens,
        limit_messages: messages,
        real_cost,
        real_tokens,
        cost_percent: percent_of(limit_cost, plan.cost_limit as u128),
        tokens_percent: percent_of(limit_tokens as u128, plan.token_limit as u128),
        messages_percent: percent_of(messages as u128, plan.message_limit as u128),
        tokens_per_min: (limit_tokens as u128) * 60_000_000 / (span as u128),
        cost_per_min,
        active_millis: span as u64,
        tokens_exhausted_at: predict_exec(now, limit_tokens as u128, plan.token_limit as u128, span as u64),
        cost_exhausted_at: predict_exec(now, limit_cost, plan.cost_limit as u128, span as u64),
        is_active: true,
    }
}

/// The limit tokens of the active block are the sum of its events' output
/// tokens; its real tokens are the sum of all four categories.
pub proof fn lemma_token_accounting(es: Seq<Entry>, plan: PlanLimits, now: int)
    requires
        tokens_fit(es),
        first_active(build_blocks(es), now) is Some,
    ensures
        ({
            let k = first_active(build_blocks(es), now).unwrap();
            let s = build_blocks(es)[k].entries;
            let info = current_block_info(es, plan, now);
            &&& info.limit_tokens == sum_of(s, output_of())
            &&& info.real_tokens == sum_of(s, total_of())
        }),
{
    let bs = build_blocks(es);
    let k = first_active(bs, now).unwrap();
    lemma_first_active_in_range(bs, now);
    lemma_block_sums(es, k);
    let s = bs[k].entries;
    lemma_sum_mono(s, output_of(), total_of());
    lemma_cost_sum_bound(s);
    assert(sum_of(s, output_of()) >= 0) by {
        lemma_sum_mono(s, |e: Entry| 0int, output_of());
        lemma_sum_zero(s, |e: Entry| 0int);
    }
}

/// The limit cost leaves cache-read tokens out and the real cost counts
/// them: over any events the real cost is the limit cost plus the cost of
/// the cache reads, and changing an event's cache reads leaves its limit
/// cost as it was.
pub proof fn lemma_limit_cost_excludes_cache_read(s: Seq<Entry>, e: Entry, reads: u64)
    ensures
        sum_of(s, entry_cost_of()) == sum_of(s, limit_cost_of()) + sum_of(s, read_cost_of()),
        entry_limit_cost_spec(
            Entry { usage: Usage { cache_read_input_tokens: reads, ..e.usage }, ..e },
        ) == entry_limit_cost_spec(e),
    decreases s.len(),
{
    if s.len() > 0 {
        lemma_limit_cost_excludes_cache_read(s.drop_last(), e, reads);
    }
}

/// Percentages are never negative and are zero against a zero limit; so
/// are the analyzer's percentages for a plan with zero limits.
pub proof fn lemma_percent_zero_limit(used: int, es: Seq<Entry>, plan: PlanLimits, now: int)
    requires
        used >= 0,
    ensures
        percent(used, 0) == 0,
        percent(used, plan.cost_limit as int) >= 0,
        plan.cost_limit == 0 ==> current_block_info(es, plan, now).cost_percent == 0,
        plan.token_limit == 0 ==> current_block_info(es, plan, now).tokens_percent == 0,
        plan.message_limit == 0 ==> current_block_info(es, plan, now).messages_percent == 0,
{
    if plan.cost_limit > 0 {
        assert(used * 10_000 / (plan.cost_limit as int) >= 0) by (nonlinear_arith)
            requires
                used >= 0,
                plan.cost_limit > 0,
        ;
    }
}

/// The analysis is a function of the events, the plan and the instant:
/// two analyses of the same inputs are identical.
pub proof fn lemma_analysis_deterministic(
    es: Seq<Entry>,
    plan: PlanLimits,
    now: int,
    first: CurrentBlockInfo,
    second: CurrentBlockInfo,
)
    requires
        first == current_block_info(es, plan, now),
        second == current_block_info(es, plan, now),
    ensures
        first == second,
{
}

/// Analyzes the block of `entries` active at the current time against `plan`.
pub fn get_current_block_info(entries: &Vec<Entry>, plan: &PlanLimits) -> (r: CurrentBlockInfo)
    requires
        all_in_range(entries@),
        tokens_fit(entries@),
    ensures
        exists|now: i64| r == current_block_info(entries@, *plan, now as int),
{
    let now = now_millis();
    get_current_block_info_at(entries, plan, now)
}

} // verus!
