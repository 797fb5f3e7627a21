//! How a block's limit cost splits over model tiers.
use vstd::prelude::*;
use crate::aggregate::{entry_cost_of, lemma_cost_sum_bound, lemma_sum_one, one};
use crate::analyzer::{limit_cost_of, lemma_block_sums, percent, percent_of};
use crate::blocks::{active_block_index, all_in_range, build_blocks, create_blocks_at, first_active};
use crate::calculator::{calculate_entry_limit_cost, entry_limit_cost_spec, lemma_entry_cost_bounds};
use crate::clock::now_millis;
use crate::models::{Entry, ModelDistribution};
use crate::pricing::{classify, name_of, tier_name, tier_of, Tier};
use crate::ranking::{as_ints, lemma_rank, rank, rank_positions};
use crate::sums::{
    distinct, lemma_distinct, lemma_sum_mono, lemma_sum_prefix, lemma_sum_zero, sum_of, tokens_fit,
    total_of,
};

verus! {

/// The tier of each event.
pub open spec fn tiers_of(s: Seq<Entry>) -> Seq<Tier> {
    s.map_values(|e: Entry| tier_of(e.model@))
}

/// One for an event of tier `t`, zero otherwise.
pub open spec fn calls_in(t: Tier) -> spec_fn(Entry) -> int {
    |e: Entry| if tier_of(e.model@) == t { 1int } else { 0 }
}

/// Output tokens of an event of tier `t`, zero otherwise.
pub open spec fn tokens_in(t: Tier) -> spec_fn(Entry) -> int {
    |e: Entry| if tier_of(e.model@) == t { e.usage.output_tokens as int } else { 0 }
}

/// Limit cost of an event of tier `t`, zero otherwise.
pub open spec fn cost_in(t: Tier) -> spec_fn(Entry) -> int {
    |e: Entry| if tier_of(e.model@) == t { entry_limit_cost_spec(e) } else { 0 }
}

/// Limit costs of the tiers of `s`, in order of first occurrence.
pub open spec fn tier_costs(s: Seq<Entry>) -> Seq<int> {
    distinct(tiers_of(s)).map_values(|t: Tier| sum_of(s, cost_in(t)))
}

/// `r` holds one row per tier of `s`, ordered by descending limit cost
/// (ties in order of first occurrence), with the tier's calls, output
/// tokens, limit cost and share of the total limit cost.
pub open spec fn distribution_matches(r: Seq<ModelDistribution>, s: Seq<Entry>) -> bool {
    let ts = distinct(tiers_of(s));
    &&& r.len() == ts.len()
    &&& forall|k: int| 0 <= k < ts.len() ==> {
        let d = #[trigger] r[rank(tier_costs(s), k) as int];
        &&& d.tier@ == tier_name(ts[k])
        &&& d.model@ == tier_name(ts[k])
        &&& d.calls == sum_of(s, calls_in(ts[k]))
        &&& d.tokens == sum_of(s, tokens_in(ts[k]))
        &&& d.cost == sum_of(s, cost_in(ts[k]))
        &&& d.percent == percent(d.cost as int, sum_of(s, limit_cost_of()))
    }
}

/// The events of the block active at `now`; none when no block is.
pub open spec fn active_entries(es: Seq<Entry>, now: int) -> Seq<Entry> {
    match first_active(build_blocks(es), now) {
        Some(k) => build_blocks(es)[k].entries,
        None => Seq::empty(),
    }
}

fn find_tier(tiers: &Vec<Tier>, t: Tier) -> (r: Option<usize>)
    ensures
        r matches Some(k) ==> k < tiers.len() && tiers[k as int] == t,
        r is None ==> !tiers@.contains(t),
{
    let mut k: usize = 0;
    while k < tiers.len()
        invariant
            0 <= k <= tiers.len(),
            forall|j: int| 0 <= j < k ==> tiers[j] != t,
        decreases tiers.len() - k,
    {
        if tiers[k] == t {
            return Some(k);
        }
        k = k + 1;
    }
    None
}

/// Splits the limit cost of a block's events over model tiers.
pub fn tier_distribution(entries: &Vec<Entry>) -> (r: Vec<ModelDistribution>)
    requires
        tokens_fit(entries@),
    ensures
        distribution_matches(r@, entries@),
{
    let ghost es = entries@;
    let mut tiers: Vec<Tier> = Vec::new();
    let mut calls: Vec<u64> = Vec::new();
    let mut tokens: Vec<u64> = Vec::new();
    let mut costs: Vec<u128> = Vec::new();
    let mut total_cost: u128 = 0;
    let mut i: usize = 0;
    proof {
        assert forall|e: Entry| #[trigger] limit_cost_of()(e) <= entry_cost_of()(e) by {
            lemma_entry_cost_bounds(e);
        }
    }
    while i < entries.len()
        invariant
            0 <= i <= entries.len(),
            es == entries@,
            tokens_fit(es),
            forall|e: Entry| #[trigger] limit_cost_of()(e) <= entry_cost_of()(e),
            tiers@ == distinct(tiers_of(es.take(i as int))),
            calls.len() == tiers.len() && tokens.len() == tiers.len() && costs.len() == tiers.len(),
            forall|k: int| 0 <= k < tiers.len() ==> {
                &&& calls[k] == sum_of(es.take(i as int), calls_in(#[trigger] tiers[k]))
                &&& tokens[k] == sum_of(es.take(i as int), tokens_in(tiers[k]))
                &&& costs[k] == sum_of(es.take(i as int), cost_in(tiers[k]))
            },
            total_cost == sum_of(es.take(i as int), limit_cost_of()),
        decreases entries.len() - i,
    {
        let ghost prefix = es.take(i as int);
        let ghost next = es.take(i + 1);
        let e = &entries[i];
        let t = classify(e.model.as_str());
        proof {
            assert(next.drop_last() =~= prefix);
            assert(next.last() == *e);
            assert(tiers_of(next) =~= tiers_of(prefix).push(t));
            assert(tiers_of(next).drop_last() =~= tiers_of(prefix));
            lemma_distinct(tiers_of(prefix));
            lemma_sum_prefix(es, i + 1, total_of());
            assert forall|x: Entry| #[trigger] cost_in(t)(x) <= limit_cost_of()(x) by {
                lemma_entry_cost_bounds(x);
            }
            lemma_sum_mono(next, tokens_in(t), total_of());
            lemma_sum_mono(next, cost_in(t), limit_cost_of());
            lemma_sum_mono(next, limit_cost_of(), entry_cost_of());
            lemma_sum_mono(next, calls_in(t), one());
            lemma_sum_one(next);
            lemma_cost_sum_bound(next);
            lemma_entry_cost_bounds(*e);
        }
        let c = calculate_entry_limit_cost(e);
        match find_tier(&tiers, t) {
            Some(k) => {
                proof {
                    assert(distinct(tiers_of(prefix)).contains(t));
                    assert(distinct(tiers_of(next)) == distinct(tiers_of(prefix)));
                }
                calls[k] = calls[k] + 1;
                tokens[k] = tokens[k] + e.usage.output_tokens;
                costs[k] = costs[k] + c;
                proof {
                    assert forall|j: int| 0 <= j < tiers.len() implies {
                        &&& calls[j] == sum_of(next, calls_in(#[trigger] tiers[j]))
                        &&& tokens[j] == sum_of(next, tokens_in(tiers[j]))
                        &&& costs[j] == sum_of(next, cost_in(tiers[j]))
                    } by {
                        if j != k {
                            assert(tiers[j] != tiers[k as int]);
                        }
                    }
                }
            }
            None => {
                proof {
                    assert(!tiers_of(prefix).contains(t));
                    assert forall|j: int| 0 <= j < prefix.len() implies tier_of((#[trigger] prefix[j]).model@) != t by {
                        assert(tiers_of(prefix)[j] == tier_of(prefix[j].model@));
                    }
                    lemma_sum_zero(prefix, calls_in(t));
                    lemma_sum_zero(prefix, tokens_in(t));
                    lemma_sum_zero(prefix, cost_in(t));
                }
                tiers.push(t);
                calls.push(1);
                tokens.push(e.usage.output_tokens);
                costs.push(c);
                proof {
                    assert forall|j: int| 0 <= j < tiers.len() implies {
                        &&& calls[j] == sum_of(next, calls_in(#[trigger] tiers[j]))
                        &&& tokens[j] == sum_of(next, tokens_in(tiers[j]))
                        &&& costs[j] == sum_of(next, cost_in(tiers[j]))
                    } by {
                        if j < tiers.len() - 1 {
                            assert(tiers[j] != t) by {
                                assert(distinct(tiers_of(prefix)).contains(tiers[j]));
                            }
                        }
                    }
                }
            }
        }
        total_cost = total_cost + c;
        i = i + 1;
    }
    assert(es.take(entries.len() as int) =~= es);
    let ghost ts = distinct(tiers_of(es));
    let ghost ks = as_ints(costs@);
    assert(ks =~= tier_costs(es));
    proof {
        lemma_cost_sum_bound(es);
        lemma_sum_mono(es, limit_cost_of(), entry_cost_of());
        lemma_rank(ks);
    }
    let pos = rank_positions(&costs);
    let n = tiers.len();
    let mut rows: Vec<ModelDistribution> = Vec::new();
    let mut k: usize = 0;
    while k < n
        invariant
            0 <= k <= n,
            n == tiers.len(),
            rows.len() == k,
        decreases n - k,
    {
        rows.push(ModelDistribution {
            model: String::new(),
            tier: String::new(),
            calls: 0,
            tokens: 0,
            cost: 0,
            percent: 0,
        });
        k = k + 1;
    }
    let mut i: usize = 0;
    while i < n
        invariant
            0 <= i <= n,
            n == tiers.len(),
            ks == tier_costs(es),
            ks.len() == n,
            ts == distinct(tiers_of(es)),
            tiers@ == ts,
            calls.len() == n && tokens.len() == n && costs.len() == n,
            forall|k: int| 0 <= k < n ==> {
                &&& calls[k] == sum_of(es, calls_in(#[trigger] tiers[k]))
                &&& tokens[k] == sum_of(es, tokens_in(tiers[k]))
                &&& costs[k] == sum_of(es, cost_in(tiers[k]))
            },
            total_cost == sum_of(es, limit_cost_of()),
            total_cost <= 1_000_000_000_000_000_000_000_000,
            pos.len() == n,
            forall|j: int| 0 <= j < n ==> pos[j] == rank(ks, j),
            forall|j: int| 0 <= j < n ==> #[trigger] rank(ks, j) < n,
            forall|a: int, b: int|
                0 <= a < n && 0 <= b < n && a != b ==> #[trigger] rank(ks, a) != #[trigger] rank(ks, b),
            rows.len() == n,
            forall|j: int| 0 <= j < i ==> {
                let d = #[trigger] rows[rank(ks, j) as int];
                &&& d.tier@ == tier_name(ts[j])
                &&& d.model@ == tier_name(ts[j])
                &&& d.calls == sum_of(es, calls_in(ts[j]))
                &&& d.tokens == sum_of(es, tokens_in(ts[j]))
                &&& d.cost == sum_of(es, cost_in(ts[j]))
                &&& d.percent == percent(d.cost as int, sum_of(es, limit_cost_of()))
            },
        decreases n - i,
    {
        let p = pos[i];
        assert(p == rank(ks, i as int));
        let name = name_of(tiers[i]);
        proof {
            assert forall|x: Entry| #[trigger] cost_in(tiers[i as int])(x) <= limit_cost_of()(x) by {
                lemma_entry_cost_bounds(x);
            }
            lemma_sum_mono(es, cost_in(tiers[i as int]), limit_cost_of());
        }
        let row = ModelDistribution {
            model: String::from_str(name),
            tier: String::from_str(name),
            calls: calls[i],
            tokens: tokens[i],
            cost: costs[i],
            percent: percent_of(costs[i], total_cost),
        };
        let ghost before = rows@;
        rows[p] = row;
        assert forall|j: int| 0 <= j < i + 1 implies {
            let d = #[trigger] rows[rank(ks, j) as int];
            &&& d.tier@ == tier_name(ts[j])
            &&& d.model@ == tier_name(ts[j])
            &&& d.calls == sum_of(es, calls_in(ts[j]))
            &&& d.tokens == sum_of(es, tokens_in(ts[j]))
            &&& d.cost == sum_of(es, cost_in(ts[j]))
            &&& d.percent == percent(d.cost as int, sum_of(es, limit_cost_of()))
        } by {
            if j < i {
                assert(rank(ks, j) != rank(ks, i as int));
                assert(rows[rank(ks, j) as int] == before[rank(ks, j) as int]);
            }
        }
        i = i + 1;
    }
    rows
}

/// Splits the limit cost of the block active at `now` over model tiers;
/// no rows when no block is active.
pub fn get_model_distribution_at(entries: &Vec<Entry>, now: i64) -> (r: Vec<ModelDistribution>)
    requires
        all_in_range(entries@),
        tokens_fit(entries@),
    ensures
        distribution_matches(r@, active_entries(entries@, now as int)),
{
    let blocks = create_blocks_at(entries, now);
    match active_block_index(&blocks, Ghost(entries@), now) {
        Some(k) => {
            proof {
                lemma_block_sums(entries@, k as int);
            }
            tier_distribution(&blocks[k].entries)
        },
        None => {
            let r: Vec<ModelDistribution> = Vec::new();
            assert(distinct(tiers_of(Seq::<Entry>::empty())) =~= Seq::<Tier>::empty());
            r
        },
    }
}

/// Splits the limit cost of the block active at the current time over
/// model tiers.
pub fn get_model_distribution(entries: &Vec<Entry>) -> (r: Vec<ModelDistribution>)
    requires
        all_in_range(entries@),
        tokens_fit(entries@),
    ensures
        exists|now: i64| distribution_matches(r@, active_entries(entries@, now as int)),
{
    let now = now_millis();
    get_model_distribution_at(entries, now)
}

} // verus!
