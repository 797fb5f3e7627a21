//! Rolling events up into per-model totals and period summaries.
use vstd::prelude::*;
use crate::calculator::{
    calculate_cost, calculate_entry_cost, cost_bound, entry_cost_spec, lemma_entry_cost_bounds,
    priced_spec,
};
use crate::models::{Entry, ModelStats, PeriodStats};
use crate::pricing::{price_spec, tier_of};
use crate::ranking::{as_ints, lemma_rank, rank, rank_positions};
use crate::sums::{
    distinct, lemma_distinct, lemma_sum_mono, lemma_sum_prefix, lemma_sum_zero, sum_of, tokens_fit,
    total_of,
};

verus! {

/// The model name of each event.
pub open spec fn models_of(es: Seq<Entry>) -> Seq<Seq<char>> {
    es.map_values(|e: Entry| e.model@)
}

/// The session identifier of each event.
pub open spec fn sessions_of(es: Seq<Entry>) -> Seq<Seq<char>> {
    es.map_values(|e: Entry| e.session_id@)
}

/// Input tokens of an event of model `m`, zero for other models.
pub open spec fn input_for(m: Seq<char>) -> spec_fn(Entry) -> int {
    |e: Entry| if e.model@ == m { e.usage.input_tokens as int } else { 0 }
}

/// Output tokens of an event of model `m`, zero for other models.
pub open spec fn output_for(m: Seq<char>) -> spec_fn(Entry) -> int {
    |e: Entry| if e.model@ == m { e.usage.output_tokens as int } else { 0 }
}

/// Cache-creation tokens of an event of model `m`, zero for other models.
pub open spec fn create_for(m: Seq<char>) -> spec_fn(Entry) -> int {
    |e: Entry| if e.model@ == m { e.usage.cache_creation_input_tokens as int } else { 0 }
}

/// Cache-read tokens of an event of model `m`, zero for other models.
pub open spec fn read_for(m: Seq<char>) -> spec_fn(Entry) -> int {
    |e: Entry| if e.model@ == m { e.usage.cache_read_input_tokens as int } else { 0 }
}

/// One for an event of model `m`, zero for other models.
pub open spec fn calls_for(m: Seq<char>) -> spec_fn(Entry) -> int {
    |e: Entry| if e.model@ == m { 1int } else { 0 }
}

/// One for every event.
pub open spec fn one() -> spec_fn(Entry) -> int {
    |e: Entry| 1int
}

/// Full cost of an event.
pub open spec fn entry_cost_of() -> spec_fn(Entry) -> int {
    |e: Entry| entry_cost_spec(e)
}

/// `ms` holds the totals over `es` of the events of its model.
pub open spec fn tallies(ms: ModelStats, es: Seq<Entry>) -> bool {
    &&& ms.input_tokens == sum_of(es, input_for(ms.model@))
    &&& ms.output_tokens == sum_of(es, output_for(ms.model@))
    &&& ms.cache_create_tokens == sum_of(es, create_for(ms.model@))
    &&& ms.cache_read_tokens == sum_of(es, read_for(ms.model@))
    &&& ms.call_count == sum_of(es, calls_for(ms.model@))
}

/// One entry per distinct model of `es`, in order of first occurrence,
/// each with that model's totals.
pub open spec fn grouped(gs: Seq<ModelStats>, es: Seq<Entry>) -> bool {
    &&& gs.len() == distinct(models_of(es)).len()
    &&& forall|k: int| 0 <= k < gs.len() ==> (#[trigger] gs[k]).model@ == distinct(models_of(es))[k]
        && tallies(gs[k], es)
}

/// Cost of the totals of model `m` over `es`.
pub open spec fn model_cost(es: Seq<Entry>, m: Seq<char>) -> int {
    priced_spec(
        price_spec(tier_of(m)),
        sum_of(es, input_for(m)),
        sum_of(es, output_for(m)),
        sum_of(es, create_for(m)),
        sum_of(es, read_for(m)),
    )
}

/// Costs of the models of `es`, in order of first occurrence.
pub open spec fn model_costs(es: Seq<Entry>) -> Seq<int> {
    distinct(models_of(es)).map_values(|m: Seq<char>| model_cost(es, m))
}

/// What `aggregate` returns for `es`: per-model totals ordered by
/// descending cost (ties in order of first occurrence), the sums of tokens,
/// costs and calls, the number of distinct sessions, and the label.
pub open spec fn aggregated(r: PeriodStats, es: Seq<Entry>, label: Seq<char>) -> bool {
    let ms = distinct(models_of(es));
    &&& r.models.len() == ms.len()
    &&& forall|k: int| 0 <= k < ms.len() ==> {
        let g = #[trigger] r.models@[rank(model_costs(es), k) as int];
        g.model@ == ms[k] && tallies(g, es)
    }
    &&& r.total_tokens == sum_of(es, total_of())
    &&& r.total_cost == sum_of(es, entry_cost_of())
    &&& r.total_calls == es.len()
    &&& r.session_count == distinct(sessions_of(es)).len()
    &&& r.period_label@ == label
}

/// A count of one per event is the number of events.
pub proof fn lemma_sum_one(es: Seq<Entry>)
    ensures
        sum_of(es, one()) == es.len(),
    decreases es.len(),
{
    if es.len() > 0 {
        lemma_sum_one(es.drop_last());
    }
}

/// The sum of event costs is at most the bound for the sum of tokens.
pub proof fn lemma_cost_sum_bound(es: Seq<Entry>)
    ensures
        0 <= sum_of(es, entry_cost_of()) <= cost_bound(sum_of(es, total_of())),
        sum_of(es, total_of()) >= 0,
    decreases es.len(),
{
    if es.len() > 0 {
        lemma_cost_sum_bound(es.drop_last());
        lemma_entry_cost_bounds(es.last());
    }
}

fn find_model(groups: &Vec<ModelStats>, m: &String) -> (r: Option<usize>)
    ensures
        r matches Some(k) ==> k < groups.len() && groups[k as int].model@ == m@,
        r is None ==> forall|k: int| 0 <= k < groups.len() ==> (#[trigger] groups[k]).model@ != m@,
{
    let mut k: usize = 0;
    while k < groups.len()
        invariant
            0 <= k <= groups.len(),
            forall|j: int| 0 <= j < k ==> (#[trigger] groups[j]).model@ != m@,
        decreases groups.len() - k,
    {
        if groups[k].model == *m {
            return Some(k);
        }
        k = k + 1;
    }
    None
}

fn contains_string(v: &Vec<String>, s: &String) -> (r: bool)
    ensures
        r == v@.map_values(|x: String| x@).contains(s@),
{
    let ghost vs = v@.map_values(|x: String| x@);
    let mut k: usize = 0;
    while k < v.len()
        invariant
            0 <= k <= v.len(),
            vs == v@.map_values(|x: String| x@),
            forall|j: int| 0 <= j < k ==> vs[j] != s@,
        decreases v.len() - k,
    {
        if v[k] == *s {
            assert(vs[k as int] == s@);
            return true;
        }
        k = k + 1;
    }
    false
}

/// Per-model totals in order of first occurrence.
fn group_by_model(entries: &Vec<Entry>) -> (gs: Vec<ModelStats>)
    requires
        tokens_fit(entries@),
    ensures
        grouped(gs@, entries@),
{
    let mut groups: Vec<ModelStats> = Vec::new();
    let mut i: usize = 0;
    while i < entries.len()
        invariant
            0 <= i <= entries.len(),
            tokens_fit(entries@),
            grouped(groups@, entries@.take(i as int)),
        decreases entries.len() - i,
    {
        let ghost prefix = entries@.take(i as int);
        let ghost next = entries@.take(i + 1);
        let e = &entries[i];
        let ghost m = e.model@;
        proof {
            assert(next.drop_last() =~= prefix);
            assert(next.last() == *e);
            assert(models_of(next) =~= models_of(prefix).push(m));
            assert(models_of(next).drop_last() =~= models_of(prefix));
            lemma_distinct(models_of(prefix));
            lemma_sum_prefix(entries@, i + 1, total_of());
            lemma_sum_mono(next, input_for(m), total_of());
            lemma_sum_mono(next, output_for(m), total_of());
            lemma_sum_mono(next, create_for(m), total_of());
            lemma_sum_mono(next, read_for(m), total_of());
            lemma_sum_mono(next, calls_for(m), one());
            lemma_sum_one(next);
        }
        match find_model(&groups, &e.model) {
            Some(k) => {
                proof {
                    assert(distinct(models_of(prefix))[k as int] == m);
                    assert(distinct(models_of(prefix)).contains(m));
                    assert(distinct(models_of(next)) == distinct(models_of(prefix)));
                }
                groups[k].add(&e.usage);
                proof {
                    assert forall|j: int| 0 <= j < groups.len() implies (#[trigger] groups[j]).model@
                        == distinct(models_of(next))[j] && tallies(groups[j], next) by {
                        if j != k {
                            assert(distinct(models_of(prefix))[j] != distinct(models_of(prefix))[k as int]);
                        }
                    }
                }
            }
            None => {
                proof {
                    assert(!distinct(models_of(prefix)).contains(m)) by {
                        if distinct(models_of(prefix)).contains(m) {
                            let k = choose|k: int| 0 <= k < distinct(models_of(prefix)).len()
                                && distinct(models_of(prefix))[k] == m;
                            assert(groups[k].model@ == m);
                        }
                    }
                    assert(!models_of(prefix).contains(m));
                    assert forall|j: int| 0 <= j < prefix.len() implies (#[trigger] prefix[j]).model@ != m by {
                        assert(models_of(prefix)[j] == prefix[j].model@);
                    }
                    lemma_sum_zero(prefix, input_for(m));
                    lemma_sum_zero(prefix, output_for(m));
                    lemma_sum_zero(prefix, create_for(m));
                    lemma_sum_zero(prefix, read_for(m));
                    lemma_sum_zero(prefix, calls_for(m));
                    assert(distinct(models_of(next)) == distinct(models_of(prefix)).push(m));
                }
                let mut g = ModelStats::new(e.model.clone());
                g.add(&e.usage);
                groups.push(g);
                proof {
                    assert forall|j: int| 0 <= j < groups.len() implies (#[trigger] groups[j]).model@
                        == distinct(models_of(next))[j] && tallies(groups[j], next) by {
                        if j < groups.len() - 1 {
                            assert(distinct(models_of(prefix))[j] != m) by {
                                assert(distinct(models_of(prefix)).contains(distinct(models_of(prefix))[j]));
                            }
                        }
                    }
                }
            }
        }
        i = i + 1;
    }
    assert(entries@.take(entries.len() as int) =~= entries@);
    groups
}

/// The totals ordered by descending cost, ties kept in first-occurrence order.
fn order_by_cost(groups: &Vec<ModelStats>, Ghost(es): Ghost<Seq<Entry>>) -> (r: Vec<ModelStats>)
    requires
        grouped(groups@, es),
    ensures
        r.len() == groups.len(),
        forall|k: int| 0 <= k < groups.len() ==> r[rank(model_costs(es), k) as int] == groups[k],
{
    let n = groups.len();
    let ghost ms = distinct(models_of(es));
    let mut keys: Vec<u128> = Vec::new();
    let mut models: Vec<ModelStats> = Vec::new();
    let mut k: usize = 0;
    while k < n
        invariant
            n == groups.len(),
            grouped(groups@, es),
            ms == distinct(models_of(es)),
            0 <= k <= n,
            keys.len() == k,
            models.len() == k,
            forall|j: int| 0 <= j < k ==> keys[j] as int == model_cost(es, ms[j]),
        decreases n - k,
    {
        keys.push(calculate_cost(&groups[k]));
        models.push(groups[k].duplicate());
        k = k + 1;
    }
    let ghost ks = as_ints(keys@);
    assert(ks =~= model_costs(es));
    let pos = rank_positions(&keys);
    proof {
        lemma_rank(ks);
    }
    let mut i: usize = 0;
    while i < n
        invariant
            n == groups.len(),
            ks == model_costs(es),
            ks.len() == n,
            pos.len() == n,
            forall|j: int| 0 <= j < n ==> pos[j] == rank(ks, j),
            forall|j: int| 0 <= j < n ==> #[trigger] rank(ks, j) < n,
            forall|a: int, b: int|
                0 <= a < n && 0 <= b < n && a != b ==> #[trigger] rank(ks, a) != #[trigger] rank(ks, b),
            0 <= i <= n,
            models.len() == n,
            forall|j: int| 0 <= j < i ==> models[rank(ks, j) as int] == groups[j],
        decreases n - i,
    {
        let p = pos[i];
        assert(p == rank(ks, i as int));
        assert(p < n);
        let g = groups[i].duplicate();
        let ghost before = models@;
        models[p] = g;
        assert forall|j: int| 0 <= j < i + 1 implies models[rank(ks, j) as int] == groups[j] by {
            if j < i {
                assert(rank(ks, j) != rank(ks, i as int));
                assert(models[rank(ks, j) as int] == before[rank(ks, j) as int]);
            }
        }
        i = i + 1;
    }
    models
}

/// Per-model totals ordered by descending cost, event totals, and the
/// number of distinct sessions of `entries`, under `label`.
pub fn aggregate(entries: &Vec<Entry>, label: &str) -> (r: PeriodStats)
    requires
        tokens_fit(entries@),
    ensures
        aggregated(r, entries@, label@),
{
    let groups = group_by_model(entries);
    let models = order_by_cost(&groups, Ghost(entries@));
    let mut seen: Vec<String> = Vec::new();
    let mut total_tokens: u64 = 0;
    let mut total_cost: u128 = 0;
    let mut i: usize = 0;
    while i < entries.len()
        invariant
            0 <= i <= entries.len(),
            tokens_fit(entries@),
            seen@.map_values(|x: String| x@) == distinct(sessions_of(entries@.take(i as int))),
            total_tokens == sum_of(entries@.take(i as int), total_of()),
            total_cost == sum_of(entries@.take(i as int), entry_cost_of()),
        decreases entries.len() - i,
    {
        let ghost prefix = entries@.take(i as int);
        let ghost next = entries@.take(i + 1);
        let e = &entries[i];
        proof {
            assert(next.drop_last() =~= prefix);
            assert(next.last() == *e);
            assert(sessions_of(next).drop_last() =~= sessions_of(prefix));
            assert(sessions_of(next).last() == e.session_id@);
            lemma_sum_prefix(entries@, i + 1, total_of());
            lemma_cost_sum_bound(next);
            lemma_cost_sum_bound(prefix);
        }
        if !contains_string(&seen, &e.session_id) {
            seen.push(e.session_id.clone());
            assert(seen@.map_values(|x: String| x@) =~= distinct(sessions_of(prefix)).push(e.session_id@));
        }
        total_tokens = total_tokens + e.usage.total();
        total_cost = total_cost + calculate_entry_cost(e);
        i = i + 1;
    }
    assert(entries@.take(entries.len() as int) =~= entries@);
    let ghost ms = distinct(models_of(entries@));
    let r = PeriodStats {
        models,
        total_tokens,
        total_cost,
        total_calls: entries.len() as u64,
        session_count: seen.len(),
        period_label: String::from_str(label),
    };
    assert(seen@.map_values(|x: String| x@).len() == seen.len());
    assert forall|k: int| 0 <= k < ms.len() implies {
        let g = #[trigger] r.models@[rank(model_costs(entries@), k) as int];
        g.model@ == ms[k] && tallies(g, entries@)
    } by {
        assert(r.models@[rank(model_costs(entries@), k) as int] == groups[k]);
    }
    r
}

} // verus!
