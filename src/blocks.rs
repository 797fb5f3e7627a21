//! Partitioning a time-ordered event stream into five-hour session blocks.
use vstd::prelude::*;
use crate::aggregate::{aggregate, aggregated, lemma_cost_sum_bound};
use crate::clock::now_millis;
use crate::models::{Entry, SessionBlock};
use crate::sums::{lemma_sum_concat, sum_of, tokens_fit, total_of};

verus! {

/// One hour, in milliseconds.
pub const HOUR_MS: i64 = 3_600_000;

/// Length of a session block: five hours, in milliseconds.
pub const WINDOW_MS: i64 = 18_000_000;

/// Start of the hour that holds `t` (milliseconds since the epoch).
pub open spec fn hour_floor(t: int) -> int {
    t - t % (HOUR_MS as int)
}

/// A timestamp whose hour start and block end are representable.
pub open spec fn timestamp_in_range(t: int) -> bool {
    i64::MIN + HOUR_MS <= t && t <= i64::MAX - WINDOW_MS
}

/// Start of the hour that holds `t`.
pub fn round_to_hour(t: i64) -> (r: i64)
    requires
        timestamp_in_range(t as int),
    ensures
        r == hour_floor(t as int),
{
    if t >= 0 {
        t - t % HOUR_MS
    } else {
        let r = t % HOUR_MS;
        if r == 0 {
            t
        } else {
            t - r - HOUR_MS
        }
    }
}

/// A block as the builder forms it: its start and its events in order.
pub struct BlockModel {
    pub start: int,
    pub entries: Seq<Entry>,
}

/// Every event lies in the range of `timestamp_in_range`.
pub open spec fn all_in_range(es: Seq<Entry>) -> bool {
    forall|i: int| 0 <= i < es.len() ==> timestamp_in_range(#[trigger] es[i].timestamp as int)
}

/// Events in non-decreasing timestamp order.
pub open spec fn is_chronological(es: Seq<Entry>) -> bool {
    forall|i: int, j: int| 0 <= i <= j < es.len() ==> es[i].timestamp <= es[j].timestamp
}

/// Whether event `e` opens a new block after `blocks`: there is no block
/// yet, `e` is at or past the end of the last block, or `e` comes a full
/// window or more after the last event of the last block.
pub open spec fn starts_new_block(blocks: Seq<BlockModel>, e: Entry) -> bool {
    blocks.len() == 0
    || e.timestamp >= blocks.last().start + WINDOW_MS
    || e.timestamp - blocks.last().entries.last().timestamp >= WINDOW_MS
}

/// The blocks formed from `es`, taken one event at a time.
pub open spec fn build_blocks(es: Seq<Entry>) -> Seq<BlockModel>
    decreases es.len(),
{
    if es.len() == 0 {
        Seq::empty()
    } else {
        let prev = build_blocks(es.drop_last());
        let e = es.last();
        if starts_new_block(prev, e) {
            prev.push(BlockModel { start: hour_floor(e.timestamp as int), entries: seq![e] })
        } else {
            prev.update(
                prev.len() - 1,
                BlockModel { start: prev.last().start, entries: prev.last().entries.push(e) },
            )
        }
    }
}

/// The events of `blocks`, one block after the other.
pub open spec fn flatten(blocks: Seq<BlockModel>) -> Seq<Entry>
    decreases blocks.len(),
{
    if blocks.len() == 0 {
        Seq::empty()
    } else {
        flatten(blocks.drop_last()) + blocks.last().entries
    }
}

/// The shape of one block: non-empty, started at the hour of its first
/// event, every later event before its end.
pub open spec fn block_shape(b: BlockModel) -> bool {
    &&& b.entries.len() > 0
    &&& b.start == hour_floor(b.entries[0].timestamp as int)
    &&& forall|k: int| 1 <= k < b.entries.len() ==> #[trigger] b.entries[k].timestamp < b.start + WINDOW_MS
}

proof fn lemma_hour_floor(t: int)
    ensures
        hour_floor(t) <= t < hour_floor(t) + HOUR_MS,
        hour_floor(t) % (HOUR_MS as int) == 0,
{
    assert(hour_floor(t) % (HOUR_MS as int) == 0) by (nonlinear_arith)
        requires
            hour_floor(t) == t - t % 3_600_000int,
    ;
}

/// An hour start at or below `t` is at or below the hour start of `t`.
proof fn lemma_hour_floor_above(m: int, t: int)
    requires
        m % (HOUR_MS as int) == 0,
        m <= t,
    ensures
        m <= hour_floor(t),
{
    lemma_hour_floor(t);
    assert(m <= hour_floor(t)) by (nonlinear_arith)
        requires
            m % 3_600_000int == 0,
            hour_floor(t) % 3_600_000int == 0,
            m <= t,
            t < hour_floor(t) + 3_600_000int,
    ;
}

/// Each block is well shaped, the blocks hold exactly the events in their
/// order, and events in range stay in range.
pub proof fn lemma_build_shape(es: Seq<Entry>)
    ensures
        forall|i: int| 0 <= i < build_blocks(es).len() ==> block_shape(#[trigger] build_blocks(es)[i]),
        flatten(build_blocks(es)) == es,
        all_in_range(es) ==> forall|i: int| 0 <= i < build_blocks(es).len()
            ==> all_in_range(#[trigger] build_blocks(es)[i].entries),
    decreases es.len(),
{
    if es.len() > 0 {
        let prev = build_blocks(es.drop_last());
        let e = es.last();
        lemma_build_shape(es.drop_last());
        let bs = build_blocks(es);
        if starts_new_block(prev, e) {
            assert(bs.drop_last() =~= prev);
            assert(flatten(bs) =~= es);
        } else {
            let last = bs.last();
            assert(bs.drop_last() =~= prev.drop_last());
            assert(flatten(prev) == flatten(prev.drop_last()) + prev.last().entries);
            assert(flatten(bs) == flatten(prev.drop_last()) + prev.last().entries.push(e));
            assert(es =~= es.drop_last().push(e));
            assert(flatten(bs) =~= es);
            assert(block_shape(last)) by {
                assert(last.entries[0] == prev.last().entries[0]);
            }
            if all_in_range(es) {
                assert(all_in_range(es.drop_last()));
                assert(all_in_range(last.entries)) by {
                    assert forall|k: int| 0 <= k < last.entries.len() implies
                        timestamp_in_range(#[trigger] last.entries[k].timestamp as int) by {
                        if k < last.entries.len() - 1 {
                            assert(last.entries[k] == prev.last().entries[k]);
                        }
                    }
                }
            }
        }
    }
}

/// In a chronological stream every event of a block is at or after the
/// block's start, and each block ends at or before the next one starts.
proof fn lemma_blocks_disjoint(es: Seq<Entry>)
    requires
        is_chronological(es),
    ensures
        forall|i: int, k: int|
            0 <= i < build_blocks(es).len() && 0 <= k < build_blocks(es)[i].entries.len()
                ==> build_blocks(es)[i].start <= #[trigger] build_blocks(es)[i].entries[k].timestamp,
        forall|i: int, j: int|
            #![trigger build_blocks(es)[i].start, build_blocks(es)[j].start]
            0 <= i < j < build_blocks(es).len()
                ==> build_blocks(es)[i].start + WINDOW_MS <= build_blocks(es)[j].start,
    decreases es.len(),
{
    if es.len() > 0 {
        let prev = build_blocks(es.drop_last());
        let e = es.last();
        let bs = build_blocks(es);
        lemma_blocks_disjoint(es.drop_last());
        lemma_build_shape(es.drop_last());
        lemma_build_shape(es);
        lemma_hour_floor(e.timestamp as int);
        if prev.len() > 0 {
            let lb = prev.last();
            assert(block_shape(lb));
            assert(flatten(prev) == flatten(prev.drop_last()) + lb.entries);
            assert(es.drop_last().last() == lb.entries.last());
            assert(e.timestamp >= lb.entries.last().timestamp);
            assert(lb.entries.last().timestamp >= lb.start);
        }
        if starts_new_block(prev, e) {
            if prev.len() > 0 {
                let lb = prev.last();
                lemma_hour_floor(lb.entries[0].timestamp as int);
                assert((lb.start + WINDOW_MS) % (HOUR_MS as int) == 0) by (nonlinear_arith)
                    requires
                        lb.start % 3_600_000int == 0,
                ;
                assert(lb.start + WINDOW_MS <= e.timestamp);
                lemma_hour_floor_above(lb.start + WINDOW_MS, e.timestamp as int);
            }
        } else {
            assert forall|i: int, k: int|
                0 <= i < bs.len() && 0 <= k < bs[i].entries.len()
                    implies bs[i].start <= #[trigger] bs[i].entries[k].timestamp by {
                if i < bs.len() - 1 || k < bs[i].entries.len() - 1 {
                    assert(bs[i].entries[k] == prev[i].entries[k]);
                }
            }
        }
    }
}

/// Every event lands in exactly one block, blocks keep the events in their
/// input order, and no block is empty. For a chronological stream the
/// blocks are ordered by start and do not overlap: each ends at or before
/// the next one starts.
pub proof fn lemma_blocks_partition(es: Seq<Entry>)
    ensures
        flatten(build_blocks(es)) == es,
        forall|i: int| 0 <= i < build_blocks(es).len() ==> (#[trigger] build_blocks(es)[i]).entries.len() > 0,
        is_chronological(es) ==> forall|i: int, j: int|
            #![trigger build_blocks(es)[i].start, build_blocks(es)[j].start]
            0 <= i < j < build_blocks(es).len()
                ==> build_blocks(es)[i].start + WINDOW_MS <= build_blocks(es)[j].start,
{
    lemma_build_shape(es);
    assert forall|i: int| 0 <= i < build_blocks(es).len() implies (#[trigger] build_blocks(es)[i]).entries.len() > 0 by {
        assert(block_shape(build_blocks(es)[i]));
    }
    if is_chronological(es) {
        lemma_blocks_disjoint(es);
    }
}

/// Whether a block is active at `now`: it started at or before `now` and
/// ends after it.
pub open spec fn active_at(start: int, now: int) -> bool {
    start <= now < start + WINDOW_MS
}

/// For a chronological stream, at most one block is active at any instant.
pub proof fn lemma_at_most_one_active(es: Seq<Entry>, now: int)
    requires
        is_chronological(es),
    ensures
        forall|i: int, j: int|
            #![trigger build_blocks(es)[i].start, build_blocks(es)[j].start]
            0 <= i < build_blocks(es).len() && 0 <= j < build_blocks(es).len()
                && active_at(build_blocks(es)[i].start, now)
                && active_at(build_blocks(es)[j].start, now) ==> i == j,
{
    lemma_blocks_disjoint(es);
}

/// A block under construction.
struct Span {
    start: i64,
    entries: Vec<Entry>,
}

spec fn span_models(spans: Seq<Span>) -> Seq<BlockModel> {
    spans.map_values(|sp: Span| BlockModel { start: sp.start as int, entries: sp.entries@ })
}

/// Groups the events into blocks, in one pass.
fn split_into_spans(entries: &Vec<Entry>) -> (spans: Vec<Span>)
    requires
        all_in_range(entries@),
    ensures
        span_models(spans@) == build_blocks(entries@),
{
    let mut spans: Vec<Span> = Vec::new();
    let mut i: usize = 0;
    while i < entries.len()
        invariant
            0 <= i <= entries.len(),
            all_in_range(entries@),
            span_models(spans@) == build_blocks(entries@.take(i as int)),
        decreases entries.len() - i,
    {
        let ghost prefix = entries@.take(i as int);
        proof {
            lemma_build_shape(prefix);
            assert(all_in_range(prefix));
            assert(entries@.take(i + 1).drop_last() =~= prefix);
            assert(entries@.take(i + 1).last() == entries@[i as int]);
        }
        let e = &entries[i];
        let new_block = if spans.len() == 0 {
            true
        } else {
            let last = &spans[spans.len() - 1];
            proof {
                assert(span_models(spans@).last() == build_blocks(prefix).last());
                assert(block_shape(build_blocks(prefix).last()));
                assert(all_in_range(build_blocks(prefix).last().entries));
                assert(timestamp_in_range(last.entries@[0].timestamp as int));
                lemma_hour_floor(last.entries@[0].timestamp as int);
            }
            let prev_ts = last.entries[last.entries.len() - 1].timestamp;
            e.timestamp >= last.start + WINDOW_MS
                || (e.timestamp as i128) - (prev_ts as i128) >= WINDOW_MS as i128
        };
        if new_block {
            let start = round_to_hour(e.timestamp);
            let mut v: Vec<Entry> = Vec::new();
            v.push(e.duplicate());
            spans.push(Span { start, entries: v });
            proof {
                assert(span_models(spans@) =~= build_blocks(prefix).push(
                    BlockModel { start: hour_floor(e.timestamp as int), entries: seq![*e] },
                ));
            }
        } else {
            let mut last = spans.pop().unwrap();
            last.entries.push(e.duplicate());
            spans.push(last);
            proof {
                let prev = build_blocks(prefix);
                assert(span_models(spans@) =~= prev.update(
                    prev.len() - 1,
                    BlockModel { start: prev.last().start, entries: prev.last().entries.push(*e) },
                ));
            }
        }
        i = i + 1;
    }
    assert(entries@.take(entries.len() as int) =~= entries@);
    spans
}

/// A block's events lie within its first event and its end, and a block's
/// start is the hour of its first event.
pub proof fn lemma_shape_of(es: Seq<Entry>, k: int)
    requires
        0 <= k < build_blocks(es).len(),
        all_in_range(es),
    ensures
        build_blocks(es)[k].entries.len() > 0,
        build_blocks(es)[k].start <= build_blocks(es)[k].entries[0].timestamp,
        forall|j: int| 1 <= j < build_blocks(es)[k].entries.len()
            ==> #[trigger] build_blocks(es)[k].entries[j].timestamp < build_blocks(es)[k].start + WINDOW_MS,
        all_in_range(build_blocks(es)[k].entries),
{
    lemma_build_shape(es);
    assert(block_shape(build_blocks(es)[k]));
    lemma_hour_floor(build_blocks(es)[k].entries[0].timestamp as int);
}

/// The token sum of one block is at most the sum over all blocks.
pub proof fn lemma_block_sum(bs: Seq<BlockModel>, i: int)
    requires
        0 <= i < bs.len(),
    ensures
        sum_of(bs[i].entries, total_of()) <= sum_of(flatten(bs), total_of()),
    decreases bs.len(),
{
    let p = bs.drop_last();
    lemma_sum_concat(flatten(p), bs.last().entries, total_of());
    lemma_cost_sum_bound(flatten(p));
    lemma_cost_sum_bound(bs.last().entries);
    if i < bs.len() - 1 {
        assert(bs[i] == p[i]);
        lemma_block_sum(p, i);
    }
}

/// What `create_blocks_at` returns for `es` at instant `now`: the blocks of
/// `build_blocks`, each with its end, its active flag and its totals.
pub open spec fn blocks_match(r: Seq<SessionBlock>, es: Seq<Entry>, now: int) -> bool {
    let bs = build_blocks(es);
    &&& r.len() == bs.len()
    &&& forall|i: int| 0 <= i < r.len() ==> {
        let b = #[trigger] r[i];
        &&& b.start_time == bs[i].start
        &&& b.end_time == bs[i].start + WINDOW_MS
        &&& b.entries@ == bs[i].entries
        &&& b.is_active == active_at(bs[i].start, now)
        &&& aggregated(b.stats, bs[i].entries, "Block"@)
    }
}

/// The blocks as the builder's model sees them.
pub open spec fn block_models(r: Seq<SessionBlock>) -> Seq<BlockModel> {
    r.map_values(|b: SessionBlock| BlockModel { start: b.start_time as int, entries: b.entries@ })
}

/// Partitions events, taken in the given order, into session blocks, and
/// marks the block that holds `now` (milliseconds since the epoch). The
/// blocks hold every event once, in input order; for a chronological
/// stream each block ends at or before the next one starts, and at most one
/// block is active.
pub fn create_blocks_at(entries: &Vec<Entry>, now: i64) -> (r: Vec<SessionBlock>)
    requires
        all_in_range(entries@),
        tokens_fit(entries@),
    ensures
        blocks_match(r@, entries@, now as int),
        flatten(block_models(r@)) == entries@,
        is_chronological(entries@) ==> forall|i: int, j: int|
            #![trigger r[i], r[j]]
            0 <= i < j < r.len() ==> r[i].end_time <= r[j].start_time,
        is_chronological(entries@) ==> forall|i: int, j: int|
            #![trigger r[i], r[j]]
            0 <= i < r.len() && 0 <= j < r.len() && r[i].is_active && r[j].is_active ==> i == j,
{
    let spans = split_into_spans(entries);
    let ghost bs = build_blocks(entries@);
    proof {
        lemma_build_shape(entries@);
    }
    let mut blocks: Vec<SessionBlock> = Vec::new();
    let mut i: usize = 0;
    while i < spans.len()
        invariant
            0 <= i <= spans.len(),
            bs == build_blocks(entries@),
            span_models(spans@) == bs,
            flatten(bs) == entries@,
            tokens_fit(entries@),
            all_in_range(entries@),
            forall|j: int| 0 <= j < bs.len() ==> block_shape(#[trigger] bs[j]),
            forall|j: int| 0 <= j < bs.len() ==> all_in_range(#[trigger] bs[j].entries),
            blocks.len() == i,
            forall|j: int| 0 <= j < i ==> {
                let b = #[trigger] blocks[j];
                &&& b.start_time == bs[j].start
                &&& b.end_time == bs[j].start + WINDOW_MS
                &&& b.entries@ == bs[j].entries
                &&& b.is_active == active_at(bs[j].start, now as int)
                &&& aggregated(b.stats, bs[j].entries, "Block"@)
            },
        decreases spans.len() - i,
    {
        let sp = &spans[i];
        proof {
            assert(span_models(spans@)[i as int] == bs[i as int]);
            assert(block_shape(bs[i as int]));
            assert(all_in_range(bs[i as int].entries));
            assert(timestamp_in_range(bs[i as int].entries[0].timestamp as int));
            lemma_hour_floor(bs[i as int].entries[0].timestamp as int);
            lemma_block_sum(bs, i as int);
        }
        let start = sp.start;
        let end = start + WINDOW_MS;
        let mut copy: Vec<Entry> = Vec::new();
        let mut k: usize = 0;
        while k < sp.entries.len()
            invariant
                0 <= k <= sp.entries.len(),
                copy@ == sp.entries@.take(k as int),
            decreases sp.entries.len() - k,
        {
            copy.push(sp.entries[k].duplicate());
            assert(sp.entries@.take(k + 1) =~= sp.entries@.take(k as int).push(sp.entries@[k as int]));
            k = k + 1;
        }
        assert(sp.entries@.take(sp.entries.len() as int) =~= sp.entries@);
        let stats = aggregate(&copy, "Block");
        blocks.push(SessionBlock {
            start_time: start,
            end_time: end,
            is_active: start <= now && now < end,
            entries: copy,
            stats,
        });
        i = i + 1;
    }
    proof {
        assert(block_models(blocks@) =~= bs);
        lemma_blocks_partition(entries@);
        if is_chronological(entries@) {
            lemma_at_most_one_active(entries@, now as int);
            assert forall|a: int, b: int|
                #![trigger blocks[a], blocks[b]]
                0 <= a < b < blocks.len() implies blocks[a].end_time <= blocks[b].start_time by {
                assert(bs[a].start + WINDOW_MS <= bs[b].start);
            }
            assert forall|a: int, b: int|
                #![trigger blocks[a], blocks[b]]
                0 <= a < blocks.len() && 0 <= b < blocks.len() && blocks[a].is_active
                    && blocks[b].is_active implies a == b by {
                assert(active_at(bs[a].start, now as int) && active_at(bs[b].start, now as int));
            }
        }
    }
    blocks
}

/// Partitions events into session blocks, marking the block that holds the
/// current time.
pub fn create_blocks(entries: &Vec<Entry>) -> (r: Vec<SessionBlock>)
    requires
        all_in_range(entries@),
        tokens_fit(entries@),
    ensures
        exists|now: i64| blocks_match(r@, entries@, now as int),
{
    let now = now_millis();
    create_blocks_at(entries, now)
}

/// Index of the first block active at `now`.
pub open spec fn first_active(bs: Seq<BlockModel>, now: int) -> Option<int>
    decreases bs.len(),
{
    if bs.len() == 0 {
        None
    } else {
        match first_active(bs.drop_last(), now) {
            Some(k) => Some(k),
            None => if active_at(bs.last().start, now) {
                Some(bs.len() - 1)
            } else {
                None
            },
        }
    }
}

proof fn lemma_first_active(bs: Seq<BlockModel>, now: int, i: int)
    requires
        0 <= i <= bs.len(),
        forall|j: int| 0 <= j < i ==> !active_at(#[trigger] bs[j].start, now),
    ensures
        i == bs.len() ==> first_active(bs, now) is None,
        i < bs.len() && active_at(bs[i].start, now) ==> first_active(bs, now) == Some(i),
    decreases bs.len(),
{
    if bs.len() > 0 {
        if i == bs.len() {
            lemma_first_active(bs.drop_last(), now, i - 1);
        } else {
            lemma_first_active(bs.drop_last(), now, i);
        }
    }
}

/// The index of the first active block is an index of a block.
pub proof fn lemma_first_active_in_range(bs: Seq<BlockModel>, now: int)
    ensures
        first_active(bs, now) matches Some(k) ==> 0 <= k < bs.len() && active_at(bs[k].start, now),
    decreases bs.len(),
{
    if bs.len() > 0 {
        lemma_first_active_in_range(bs.drop_last(), now);
    }
}

/// Index of the first active block of `blocks`, built from `es` at `now`.
pub fn active_block_index(blocks: &Vec<SessionBlock>, Ghost(es): Ghost<Seq<Entry>>, now: i64) -> (r:
    Option<usize>)
    requires
        blocks_match(blocks@, es, now as int),
    ensures
        r matches Some(k) ==> k < blocks.len() && first_active(build_blocks(es), now as int) == Some(k as int),
        r is None ==> first_active(build_blocks(es), now as int) is None,
{
    let ghost bs = build_blocks(es);
    let mut idx: usize = 0;
    while idx < blocks.len()
        invariant
            0 <= idx <= blocks.len(),
            blocks_match(blocks@, es, now as int),
            bs == build_blocks(es),
            forall|j: int| 0 <= j < idx ==> !active_at(#[trigger] bs[j].start, now as int),
        decreases blocks.len() - idx,
    {
        if blocks[idx].is_active {
            proof {
                lemma_first_active(bs, now as int, idx as int);
            }
            return Some(idx);
        }
        idx = idx + 1;
    }
    proof {
        lemma_first_active(bs, now as int, idx as int);
    }
    None
}

/// The first active block, if any.
pub fn find_current_block(blocks: &Vec<SessionBlock>) -> (r: Option<&SessionBlock>)
    ensures
        r is None ==> forall|i: int| 0 <= i < blocks.len() ==> !(#[trigger] blocks[i]).is_active,
        r matches Some(b) ==> exists|i: int| 0 <= i < blocks.len() && blocks[i] == *b && b.is_active
            && forall|j: int| 0 <= j < i ==> !(#[trigger] blocks[j]).is_active,
{
    let mut i: usize = 0;
    while i < blocks.len()
        invariant
            0 <= i <= blocks.len(),
            forall|j: int| 0 <= j < i ==> !(#[trigger] blocks[j]).is_active,
        decreases blocks.len() - i,
    {
        if blocks[i].is_active {
            return Some(&blocks[i]);
        }
        i = i + 1;
    }
    None
}

} // verus!
