//! Everything the display shows at one refresh, and the display's own state.
use vstd::prelude::*;
use crate::aggregate::{aggregate, aggregated};
use crate::analyzer::{current_block_info, get_current_block_info_at};
use crate::blocks::{all_in_range, is_chronological};
use crate::clock::now_millis;
use crate::distribution::{active_entries, distribution_matches, get_model_distribution_at};
use crate::models::{
    get_plans, is_shipped_plan, normalizes, usage_record_count, CurrentBlockInfo, Entry,
    ModelDistribution, PeriodStats, PlanLimits, RawEntry,
};
use crate::periods::{
    all_in_calendar, lemma_select_sum, local_dates, local_today, select_in_period, select_period,
    LocalDate, Period,
};
use crate::sums::tokens_fit;

verus! {

/// A share reached at 90%, in hundredths of a percent.
pub const WARNING_PERCENT: u128 = 9_000;

/// A share reached at 100%, in hundredths of a percent.
pub const LIMIT_PERCENT: u128 = 10_000;

/// `s` alone when `c` holds, nothing otherwise.
pub open spec fn when(c: bool, s: Seq<char>) -> Seq<Seq<char>> {
    if c { seq![s] } else { Seq::empty() }
}

/// Warnings for a block: one per limit at 90% or more, and a rate-limit
/// alert when any of the cost, token or message limits is reached.
pub open spec fn warnings_for(info: CurrentBlockInfo) -> Seq<Seq<char>> {
    when(info.cost_percent >= WARNING_PERCENT, "⚠️ Cost limit nearly exhausted (90%+)"@)
        + when(info.tokens_percent >= WARNING_PERCENT, "⚠️ Token limit nearly exhausted (90%+)"@)
        + when(info.messages_percent >= WARNING_PERCENT, "⚠️ Message limit nearly exhausted (90%+)"@)
        + when(
        info.cost_percent >= LIMIT_PERCENT || info.tokens_percent >= LIMIT_PERCENT
            || info.messages_percent >= LIMIT_PERCENT,
        "🚨 RATE LIMITED - Wait for reset!"@,
    )
}

/// The text of each string.
pub open spec fn texts(v: Seq<String>) -> Seq<Seq<char>> {
    v.map_values(|s: String| s@)
}

/// The threshold warnings for a block analysis.
pub fn usage_warnings(info: &CurrentBlockInfo) -> (r: Vec<String>)
    ensures
        texts(r@) == warnings_for(*info),
{
    let mut r: Vec<String> = Vec::new();
    if info.cost_percent >= WARNING_PERCENT {
        r.push(String::from_str("⚠️ Cost limit nearly exhausted (90%+)"));
    }
    if info.tokens_percent >= WARNING_PERCENT {
        r.push(String::from_str("⚠️ Token limit nearly exhausted (90%+)"));
    }
    if info.messages_percent >= WARNING_PERCENT {
        r.push(String::from_str("⚠️ Message limit nearly exhausted (90%+)"));
    }
    if info.cost_percent >= LIMIT_PERCENT || info.tokens_percent >= LIMIT_PERCENT
        || info.messages_percent >= LIMIT_PERCENT {
        r.push(String::from_str("🚨 RATE LIMITED - Wait for reset!"));
    }
    assert(texts(r@) =~= warnings_for(*info));
    r
}

/// What the display shows at one refresh.
#[derive(Clone, Debug)]
pub struct DashboardData {
    pub current_block: CurrentBlockInfo,
    pub today: PeriodStats,
    pub week: PeriodStats,
    pub month: PeriodStats,
    pub selected_plan: PlanLimits,
    /// Tier shares of the active block.
    pub model_distribution: Vec<ModelDistribution>,
    pub warnings: Vec<String>,
}

/// `r` is the dashboard for `es` with plan number `plan_index` (the last
/// plan when past the end), evaluated at `now` on local date `today`, the
/// events' local dates being `dates`.
pub open spec fn dashboard_matches(
    r: DashboardData,
    es: Seq<Entry>,
    plan_index: int,
    now: int,
    today: LocalDate,
    dates: Seq<LocalDate>,
) -> bool {
    &&& is_shipped_plan(r.selected_plan, if plan_index < 2 { plan_index } else { 2 })
    &&& r.current_block == current_block_info(es, r.selected_plan, now)
    &&& aggregated(r.today, select_period(es, dates, today, Period::Today), "Today"@)
    &&& aggregated(r.week, select_period(es, dates, today, Period::Week), "This Week"@)
    &&& aggregated(r.month, select_period(es, dates, today, Period::Month), "This Month"@)
    &&& distribution_matches(r.model_distribution@, active_entries(es, now))
    &&& texts(r.warnings@) == warnings_for(r.current_block)
}

/// The dashboard at instant `now` on local date `today`; `dates` gives the
/// local date of each event.
pub fn dashboard_at(
    entries: &Vec<Entry>,
    plan_index: usize,
    now: i64,
    today: LocalDate,
    dates: &Vec<LocalDate>,
) -> (r: DashboardData)
    requires
        all_in_range(entries@),
        tokens_fit(entries@),
        dates.len() == entries.len(),
    ensures
        dashboard_matches(r, entries@, plan_index as int, now as int, today, dates@),
{
    let mut plans = get_plans();
    let index = if plan_index < 2 { plan_index } else { 2 };
    let selected_plan = plans.remove(index);
    let today_entries = select_in_period(entries, dates, today, Period::Today);
    let week_entries = select_in_period(entries, dates, today, Period::Week);
    let month_entries = select_in_period(entries, dates, today, Period::Month);
    proof {
        lemma_select_sum(entries@, dates@, today, Period::Today);
        lemma_select_sum(entries@, dates@, today, Period::Week);
        lemma_select_sum(entries@, dates@, today, Period::Month);
    }
    let current_block = get_current_block_info_at(entries, &selected_plan, now);
    let warnings = usage_warnings(&current_block);
    DashboardData {
        current_block,
        today: aggregate(&today_entries, "Today"),
        week: aggregate(&week_entries, "This Week"),
        month: aggregate(&month_entries, "This Month"),
        selected_plan,
        model_distribution: get_model_distribution_at(entries, now),
        warnings,
    }
}

/// The dashboard at the current time.
pub fn get_dashboard_data(entries: &Vec<Entry>, plan_index: usize) -> (r: DashboardData)
    requires
        all_in_range(entries@),
        tokens_fit(entries@),
        all_in_calendar(entries@),
    ensures
        exists|now: i64, today: LocalDate, dates: Seq<LocalDate>|
            dates.len() == entries.len()
                && dashboard_matches(r, entries@, plan_index as int, now as int, today, dates),
{
    let now = now_millis();
    let today = local_today();
    let dates = local_dates(entries);
    dashboard_at(entries, plan_index, now, today, &dates)
}

/// Which period and which plan the display shows.
#[derive(Clone, Copy, Debug, PartialEq, Eq, Structural)]
pub struct ViewState {
    /// Index into the shipped plans.
    pub selected_plan: usize,
    /// 0 today, 1 this week, 2 this month, 3 all time.
    pub selected_period: usize,
}

/// Number of periods the display cycles through.
pub const PERIOD_COUNT: usize = 4;

impl ViewState {
    /// The first plan and today.
    pub fn new() -> (r: ViewState)
        ensures
            r.selected_plan == 0 && r.selected_period == 0,
    {
        ViewState { selected_plan: 0, selected_period: 0 }
    }

    /// The following period, wrapping to today after all time.
    pub fn next_period(&mut self)
        requires
            old(self).selected_period < PERIOD_COUNT,
        ensures
            final(self).selected_period == (old(self).selected_period + 1) % (PERIOD_COUNT as int),
            final(self).selected_plan == old(self).selected_plan,
    {
        self.selected_period = (self.selected_period + 1) % PERIOD_COUNT;
    }

    /// The preceding period, wrapping to all time before today.
    pub fn prev_period(&mut self)
        requires
            old(self).selected_period < PERIOD_COUNT,
        ensures
            final(self).selected_period == if old(self).selected_period == 0 {
                PERIOD_COUNT - 1
            } else {
                old(self).selected_period - 1
            },
            final(self).selected_plan == old(self).selected_plan,
    {
        self.selected_period = if self.selected_period == 0 {
            PERIOD_COUNT - 1
        } else {
            self.selected_period - 1
        };
    }

    /// The following plan among `plan_count`, wrapping to the first.
    pub fn next_plan(&mut self, plan_count: usize)
        requires
            plan_count > 0,
            old(self).selected_plan < plan_count,
        ensures
            final(self).selected_plan == (old(self).selected_plan + 1) % (plan_count as int),
            final(self).selected_period == old(self).selected_period,
    {
        self.selected_plan = (self.selected_plan + 1) % plan_count;
    }
}

/// Relies on `slice::sort_by_key` with the timestamp as key: a stable sort
/// that keeps the elements and orders them by ascending key.
#[verifier::external_body]
fn sort_by_timestamp(v: &mut Vec<Entry>)
    ensures
        final(v)@.to_multiset() == old(v)@.to_multiset(),
        is_chronological(final(v)@),
{
    v.sort_by_key(|e| e.timestamp);
}

/// Normalizes raw records, dropping those that are not usage events, and
/// orders the events by time.
pub fn prepare_events(raw: &Vec<RawEntry>) -> (r: Vec<Entry>)
    ensures
        is_chronological(r@),
        exists|events: Seq<Entry>| normalizes(events, raw@) && r@.to_multiset() == events.to_multiset(),
        forall|i: int| 0 <= i < r.len() ==> (#[trigger] r[i]).wf(),
        r.len() == usage_record_count(raw@),
{
    let mut out: Vec<Entry> = Vec::new();
    let mut i: usize = 0;
    while i < raw.len()
        invariant
            0 <= i <= raw.len(),
            forall|k: int| 0 <= k < out.len() ==> (#[trigger] out[k]).wf(),
            out.len() == usage_record_count(raw@.take(i as int)),
            normalizes(out@, raw@.take(i as int)),
        decreases raw.len() - i,
    {
        proof {
            assert(raw@.take(i + 1).drop_last() =~= raw@.take(i as int));
        }
        let ghost old_out = out@;
        match Entry::try_from(raw[i].duplicate()) {
            Ok(e) => {
                out.push(e);
                assert(out@.drop_last() =~= old_out);
            },
            Err(_) => {},
        }
        i = i + 1;
    }
    assert(raw@.take(raw.len() as int) =~= raw@);
    let ghost before = out@;
    sort_by_timestamp(&mut out);
    proof {
        out@.to_multiset_ensures();
        before.to_multiset_ensures();
        assert forall|k: int| 0 <= k < out.len() implies (#[trigger] out[k]).wf() by {
            assert(out@.contains(out@[k]));
            assert(before.to_multiset().count(out@[k]) > 0);
            let j = choose|j: int| 0 <= j < before.len() && before[j] == out@[k];
        }
    }
    out
}

} // verus!
