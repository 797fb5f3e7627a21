//! Calendar periods (today, this week, this month) in the local time zone.
use vstd::prelude::*;
use crate::aggregate::lemma_cost_sum_bound;
use crate::clock::now_millis;
use crate::models::Entry;
use crate::sums::{sum_of, total_of};

verus! {

/// A calendar date in the machine's local time zone.
#[derive(Clone, Copy, Debug, PartialEq, Eq, Structural)]
pub struct LocalDate {
    /// Days since 0001-01-01 (that day being day 1).
    pub days_from_ce: i32,
    /// 0 for Monday up to 6 for Sunday.
    pub weekday_from_monday: u32,
    pub year: i32,
    /// 1 to 12.
    pub month: u32,
}

/// The fields of a date agree: a month of the year, and the weekday of the
/// day number (day 1, 0001-01-01 of the proleptic Gregorian calendar, was a
/// Monday).
pub open spec fn date_wf(d: LocalDate) -> bool {
    &&& 1 <= d.month <= 12
    &&& d.weekday_from_monday < 7
    &&& d.weekday_from_monday == (d.days_from_ce + 6) % 7
}

/// A calendar period that holds today.
#[derive(Clone, Copy, Debug, PartialEq, Eq, Structural)]
pub enum Period {
    Today,
    /// Monday to Sunday of the current week.
    Week,
    Month,
}

/// Bound of the instants whose local date is computed, in milliseconds
/// from the epoch either way (about 250,000 years).
pub const CALENDAR_LIMIT_MS: i64 = 8_000_000_000_000_000;

/// An instant within the calendar bound.
pub open spec fn in_calendar(t: int) -> bool {
    -CALENDAR_LIMIT_MS <= t <= CALENDAR_LIMIT_MS
}

/// Every event lies within the calendar bound.
pub open spec fn all_in_calendar(es: Seq<Entry>) -> bool {
    forall|i: int| 0 <= i < es.len() ==> in_calendar(#[trigger] es[i].timestamp as int)
}

/// Whether date `d` lies in period `p` of the day `today`.
pub open spec fn in_period(p: Period, d: LocalDate, today: LocalDate) -> bool {
    match p {
        Period::Today => d.days_from_ce == today.days_from_ce,
        Period::Week => today.days_from_ce - today.weekday_from_monday <= d.days_from_ce
            <= today.days_from_ce,
        Period::Month => d.year == today.year && d.month == today.month,
    }
}

/// The events whose date (`dates[i]` for `es[i]`) lies in period `p`, in order.
pub open spec fn select_period(es: Seq<Entry>, dates: Seq<LocalDate>, today: LocalDate, p: Period) -> Seq<Entry>
    decreases es.len(),
{
    if es.len() == 0 || dates.len() == 0 {
        Seq::empty()
    } else {
        let prev = select_period(es.drop_last(), dates.drop_last(), today, p);
        if in_period(p, dates.last(), today) {
            prev.push(es.last())
        } else {
            prev
        }
    }
}

/// Relies on chrono's `DateTime::from_timestamp_millis`,
/// `DateTime::with_timezone(&Local)` and `DateTime::date_naive`, and on the
/// `Datelike` getters of `NaiveDate`: the local date of an instant. It
/// depends on the machine's time zone; inside the calendar bound chrono
/// neither fails nor panics. `num_days_from_ce` counts 0001-01-01, a
/// Monday, as day 1, so the weekday follows from the day number.
#[verifier::external_body]
fn local_date_of(millis: i64) -> (r: LocalDate)
    requires
        in_calendar(millis as int),
    ensures
        date_wf(r),
{
    let utc = chrono::DateTime::from_timestamp_millis(millis).unwrap();
    let d = utc.with_timezone(&chrono::Local).date_naive();
    LocalDate {
        days_from_ce: chrono::Datelike::num_days_from_ce(&d),
        weekday_from_monday: chrono::Datelike::weekday(&d).num_days_from_monday(),
        year: chrono::Datelike::year(&d),
        month: chrono::Datelike::month(&d),
    }
}

/// The events whose date lies in period `p` of `today`; `dates` gives the
/// date of each event.
pub fn select_in_period(entries: &Vec<Entry>, dates: &Vec<LocalDate>, today: LocalDate, p: Period) -> (r:
    Vec<Entry>)
    requires
        dates.len() == entries.len(),
    ensures
        r@ == select_period(entries@, dates@, today, p),
{
    let mut r: Vec<Entry> = Vec::new();
    let mut i: usize = 0;
    while i < entries.len()
        invariant
            0 <= i <= entries.len(),
            dates.len() == entries.len(),
            r@ == select_period(entries@.take(i as int), dates@.take(i as int), today, p),
        decreases entries.len() - i,
    {
        proof {
            assert(entries@.take(i + 1).drop_last() =~= entries@.take(i as int));
            assert(dates@.take(i + 1).drop_last() =~= dates@.take(i as int));
        }
        let d = dates[i];
        let keep = match p {
            Period::Today => d.days_from_ce == today.days_from_ce,
            Period::Week => (today.days_from_ce as i64) - (today.weekday_from_monday as i64)
                <= d.days_from_ce as i64 && d.days_from_ce <= today.days_from_ce,
            Period::Month => d.year == today.year && d.month == today.month,
        };
        if keep {
            r.push(entries[i].duplicate());
        }
        i = i + 1;
    }
    assert(entries@.take(entries.len() as int) =~= entries@);
    assert(dates@.take(dates.len() as int) =~= dates@);
    r
}

/// A sum over the events of a period is at most the sum over all events.
pub proof fn lemma_select_sum(es: Seq<Entry>, dates: Seq<LocalDate>, today: LocalDate, p: Period)
    ensures
        sum_of(select_period(es, dates, today, p), total_of()) <= sum_of(es, total_of()),
    decreases es.len(),
{
    if es.len() > 0 && dates.len() > 0 {
        lemma_select_sum(es.drop_last(), dates.drop_last(), today, p);
        let prev = select_period(es.drop_last(), dates.drop_last(), today, p);
        if in_period(p, dates.last(), today) {
            assert(prev.push(es.last()).drop_last() =~= prev);
        }
        lemma_cost_sum_bound(es);
        lemma_cost_sum_bound(es.drop_last());
        assert(es.last().usage.total_spec() >= 0);
    } else if es.len() > 0 {
        lemma_cost_sum_bound(es);
    }
}

/// The current instant, kept inside the calendar bound.
fn clamped_now() -> (r: i64)
    ensures
        in_calendar(r as int),
{
    let now = now_millis();
    if now > CALENDAR_LIMIT_MS {
        CALENDAR_LIMIT_MS
    } else if now < -CALENDAR_LIMIT_MS {
        -CALENDAR_LIMIT_MS
    } else {
        now
    }
}

/// Today's local date.
pub fn local_today() -> (r: LocalDate)
    ensures
        date_wf(r),
{
    local_date_of(clamped_now())
}

/// The local date of each event.
pub fn local_dates(entries: &Vec<Entry>) -> (r: Vec<LocalDate>)
    requires
        all_in_calendar(entries@),
    ensures
        r.len() == entries.len(),
        forall|i: int| 0 <= i < r.len() ==> date_wf(#[trigger] r[i]),
{
    let mut r: Vec<LocalDate> = Vec::new();
    let mut i: usize = 0;
    while i < entries.len()
        invariant
            0 <= i <= entries.len(),
            all_in_calendar(entries@),
            r.len() == i,
            forall|k: int| 0 <= k < r.len() ==> date_wf(#[trigger] r[k]),
        decreases entries.len() - i,
    {
        r.push(local_date_of(entries[i].timestamp));
        i = i + 1;
    }
    r
}

/// The events of period `p` of the current local date.
fn filter_period(entries: &Vec<Entry>, p: Period) -> (r: Vec<Entry>)
    requires
        all_in_calendar(entries@),
    ensures
        exists|dates: Seq<LocalDate>, today: LocalDate|
            dates.len() == entries.len() && r@ == select_period(entries@, dates, today, p),
{
    let today = local_today();
    let dates = local_dates(entries);
    select_in_period(entries, &dates, today, p)
}

/// The events of today, by local date.
pub fn filter_today(entries: &Vec<Entry>) -> (r: Vec<Entry>)
    requires
        all_in_calendar(entries@),
    ensures
        exists|dates: Seq<LocalDate>, today: LocalDate|
            dates.len() == entries.len() && r@ == select_period(entries@, dates, today, Period::Today),
{
    filter_period(entries, Period::Today)
}

/// The events of the current Monday-to-Sunday week, by local date.
pub fn filter_this_week(entries: &Vec<Entry>) -> (r: Vec<Entry>)
    requires
        all_in_calendar(entries@),
    ensures
        exists|dates: Seq<LocalDate>, today: LocalDate|
            dates.len() == entries.len() && r@ == select_period(entries@, dates, today, Period::Week),
{
    filter_period(entries, Period::Week)
}

/// The events of the current calendar month, by local date.
pub fn filter_this_month(entries: &Vec<Entry>) -> (r: Vec<Entry>)
    requires
        all_in_calendar(entries@),
    ensures
        exists|dates: Seq<LocalDate>, today: LocalDate|
            dates.len() == entries.len() && r@ == select_period(entries@, dates, today, Period::Month),
{
    filter_period(entries, Period::Month)
}

} // verus!
