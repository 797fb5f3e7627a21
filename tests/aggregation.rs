use claude_dashboard::aggregate::aggregate;
use claude_dashboard::dashboard::{dashboard_at, prepare_events, ViewState};
use claude_dashboard::models::{Entry, Message, ModelStats, RawEntry, Usage};
use claude_dashboard::periods::{select_in_period, LocalDate, Period};

const T: i64 = 1_700_000_000_000;

fn usage(input: u64, output: u64, create: u64, read: u64) -> Usage {
    Usage { input_tokens: input, output_tokens: output, cache_creation_input_tokens: create, cache_read_input_tokens: read }
}

fn ev(ts: i64, model: &str, session: &str, u: Usage) -> Entry {
    Entry { timestamp: ts, session_id: session.to_string(), model: model.to_string(), usage: u }
}

fn raw(ts: i64, session: Option<&str>, model: Option<&str>, u: Option<Usage>) -> RawEntry {
    RawEntry {
        timestamp: ts,
        session_id: session.map(|s| s.to_string()),
        message: Some(Message { model: model.map(|m| m.to_string()), usage: u }),
    }
}

fn date(days: i32, weekday: u32, year: i32, month: u32) -> LocalDate {
    LocalDate { days_from_ce: days, weekday_from_monday: weekday, year, month }
}

#[test]
fn usage_total() {
    assert_eq!(usage(1, 2, 3, 4).total(), 10);
    assert_eq!(Usage::default().total(), 0);
}

#[test]
fn model_stats_accumulate() {
    let mut m = ModelStats::new("model-sonnet".to_string());
    assert_eq!(m.total_tokens(), 0);
    m.add(&usage(1, 2, 3, 4));
    m.add(&usage(10, 20, 30, 40));
    assert_eq!(m.input_tokens, 11);
    assert_eq!(m.output_tokens, 22);
    assert_eq!(m.cache_create_tokens, 33);
    assert_eq!(m.cache_read_tokens, 44);
    assert_eq!(m.call_count, 2);
    assert_eq!(m.total_tokens(), 110);
    assert_eq!(m.model, "model-sonnet");
}

#[test]
fn normalize_records() {
    let ok = Entry::try_from(raw(T, Some("s1"), Some("model-opus"), Some(usage(0, 1, 0, 0)))).unwrap();
    assert_eq!(ok.timestamp, T);
    assert_eq!(ok.session_id, "s1");
    assert_eq!(ok.model, "model-opus");
    assert_eq!(ok.usage, usage(0, 1, 0, 0));
    let unknown = Entry::try_from(raw(T, None, Some("m"), Some(usage(1, 0, 0, 0)))).unwrap();
    assert_eq!(unknown.session_id, "unknown");
    assert!(Entry::try_from(raw(T, None, Some("m"), Some(usage(0, 0, 0, 0)))).is_err());
    assert!(Entry::try_from(raw(T, None, None, Some(usage(1, 0, 0, 0)))).is_err());
    assert!(Entry::try_from(raw(T, None, Some("m"), None)).is_err());
    assert!(Entry::try_from(RawEntry { timestamp: T, session_id: None, message: None }).is_err());
}

#[test]
fn prepare_sorts_and_drops() {
    let raws = vec![
        raw(T + 5, Some("a"), Some("m"), Some(usage(1, 0, 0, 0))),
        raw(T + 1, Some("a"), Some("m"), Some(usage(0, 0, 0, 0))),
        raw(T + 3, Some("b"), Some("m"), Some(usage(2, 0, 0, 0))),
        raw(T + 2, None, None, Some(usage(3, 0, 0, 0))),
        raw(T - 9, None, Some("m"), Some(usage(4, 0, 0, 0))),
    ];
    let es = prepare_events(&raws);
    let ts: Vec<i64> = es.iter().map(|e| e.timestamp).collect();
    assert_eq!(ts, vec![T - 9, T + 3, T + 5]);
}

#[test]
fn aggregate_groups_and_orders_by_cost() {
    let es = vec![
        ev(T, "model-3-haiku", "s1", usage(100, 100, 0, 0)),
        ev(T + 1, "model-sonnet", "s2", usage(100, 100, 0, 0)),
        ev(T + 2, "model-3-haiku", "s1", usage(1, 1, 1, 1)),
        ev(T + 3, "model-3-opus", "s3", usage(100, 100, 0, 0)),
    ];
    let stats = aggregate(&es, "Today");
    let names: Vec<&str> = stats.models.iter().map(|m| m.model.as_str()).collect();
    assert_eq!(names, vec!["model-3-opus", "model-sonnet", "model-3-haiku"]);
    assert_eq!(stats.models[2].input_tokens, 101);
    assert_eq!(stats.models[2].cache_read_tokens, 1);
    assert_eq!(stats.models[2].call_count, 2);
    assert_eq!(stats.total_tokens, 604);
    assert_eq!(stats.total_calls, 4);
    assert_eq!(stats.session_count, 3);
    assert_eq!(stats.period_label, "Today");
    let expected_cost = 100 * 1_500 + 100 * 7_500 + 100 * 300 + 100 * 1_500 + 101 * 25 + 101 * 125 + 30 + 3;
    assert_eq!(stats.total_cost, expected_cost as u128);
}

#[test]
fn aggregate_equal_costs_keep_first_seen() {
    let es = vec![
        ev(T, "model-b", "s", usage(10, 0, 0, 0)),
        ev(T, "model-a", "s", usage(10, 0, 0, 0)),
    ];
    let stats = aggregate(&es, "x");
    assert_eq!(stats.models[0].model, "model-b");
    assert_eq!(stats.models[1].model, "model-a");
    assert_eq!(stats.session_count, 1);
}

#[test]
fn aggregate_empty() {
    let stats = aggregate(&Vec::new(), "Empty");
    assert!(stats.models.is_empty());
    assert_eq!(stats.total_tokens, 0);
    assert_eq!(stats.total_cost, 0);
    assert_eq!(stats.session_count, 0);
}

#[test]
fn select_periods() {
    // Wednesday 2024-05-15 as today.
    let today = date(738_991, 2, 2024, 5);
    let es = vec![
        ev(1, "m", "s", usage(1, 0, 0, 0)),
        ev(2, "m", "s", usage(2, 0, 0, 0)),
        ev(3, "m", "s", usage(3, 0, 0, 0)),
        ev(4, "m", "s", usage(4, 0, 0, 0)),
    ];
    let dates = vec![
        date(738_991, 2, 2024, 5),
        date(738_989, 0, 2024, 5),
        date(738_988, 6, 2024, 5),
        date(738_960, 2, 2024, 4),
    ];
    let pick = |p| -> Vec<u64> {
        select_in_period(&es, &dates, today, p).iter().map(|e| e.usage.input_tokens).collect()
    };
    assert_eq!(pick(Period::Today), vec![1]);
    assert_eq!(pick(Period::Week), vec![1, 2]);
    assert_eq!(pick(Period::Month), vec![1, 2, 3]);
}

#[test]
fn dashboard_assembles_everything() {
    let es = vec![
        ev(T, "model-sonnet", "s1", usage(0, 1_080_000, 0, 0)),
        ev(T + 60_000, "model-sonnet", "s2", usage(0, 1, 0, 0)),
    ];
    let today = date(738_839, 1, 2023, 11);
    let dates = vec![today, date(738_838, 0, 2023, 11)];
    let d = dashboard_at(&es, 7, T + 60_000, today, &dates);
    assert_eq!(d.selected_plan.name, "Max20");
    assert_eq!(d.today.total_calls, 1);
    assert_eq!(d.week.total_calls, 2);
    assert_eq!(d.month.period_label, "This Month");
    assert_eq!(d.current_block.limit_tokens, 1_080_001);
    assert_eq!(d.model_distribution.len(), 1);
    let pro = dashboard_at(&es, 0, T + 60_000, today, &dates);
    assert_eq!(pro.selected_plan.name, "Pro");
    assert!(pro.warnings.contains(&"🚨 RATE LIMITED - Wait for reset!".to_string()));
    assert!(pro.warnings.contains(&"⚠️ Cost limit nearly exhausted (90%+)".to_string()));
}

#[test]
fn view_state_cycles() {
    let mut v = ViewState::new();
    v.prev_period();
    assert_eq!(v.selected_period, 3);
    v.next_period();
    assert_eq!(v.selected_period, 0);
    v.next_period();
    assert_eq!(v.selected_period, 1);
    v.next_plan(3);
    v.next_plan(3);
    assert_eq!(v.selected_plan, 2);
    v.next_plan(3);
    assert_eq!(v.selected_plan, 0);
}
