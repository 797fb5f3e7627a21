use claude_dashboard::analyzer::get_current_block_info_at;
use claude_dashboard::blocks::{create_blocks_at, find_current_block, round_to_hour, HOUR_MS, WINDOW_MS};
use claude_dashboard::dashboard::{usage_warnings, WARNING_PERCENT};
use claude_dashboard::distribution::{get_model_distribution_at, tier_distribution};
use claude_dashboard::models::{get_plans, CurrentBlockInfo, Entry, PlanLimits, Usage};

/// 2023-11-14T22:13:20Z.
const T: i64 = 1_700_000_000_000;
/// 2023-11-14T22:00:00Z.
const T_HOUR: i64 = 1_699_999_200_000;
const MINUTE: i64 = 60_000;

fn ev(ts: i64, model: &str, session: &str, input: u64, output: u64, create: u64, read: u64) -> Entry {
    Entry {
        timestamp: ts,
        session_id: session.to_string(),
        model: model.to_string(),
        usage: Usage {
            input_tokens: input,
            output_tokens: output,
            cache_creation_input_tokens: create,
            cache_read_input_tokens: read,
        },
    }
}

fn plan(tokens: u64, cost: u64, messages: u64) -> PlanLimits {
    PlanLimits { name: "Test".to_string(), token_limit: tokens, cost_limit: cost, message_limit: messages }
}

#[test]
fn hour_rounding() {
    assert_eq!(round_to_hour(T), T_HOUR);
    assert_eq!(round_to_hour(T_HOUR), T_HOUR);
    assert_eq!(round_to_hour(0), 0);
    assert_eq!(round_to_hour(-1), -HOUR_MS);
}

#[test]
fn empty_input_gives_no_blocks() {
    let blocks = create_blocks_at(&Vec::new(), T);
    assert!(blocks.is_empty());
    assert!(find_current_block(&blocks).is_none());
}

#[test]
fn single_event_single_block() {
    let es = vec![ev(T, "model-sonnet", "a", 10, 20, 0, 0)];
    let blocks = create_blocks_at(&es, T + MINUTE);
    assert_eq!(blocks.len(), 1);
    assert_eq!(blocks[0].start_time, T_HOUR);
    assert_eq!(blocks[0].end_time, T_HOUR + WINDOW_MS);
    assert_eq!(blocks[0].entries.len(), 1);
    assert!(blocks[0].is_active);
    assert_eq!(blocks[0].stats.total_calls, 1);
    assert_eq!(blocks[0].stats.total_tokens, 30);
    assert_eq!(blocks[0].stats.period_label, "Block");
}

#[test]
fn six_hour_gap_gives_two_blocks() {
    let es = vec![
        ev(T, "model-sonnet", "a", 1, 1, 0, 0),
        ev(T + 6 * HOUR_MS, "model-sonnet", "a", 1, 1, 0, 0),
    ];
    let blocks = create_blocks_at(&es, T + 6 * HOUR_MS);
    assert_eq!(blocks.len(), 2);
    assert!(blocks[0].end_time <= blocks[1].start_time);
    assert!(!blocks[0].is_active);
    assert!(blocks[1].is_active);
}

#[test]
fn event_past_block_end_opens_new_block() {
    // 22:13, 02:13 (still in 22:00-03:00), 03:05 (past the end).
    let es = vec![
        ev(T, "m", "a", 1, 0, 0, 0),
        ev(T + 4 * HOUR_MS, "m", "a", 1, 0, 0, 0),
        ev(T + 4 * HOUR_MS + 52 * MINUTE, "m", "a", 1, 0, 0, 0),
    ];
    let blocks = create_blocks_at(&es, T);
    assert_eq!(blocks.len(), 2);
    assert_eq!(blocks[0].entries.len(), 2);
    assert_eq!(blocks[1].start_time, T_HOUR + WINDOW_MS);
    assert_eq!(blocks[1].entries.len(), 1);
}

#[test]
fn blocks_partition_events_in_order() {
    let es = vec![
        ev(T, "m", "a", 1, 0, 0, 0),
        ev(T + 10 * MINUTE, "m", "a", 2, 0, 0, 0),
        ev(T + 7 * HOUR_MS, "m", "a", 3, 0, 0, 0),
        ev(T + 8 * HOUR_MS, "m", "a", 4, 0, 0, 0),
        ev(T + 20 * HOUR_MS, "m", "a", 5, 0, 0, 0),
    ];
    let now = T + 8 * HOUR_MS;
    let blocks = create_blocks_at(&es, now);
    let flat: Vec<u64> = blocks.iter().flat_map(|b| b.entries.iter().map(|e| e.usage.input_tokens)).collect();
    assert_eq!(flat, vec![1, 2, 3, 4, 5]);
    for w in blocks.windows(2) {
        assert!(w[0].end_time <= w[1].start_time);
    }
    assert_eq!(blocks.iter().filter(|b| b.is_active).count(), 1);
}

#[test]
fn no_active_block_gives_empty_info() {
    let es = vec![ev(T, "model-sonnet", "a", 100, 100, 0, 0)];
    let info = get_current_block_info_at(&es, &plan(1000, 1000, 10), T + 6 * HOUR_MS);
    assert_eq!(info, CurrentBlockInfo::empty());
    assert!(!info.is_active);
}

#[test]
fn burn_rate_over_ten_minutes() {
    let es = vec![
        ev(T, "model-sonnet", "a", 0, 0, 0, 5),
        ev(T + 10 * MINUTE, "model-sonnet", "a", 0, 600, 0, 0),
    ];
    let now = T + 10 * MINUTE;
    let info = get_current_block_info_at(&es, &plan(19_000, 0, 0), now);
    assert_eq!(info.active_millis, 600_000);
    // 60.0 tokens per minute, in thousandths.
    assert_eq!(info.tokens_per_min, 60_000);
    assert_eq!(info.limit_tokens, 600);
    assert_eq!(info.limit_messages, 2);
}

#[test]
fn single_event_rate_over_one_minute() {
    let es = vec![ev(T, "model-sonnet", "a", 0, 600, 0, 0)];
    let info = get_current_block_info_at(&es, &plan(19_000, 0, 0), T);
    assert_eq!(info.active_millis, 60_000);
    assert_eq!(info.tokens_per_min, 600_000);
}

#[test]
fn close_events_rate_over_one_minute() {
    let es = vec![
        ev(T, "model-sonnet", "a", 0, 100, 0, 0),
        ev(T + 20_000, "model-sonnet", "a", 0, 100, 0, 0),
    ];
    let info = get_current_block_info_at(&es, &plan(19_000, 0, 0), T + 20_000);
    assert_eq!(info.active_millis, 60_000);
    assert_eq!(info.tokens_per_min, 200_000);
}

#[test]
fn limit_and_real_accounting() {
    let es = vec![
        ev(T, "model-sonnet", "a", 1_000, 2_000, 3_000, 4_000),
        ev(T + MINUTE, "model-3-opus", "b", 10, 20, 30, 40),
    ];
    let info = get_current_block_info_at(&es, &plan(19_000, 1_800_000_000, 250), T + MINUTE);
    assert_eq!(info.limit_tokens, 2_020);
    assert_eq!(info.real_tokens, 10_100);
    let sonnet_limit = 1_000 * 300 + 2_000 * 1_500 + 3_000 * 375;
    let opus_limit = 10 * 1_500 + 20 * 7_500 + 30 * 1_875;
    assert_eq!(info.limit_cost, (sonnet_limit + opus_limit) as u128);
    assert_eq!(info.real_cost, (sonnet_limit + opus_limit + 4_000 * 30 + 40 * 150) as u128);
    assert_eq!(info.block_start, Some(T_HOUR));
    assert_eq!(info.reset_time, Some(T_HOUR + WINDOW_MS));
    assert_eq!(info.secs_until_reset, (T_HOUR + WINDOW_MS - T - MINUTE) / 1000);
    assert_eq!(info.messages_percent, 2 * 10_000 / 250);
    assert!(info.is_active);
}

#[test]
fn cost_at_ninety_percent_warns() {
    // 1,080,000 Sonnet output tokens cost $16.20; the limit is $18.
    let es = vec![ev(T, "model-sonnet", "a", 0, 1_080_000, 0, 0)];
    let info = get_current_block_info_at(&es, &plan(0, 1_800_000_000, 0), T);
    assert_eq!(info.limit_cost, 1_620_000_000);
    assert_eq!(info.cost_percent, 9_000);
    assert!(info.cost_percent >= WARNING_PERCENT);
    let w = usage_warnings(&info);
    assert_eq!(w, vec!["⚠️ Cost limit nearly exhausted (90%+)".to_string()]);
}

#[test]
fn cost_at_limit_is_rate_limited() {
    let es = vec![ev(T, "model-sonnet", "a", 0, 1_200_000, 0, 0)];
    let info = get_current_block_info_at(&es, &plan(0, 1_800_000_000, 0), T);
    assert_eq!(info.cost_percent, 10_000);
    let w = usage_warnings(&info);
    assert!(w.contains(&"⚠️ Cost limit nearly exhausted (90%+)".to_string()));
    assert!(w.contains(&"🚨 RATE LIMITED - Wait for reset!".to_string()));
    assert_eq!(info.cost_exhausted_at, Some(T));
}

#[test]
fn below_ninety_percent_no_warning() {
    let es = vec![ev(T, "model-sonnet", "a", 0, 1_000_000, 0, 0)];
    let info = get_current_block_info_at(&es, &plan(0, 1_800_000_000, 0), T);
    assert_eq!(info.cost_percent, 8_333);
    assert!(usage_warnings(&info).is_empty());
}

#[test]
fn token_and_message_warnings() {
    let mut es = Vec::new();
    for k in 0..9 {
        es.push(ev(T + k * MINUTE, "model-sonnet", "a", 0, 2_000, 0, 0));
    }
    let info = get_current_block_info_at(&es, &plan(19_000, 0, 10), T + 8 * MINUTE);
    assert_eq!(info.tokens_percent, 18_000 * 10_000 / 19_000);
    assert_eq!(info.messages_percent, 9_000);
    let w = usage_warnings(&info);
    assert_eq!(
        w,
        vec![
            "⚠️ Token limit nearly exhausted (90%+)".to_string(),
            "⚠️ Message limit nearly exhausted (90%+)".to_string(),
        ]
    );
}

#[test]
fn zero_limits_give_zero_percentages() {
    let es = vec![ev(T, "model-sonnet", "a", 5, 5, 5, 5)];
    let info = get_current_block_info_at(&es, &plan(0, 0, 0), T);
    assert_eq!(info.cost_percent, 0);
    assert_eq!(info.tokens_percent, 0);
    assert_eq!(info.messages_percent, 0);
    assert_eq!(info.tokens_exhausted_at, Some(T));
    assert_eq!(info.cost_exhausted_at, Some(T));
}

#[test]
fn exhaustion_predictions() {
    // 1,900 output tokens over 10 minutes against 19,000: 17,100 remain,
    // 90 more minutes at that rate.
    let es = vec![
        ev(T, "model-sonnet", "a", 0, 900, 0, 0),
        ev(T + 10 * MINUTE, "model-sonnet", "a", 0, 1_000, 0, 0),
    ];
    let now = T + 10 * MINUTE;
    let info = get_current_block_info_at(&es, &plan(19_000, 1_800_000_000, 0), now);
    assert_eq!(info.tokens_exhausted_at, Some(now + 90 * MINUTE));
    let cost = 1_900u128 * 1_500;
    let expected = now as i128 + ((1_800_000_000u128 - cost) * 600_000 / cost) as i128;
    assert_eq!(info.cost_exhausted_at, Some(expected as i64));
}

#[test]
fn nothing_used_gives_no_prediction() {
    let es = vec![ev(T, "model-sonnet", "a", 0, 0, 0, 10)];
    let info = get_current_block_info_at(&es, &plan(19_000, 1_800_000_000, 0), T);
    assert_eq!(info.limit_tokens, 0);
    assert_eq!(info.tokens_exhausted_at, None);
    assert_eq!(info.cost_exhausted_at, None);
}

#[test]
fn analysis_is_repeatable() {
    let es = vec![
        ev(T, "model-sonnet", "a", 10, 300, 0, 7),
        ev(T + 3 * MINUTE, "model-3-opus", "b", 5, 50, 2, 1),
    ];
    let p = plan(19_000, 1_800_000_000, 250);
    let a = get_current_block_info_at(&es, &p, T + 4 * MINUTE);
    let b = get_current_block_info_at(&es, &p, T + 4 * MINUTE);
    assert_eq!(a, b);
}

#[test]
fn shipped_plans() {
    let plans = get_plans();
    assert_eq!(plans.len(), 3);
    assert_eq!(plans[0].name, "Pro");
    assert_eq!(plans[0].cost_limit, 1_800_000_000);
    assert_eq!(plans[1].name, "Max5");
    assert_eq!(plans[1].token_limit, 88_000);
    assert_eq!(plans[2].name, "Max20");
    assert_eq!(plans[2].message_limit, 2_000);
}

#[test]
fn tier_shares_of_active_block() {
    let es = vec![
        ev(T, "model-sonnet", "a", 0, 1_000, 0, 0),
        ev(T + MINUTE, "model-3-opus", "a", 0, 1_000, 0, 0),
        ev(T + 2 * MINUTE, "model-sonnet-4", "a", 0, 1_000, 0, 99),
    ];
    let d = get_model_distribution_at(&es, T + 2 * MINUTE);
    assert_eq!(d.len(), 2);
    assert_eq!(d[0].tier, "Opus");
    assert_eq!(d[0].model, "Opus");
    assert_eq!(d[0].calls, 1);
    assert_eq!(d[0].cost, 7_500_000);
    assert_eq!(d[0].percent, 7_500_000 * 10_000 / 10_500_000);
    assert_eq!(d[1].tier, "Sonnet");
    assert_eq!(d[1].calls, 2);
    assert_eq!(d[1].tokens, 2_000);
    assert_eq!(d[1].cost, 3_000_000);
    assert!(get_model_distribution_at(&es, T + 9 * HOUR_MS).is_empty());
}

#[test]
fn tier_shares_tie_keeps_first_seen() {
    let es = vec![
        ev(T, "model-3-haiku", "a", 0, 0, 0, 1),
        ev(T, "model-sonnet", "a", 0, 0, 0, 1),
    ];
    let d = tier_distribution(&es);
    assert_eq!(d.len(), 2);
    assert_eq!(d[0].tier, "Haiku");
    assert_eq!(d[1].tier, "Sonnet");
    assert_eq!(d[0].percent, 0);
}

#[test]
fn hour_rounding_at_range_edges() {
    let low = i64::MIN + HOUR_MS;
    assert_eq!(round_to_hour(low) % HOUR_MS, 0);
    assert!(round_to_hour(low) <= low && low - round_to_hour(low) < HOUR_MS);
    let high = i64::MAX - WINDOW_MS;
    assert_eq!(round_to_hour(high) % HOUR_MS, 0);
    assert!(round_to_hour(high) <= high && high - round_to_hour(high) < HOUR_MS);
}

#[test]
fn unsorted_stream_can_hold_two_active_blocks() {
    // 10:00, 16:00, 09:00 (joins the 16:00 block), 14:30 (5.5 h after 09:00).
    let base = T_HOUR - 22 * HOUR_MS;
    let es = vec![
        ev(base + 10 * HOUR_MS, "m", "a", 1, 0, 0, 0),
        ev(base + 16 * HOUR_MS, "m", "a", 1, 0, 0, 0),
        ev(base + 9 * HOUR_MS, "m", "a", 1, 0, 0, 0),
        ev(base + 14 * HOUR_MS + 30 * MINUTE, "m", "a", 1, 0, 0, 0),
    ];
    let blocks = create_blocks_at(&es, base + 16 * HOUR_MS + 30 * MINUTE);
    assert_eq!(blocks.len(), 3);
    assert_eq!(blocks.iter().filter(|b| b.is_active).count(), 2);
    assert_eq!(find_current_block(&blocks).unwrap().start_time, base + 16 * HOUR_MS);
}

#[test]
fn messages_at_limit_are_rate_limited() {
    // 250 small calls against the Pro plan: messages at 100%, cost and
    // tokens far below 90%.
    let mut es = Vec::new();
    for k in 0..250 {
        es.push(ev(T + k * 1_000, "model-sonnet", "a", 1, 1, 0, 0));
    }
    let pro = &get_plans()[0];
    let info = get_current_block_info_at(&es, pro, T + 250_000);
    assert_eq!(info.messages_percent, 10_000);
    assert!(info.cost_percent < WARNING_PERCENT);
    assert!(info.tokens_percent < WARNING_PERCENT);
    assert_eq!(
        usage_warnings(&info),
        vec![
            "⚠️ Message limit nearly exhausted (90%+)".to_string(),
            "🚨 RATE LIMITED - Wait for reset!".to_string(),
        ]
    );
}
