use claude_dashboard::calculator::{calculate_cost, calculate_entry_cost, calculate_entry_limit_cost, get_limit_tokens};
use claude_dashboard::models::{Entry, ModelStats, Usage};
use claude_dashboard::pricing::{classify, get_pricing, get_tier, get_tier_color, price_of, tier_from_lowercase, Pricing, Tier};
use claude_dashboard::text::{format_cost, format_duration, format_tokens};

fn entry(model: &str, input: u64, output: u64, create: u64, read: u64) -> Entry {
    Entry {
        timestamp: 0,
        session_id: "s".to_string(),
        model: model.to_string(),
        usage: Usage {
            input_tokens: input,
            output_tokens: output,
            cache_creation_input_tokens: create,
            cache_read_input_tokens: read,
        },
    }
}

#[test]
fn classify_known_and_unknown_models() {
    assert_eq!(classify("model-3-opus-20240229"), Tier::Opus);
    assert_eq!(classify("model-3-haiku-x"), Tier::Haiku);
    assert_eq!(classify("model-3-5-sonnet"), Tier::Sonnet);
    assert_eq!(classify("unknown-model"), Tier::Sonnet);
}

#[test]
fn classify_ignores_case() {
    assert_eq!(classify("MODEL-OPUS-4"), Tier::Opus);
    assert_eq!(classify("Model-Haiku"), Tier::Haiku);
}

#[test]
fn opus_wins_over_haiku() {
    assert_eq!(classify("opus-haiku"), Tier::Opus);
    assert_eq!(classify("haiku-opus"), Tier::Opus);
}

#[test]
fn tier_from_lowercase_reads_lowercase_only() {
    assert_eq!(tier_from_lowercase("model-opus"), Tier::Opus);
    assert_eq!(tier_from_lowercase("model-haiku"), Tier::Haiku);
    assert_eq!(tier_from_lowercase("MODEL-OPUS"), Tier::Sonnet);
    assert_eq!(tier_from_lowercase(""), Tier::Sonnet);
}

#[test]
fn tier_names_and_colors() {
    assert_eq!(get_tier("model-3-opus"), "Opus");
    assert_eq!(get_tier("model-3-HAIKU"), "Haiku");
    assert_eq!(get_tier("gpt"), "Sonnet");
    assert_eq!(get_tier_color("model-3-opus"), "magenta");
    assert_eq!(get_tier_color("model-3-haiku"), "green");
    assert_eq!(get_tier_color("model-sonnet-4"), "cyan");
}

#[test]
fn price_table() {
    assert_eq!(price_of(Tier::Opus), Pricing { input: 1500, output: 7500, cache_create: 1875, cache_read: 150 });
    assert_eq!(price_of(Tier::Sonnet), Pricing { input: 300, output: 1500, cache_create: 375, cache_read: 30 });
    assert_eq!(price_of(Tier::Haiku), Pricing { input: 25, output: 125, cache_create: 30, cache_read: 3 });
    assert_eq!(get_pricing("Model-Opus"), price_of(Tier::Opus));
    assert_eq!(get_pricing("whatever"), price_of(Tier::Sonnet));
}

#[test]
fn entry_costs() {
    // One million tokens of each category on Sonnet: $3 + $15 + $3.75 + $0.30.
    let e = entry("model-sonnet-4", 1_000_000, 1_000_000, 1_000_000, 1_000_000);
    assert_eq!(calculate_entry_cost(&e), 2_205_000_000);
    assert_eq!(calculate_entry_limit_cost(&e), 2_175_000_000);
    assert_eq!(get_limit_tokens(&e), 1_000_000);
    let h = entry("model-3-haiku", 0, 0, 0, 1_000_000);
    assert_eq!(calculate_entry_cost(&h), 3_000_000);
    assert_eq!(calculate_entry_limit_cost(&h), 0);
}

#[test]
fn model_stats_cost() {
    let mut m = ModelStats::new("model-opus-4".to_string());
    m.add(&Usage { input_tokens: 1000, output_tokens: 2000, cache_creation_input_tokens: 0, cache_read_input_tokens: 10 });
    assert_eq!(calculate_cost(&m), 1000 * 1500 + 2000 * 7500 + 10 * 150);
}

#[test]
fn tokens_text() {
    assert_eq!(format_tokens(0), "0");
    assert_eq!(format_tokens(999), "999");
    assert_eq!(format_tokens(1_000), "1.0K");
    assert_eq!(format_tokens(1_500), "1.5K");
    assert_eq!(format_tokens(12_345), "12.3K");
    assert_eq!(format_tokens(1_000_000), "1.0M");
    assert_eq!(format_tokens(2_460_000), "2.5M");
}

#[test]
fn cost_text() {
    assert_eq!(format_cost(0), "$0.00");
    assert_eq!(format_cost(1_620_000_000), "$16.2");
    assert_eq!(format_cost(123_456_789), "$1.23");
    assert_eq!(format_cost(5_000_000), "$0.05");
    assert_eq!(format_cost(15_000_000_000), "$150");
    assert_eq!(format_cost(999_999_999), "$10.00");
}

#[test]
fn duration_text() {
    assert_eq!(format_duration(0), "now");
    assert_eq!(format_duration(-5), "now");
    assert_eq!(format_duration(42), "42s");
    assert_eq!(format_duration(125), "2m 05s");
    assert_eq!(format_duration(3_725), "1h 02m");
    assert_eq!(format_duration(18_000), "5h 00m");
}

#[test]
fn largest_values_format() {
    assert_eq!(format_tokens(u64::MAX), "18446744073709.6M");
    assert_eq!(format_cost(u128::MAX), "$3402823669209384634633746074318");
    assert_eq!(format_duration(i64::MAX), "2562047788015215h 30m");
}
