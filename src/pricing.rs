//! Model tiers and their per-token prices.
use vstd::prelude::*;

verus! {

/// Pricing/display class of a model identifier.
#[derive(Clone, Copy, Debug, PartialEq, Eq, Structural)]
pub enum Tier {
    Opus,
    Sonnet,
    Haiku,
}

/// Prices of the four token categories, in cost units per token.
///
/// A cost unit is 10^-8 dollars, so a price in cost units per token is the
/// same number as a price in cents per million tokens.
#[derive(Clone, Copy, Debug, PartialEq, Eq, Structural)]
pub struct Pricing {
    pub input: u64,
    pub output: u64,
    pub cache_create: u64,
    pub cache_read: u64,
}

/// Cost units in one dollar.
pub const COST_UNITS_PER_DOLLAR: u64 = 100_000_000;

/// Largest price of any tier, in cost units per token.
pub const MAX_PRICE: u64 = 7500;

/// What `str::to_lowercase` returns for a string.
pub uninterp spec fn lower_of(s: Seq<char>) -> Seq<char>;

/// `pat` occurs in `s` as a run of consecutive characters.
pub open spec fn has_infix(s: Seq<char>, pat: Seq<char>) -> bool {
    exists|i: int| 0 <= i <= s.len() - pat.len() && #[trigger] s.subrange(i, i + pat.len()) == pat
}

/// Tier of an already lowercased model name: "opus" wins over "haiku",
/// everything else is Sonnet.
pub open spec fn tier_of_lower(lower: Seq<char>) -> Tier {
    if has_infix(lower, "opus"@) {
        Tier::Opus
    } else if has_infix(lower, "haiku"@) {
        Tier::Haiku
    } else {
        Tier::Sonnet
    }
}

/// Tier of a model name, compared case-insensitively.
pub open spec fn tier_of(model: Seq<char>) -> Tier {
    tier_of_lower(lower_of(model))
}

/// The price table, per tier.
pub open spec fn price_spec(tier: Tier) -> Pricing {
    match tier {
        Tier::Opus => Pricing { input: 1500, output: 7500, cache_create: 1875, cache_read: 150 },
        Tier::Sonnet => Pricing { input: 300, output: 1500, cache_create: 375, cache_read: 30 },
        Tier::Haiku => Pricing { input: 25, output: 125, cache_create: 30, cache_read: 3 },
    }
}

/// Display name of a tier.
pub open spec fn tier_name(tier: Tier) -> Seq<char> {
    match tier {
        Tier::Opus => "Opus"@,
        Tier::Sonnet => "Sonnet"@,
        Tier::Haiku => "Haiku"@,
    }
}

/// Display color name of a tier.
pub open spec fn tier_color(tier: Tier) -> Seq<char> {
    match tier {
        Tier::Opus => "magenta"@,
        Tier::Sonnet => "cyan"@,
        Tier::Haiku => "green"@,
    }
}

/// Relies on `str::to_lowercase`: its result depends on the characters of
/// the input alone.
#[verifier::external_body]
fn lowercase(s: &str) -> (r: String)
    ensures
        r@ == lower_of(s@),
{
    s.to_lowercase()
}

/// Relies on `str::contains` with a `&str` pattern: true exactly when the
/// pattern occurs in the string as consecutive characters.
#[verifier::external_body]
fn contains_str(s: &str, pat: &str) -> (r: bool)
    ensures
        r == has_infix(s@, pat@),
{
    s.contains(pat)
}

/// Classifies a name that is already lowercase.
pub fn tier_from_lowercase(lower: &str) -> (t: Tier)
    ensures
        t == tier_of_lower(lower@),
{
    if contains_str(lower, "opus") {
        Tier::Opus
    } else if contains_str(lower, "haiku") {
        Tier::Haiku
    } else {
        Tier::Sonnet
    }
}

/// Classifies a model name: contains "opus" (any case) gives Opus, else
/// "haiku" gives Haiku, else Sonnet.
pub fn classify(model: &str) -> (t: Tier)
    ensures
        t == tier_of(model@),
{
    let lower = lowercase(model);
    tier_from_lowercase(lower.as_str())
}

/// The fixed price table of a tier.
pub fn price_of(tier: Tier) -> (p: Pricing)
    ensures
        p == price_spec(tier),
        p.input <= MAX_PRICE && p.output <= MAX_PRICE,
        p.cache_create <= MAX_PRICE && p.cache_read <= MAX_PRICE,
{
    match tier {
        Tier::Opus => Pricing { input: 1500, output: 7500, cache_create: 1875, cache_read: 150 },
        Tier::Sonnet => Pricing { input: 300, output: 1500, cache_create: 375, cache_read: 30 },
        Tier::Haiku => Pricing { input: 25, output: 125, cache_create: 30, cache_read: 3 },
    }
}

/// Prices for a model name.
pub fn get_pricing(model: &str) -> (p: Pricing)
    ensures
        p == price_spec(tier_of(model@)),
{
    price_of(classify(model))
}

/// Display name of a tier.
pub fn name_of(tier: Tier) -> (r: &'static str)
    ensures
        r@ == tier_name(tier),
{
    match tier {
        Tier::Opus => "Opus",
        Tier::Sonnet => "Sonnet",
        Tier::Haiku => "Haiku",
    }
}

/// Display name of the tier of a model.
pub fn get_tier(model: &str) -> (r: &'static str)
    ensures
        r@ == tier_name(tier_of(model@)),
{
    name_of(classify(model))
}

/// Display color name of the tier of a model.
pub fn get_tier_color(model: &str) -> (r: &'static str)
    ensures
        r@ == tier_color(tier_of(model@)),
{
    match classify(model) {
        Tier::Opus => "magenta",
        Tier::Sonnet => "cyan",
        Tier::Haiku => "green",
    }
}

} // verus!
