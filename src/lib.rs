//! Usage tracking for rate-limited model APIs: pricing, five-hour session
//! blocks, the active-block analyzer and period aggregation, all verified.
//!
//! Units used throughout:
//! - instants are milliseconds since the Unix epoch (UTC), as `i64`;
//! - costs are in cost units of 10^-8 dollars, so that every price of the
//!   table and every cost is an exact integer;
//! - percentages are in hundredths of a percent, rounded down.
pub mod aggregate;
pub mod analyzer;
pub mod blocks;
pub mod calculator;
pub mod clock;
pub mod dashboard;
pub mod distribution;
pub mod models;
pub mod periods;
pub mod pricing;
pub mod ranking;
pub mod sums;
pub mod text;
