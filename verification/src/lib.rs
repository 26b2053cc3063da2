//! Usage aggregation for per-session assistant logs: identifiers, tiered
//! pricing, deduplication, and the construction of five-hour session blocks.

pub mod burn_rate;
pub mod constants;
pub mod cost;
pub mod dedup;
pub mod dedup_laws;
pub mod formatting;
pub mod ids;
pub mod loader;
pub mod ordering;
pub mod pricing;
pub mod remaining_time;
pub mod session;
pub mod session_blocks;
pub mod session_laws;
pub mod shared;
pub mod snapshot;
pub mod text;
pub mod time;
pub mod usage;
