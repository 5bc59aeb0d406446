//! Community-moderation and giveaway state machines: report-case vote
//! tallies with one-shot side effects, the giveaway lifecycle, the expiry
//! sweep, listing pagination and poll tallies.

pub mod thresholds;
pub mod models;
pub mod report;
pub mod render;
pub mod text;
pub mod giveaway;
pub mod activity;
pub mod pagination;
pub mod poll;
pub mod silenced;
