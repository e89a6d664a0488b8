//! Verified core of a Stream Deck plugin that shows usage gauges, a
//! peak-hours clock and token/cost tiles.

pub mod text;
pub mod peak;
pub mod time;
pub mod format;
pub mod pricing;
pub mod source;
pub mod metric;
pub mod tile;
pub mod metric_icon;
pub mod clock_icon;
pub mod action;
pub mod clock_action;
pub mod metric_action;
