//! A personal screen-time tracker: per-day usage totals, a sleep/wake
//! window, and the decisions taken on them.

pub mod text;
pub mod usage;
pub mod store;
pub mod clock;
pub mod config;
