//! Verified core of ScreenHistory: the rules behind syncing macOS Screen Time
//! history into a local database, exporting it, scheduling the sync with
//! launchd, and browsing it week by week.

pub mod cli;
pub mod date;
pub mod export;
pub mod models;
pub mod order;
pub mod paths;
pub mod query;
pub mod schedule;
pub mod text;
pub mod tui;
pub mod viz;
