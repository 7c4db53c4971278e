//! Availability tracking for a probed network link: a ledger of uptime and
//! downtime periods with derived statistics, a classifier that turns a round
//! of per-host probe outcomes into a single up/down signal, and the display
//! helpers the dashboard needs.

pub mod classify;
pub mod datefmt;
pub mod duration;
pub mod ledger;
pub mod probe;
pub mod ui;
