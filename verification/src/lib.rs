//! Verified core of a terminal-resident process monitor: bounded-cadence
//! CPU sampling, append-only history retention for charting, stable
//! ranking and live filtering of the process table, and the keyboard
//! state machine that drives it — everything the tick loop decides,
//! with the terminal, the metric source and the event queue kept
//! outside as plain-value collaborators.

pub mod app;
pub mod filter;
pub mod history;
pub mod input;
pub mod rank;
pub mod record;
pub mod text;
