//! Host metrics core: a time-bounded snapshot cache, rolling metric history
//! with statistics, anomaly flags and trend forecasts, and the small text
//! helpers used to present those values.

pub mod text;
pub mod stats;
pub mod trend;
pub mod history;
pub mod metrics;
pub mod error;
pub mod info;
pub mod collector;
pub mod batch;
pub mod utils;
pub mod ui;
pub mod config;
