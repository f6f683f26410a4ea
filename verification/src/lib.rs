//! Verified core of a solar power logger.
//!
//! The library models the acquisition-correlation-storage-query pipeline of
//! the logger: the per-cycle decision logic that turns the outcomes of the
//! inverter and weather fetches into at most one stored row, the append-only
//! time-series store, the windowed aggregate queries that turn cumulative
//! energy counters into per-hour and per-day deltas, and the bounded-buffer
//! JSON array streamer. All telemetry values are carried as fixed-point
//! integers (milli-units); the I/O adapters that talk to the inverter, the
//! weather service and the database convert at the boundary.

pub mod api;
pub mod calendar;
pub mod coordinator;
pub mod db;
pub mod engine;
pub mod inverter;
pub mod laws;
pub mod render;
pub mod responder;
pub mod sun;
pub mod weather;
