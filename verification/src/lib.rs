//! Core of a cryptocurrency price monitor: a local reference-data store,
//! a caching client that hydrates the store from a remote provider at most
//! once per process, and a trigger monitor that evaluates stored price
//! alerts against live prices.
//!
//! All network and file traffic stays with the surrounding program; the
//! functions here work on plain values and carry verified contracts.

pub mod domain;
pub mod store;
pub mod client;
pub mod monitor;
pub mod settings;
pub mod styling;
pub mod period;
