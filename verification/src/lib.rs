//! Republishes a daemon's IPsec/IKE runtime state as bounded, correctly
//! labeled timeseries. The library owns the state-to-metric lifecycle:
//! assembling one poll's snapshot, projecting stable identity labels,
//! updating and evicting exported series, and the poll schedule. Transport
//! and text exposition live outside the library.

pub mod errors;
pub mod vici;
pub mod metrics;
pub mod poll;
pub mod config;
