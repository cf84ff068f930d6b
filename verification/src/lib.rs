//! Core of a host-monitoring agent.
//!
//! The crate turns raw, multi-source hardware telemetry into one consistent
//! snapshot and runs a stateful alerting protocol over it: unit
//! normalization, loose numeric parsing, probe-output parsing, merge rules
//! with source precedence, network rate derivation, and the hysteresis /
//! cooldown alert state machines.
//!
//! Fractional quantities (temperatures, percentages, sensor values) are
//! carried as integers in hundredths of their unit ("centi" values), so a
//! temperature of 47.25 degrees Celsius is the integer 4725.

pub mod alerts;
pub mod botauth;
pub mod checks;
pub mod config;
pub mod merge;
pub mod normalize;
pub mod numeric;
pub mod probes;
pub mod sensors;
pub mod state;
pub mod stats;
pub mod system;
pub mod text;
