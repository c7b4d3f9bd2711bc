//! The decisions of a thermostat bridge: which configuration is accepted, how
//! commands and retained state change a thermostat, when an actuator is
//! switched and which sensors are subscribed. Reading files, talking to the
//! broker and floating-point control arithmetic happen around this crate.

pub mod bridge;
pub mod config;
pub mod instant;
pub mod json;
pub mod laws;
pub mod quantity;
pub mod runtime;
pub mod table;
pub mod text;
