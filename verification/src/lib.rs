//! Timecode synchronization engine: tracks decoded LTC frames against the
//! host's wall clock, estimates drift and jitter, classifies sync quality,
//! computes correction targets, and debounces the decision to correct.

pub mod arith;
pub(crate) mod clock;
pub mod config;
pub mod controller;
pub mod serial_input;
pub mod sync_logic;
pub mod system;

