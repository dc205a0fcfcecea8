//! Browser-integration utilities with a verified core.
//!
//! The centre of the crate is the scroll progress tracker (the
//! "storyteller"): it turns raw scroll measurements into a normalized,
//! clamped progress value, rate-limits scroll and resize events, and offers
//! declarative range-based triggers on top of a single subscriber list.
//! All measurements are integer pixel counts and all derived values are
//! exact fractions, so every rule of the engine is stated and proved here.
//! The host glue (DOM listeners, clocks, HTTP) lives outside this crate and
//! feeds the engine plain values.

pub mod cookies;
pub mod date;
pub mod frac;
pub mod net;
pub mod progress;
pub mod storyteller;
pub mod str_toggle;
pub mod uid;
