//! The tap-hold-next-release operator of an input remapper, verified with Verus.
//!
//! A trigger key acts as one key when tapped and as another when held; the
//! decision is taken by which key is released first, or by a timeout.

mod clock;
pub mod config;
pub mod event;
pub mod laws;
pub mod operator;
