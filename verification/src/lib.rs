//! Functional Reactive Programming library.
//!
//! Signals are values that change over time; they are built from constants, from
//! closures that read the outside world, and from other signals by mapping, folding
//! and switching. Every operation states in its contract which values a signal can
//! produce when it is sampled.
pub mod futures;
pub mod helpers;
pub mod sync;
pub mod types;
pub mod signal;
pub mod sources;
pub mod stream;

pub use crate::signal::Signal;
