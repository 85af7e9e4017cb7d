//! Verified core of a small command-line quiz family: a question set is
//! loaded from a file, and the user is drilled through it in one of several
//! modes (free-text recall, true/false, multiple choice).
//!
//! This crate holds the logic that is worth stating and proving: the data
//! model, the answer matcher, the multiple-choice distractor aggregator, and
//! the quiz session state machine. Console rendering, prompting, pacing and
//! file reading live outside, in thin unverified adapters that hand this
//! library plain values.

pub mod aggregate;
pub mod errors;
pub mod matcher;
pub mod rng;
pub mod session;
pub mod traits;
pub mod types;

