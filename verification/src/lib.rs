//! Verified core of a speech-clip pipeline: it turns a silence detector's
//! diagnostic stream into speech clips, and plans an extract/concatenate
//! export with guaranteed cleanup of temporary artifacts.
//!
//! Times are integer milliseconds throughout. The external transcoding
//! tool itself is an outside collaborator: this crate derives the
//! argument lists handed to it and consumes its textual output, and an
//! unverified shell around the crate performs the actual invocations.
use vstd::prelude::*;

pub mod analyze;
pub mod clip;
pub mod error;
pub mod export;
pub mod parse;
pub mod text;

verus! {

/// Largest time value, in milliseconds, that the timestamp parser will
/// produce; offsets and durations handed to the analyzer must stay
/// within it.
pub const TIME_MAX_MS: i64 = 1_000_000_000_000_000;

} // verus!
