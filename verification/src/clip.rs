//! The shared data model: silence periods reported by the detector and
//! speech clips, with their validity predicates and the fixed policy
//! constants of the analyzer.
use vstd::prelude::*;
use crate::TIME_MAX_MS;

verus! {

/// Trailing padding, in milliseconds, granted to a speech clip that is
/// immediately followed by a detected silence.
pub const END_PAD_MS: i64 = 300;

/// Minimum clip length in milliseconds; shorter candidates are discarded.
pub const MIN_CLIP_MS: i64 = 1000;

/// Largest end time a clip can carry after offset adjustment and padding.
pub const CLIP_TIME_MAX_MS: i64 = 3_000_000_000_000_000;

/// One silence interval reported by the detector: the absolute time at
/// which the silence ends and how long it lasted, both in milliseconds.
#[derive(Clone, Copy, Debug, PartialEq, Eq, Structural)]
pub struct SilencePeriod {
    pub end_ms: i64,
    pub dur_ms: i64,
}

/// A silence period as the parser emits it: the end time carries the
/// analysis offset, the duration is positive and parser-bounded.
pub open spec fn valid_period(p: SilencePeriod) -> bool {
    &&& 0 <= p.end_ms <= 2 * (TIME_MAX_MS as int)
    &&& 0 < p.dur_ms < TIME_MAX_MS
}

/// Where the silence began: its end minus its duration. May be negative
/// when the detector's clock disagrees with the probe; it is used as
/// reported, without correction.
pub open spec fn period_start(p: SilencePeriod) -> int {
    p.end_ms - p.dur_ms
}

/// A candidate or confirmed speech segment of `source`, in milliseconds.
#[derive(Clone, Debug)]
pub struct Clip {
    pub source: String,
    pub start_ms: i64,
    pub end_ms: i64,
}

/// Every clip the library emits or consumes starts at or after zero,
/// ends after it starts, and stays within the representable time range.
pub open spec fn valid_clip(c: Clip) -> bool {
    0 <= c.start_ms && c.start_ms < c.end_ms && c.end_ms <= CLIP_TIME_MAX_MS
}

impl Clip {
    pub fn new(source: String, start_ms: i64, end_ms: i64) -> (r: Clip)
        requires
            0 <= start_ms < end_ms <= CLIP_TIME_MAX_MS,
        ensures
            r.source@ == source@,
            r.start_ms == start_ms,
            r.end_ms == end_ms,
            valid_clip(r),
    {
        Clip { source, start_ms, end_ms }
    }

    /// Milliseconds between start and end.
    pub fn duration_ms(&self) -> (r: i64)
        requires
            valid_clip(*self),
        ensures
            r == self.end_ms - self.start_ms,
    {
        self.end_ms - self.start_ms
    }
}

} // verus!
