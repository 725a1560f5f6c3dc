//! Points in time and lengths of time, as exact integers.

use vstd::prelude::*;

verus! {

/// A point on the UTC timeline: whole seconds since the Unix epoch and a
/// nanosecond part on top of them.
///
/// Its view is the number of nanoseconds since the epoch. Instants are
/// ordered by their views.
#[derive(Clone, Copy, Debug, PartialEq, Eq, Structural)]
pub struct Instant {
    pub seconds: i64,
    pub nanos: u32,
}

impl View for Instant {
    type V = int;

    open spec fn view(&self) -> int {
        self.seconds * 1_000_000_000 + self.nanos
    }
}

/// A signed length of time: whole seconds and a nanosecond part on top of
/// them. Its view is the length in nanoseconds.
#[derive(Clone, Copy, Debug, PartialEq, Eq, Structural)]
pub struct Span {
    pub seconds: i64,
    pub nanos: u32,
}

impl View for Span {
    type V = int;

    open spec fn view(&self) -> int {
        self.seconds * 1_000_000_000 + self.nanos
    }
}

impl Instant {
    pub fn new(seconds: i64, nanos: u32) -> (at: Instant)
        ensures
            at.seconds == seconds,
            at.nanos == nanos,
            at@ == seconds * 1_000_000_000 + nanos,
    {
        Instant { seconds, nanos }
    }

    /// Nanoseconds since the epoch.
    pub fn since_epoch(&self) -> (n: i128)
        ensures
            n == self@,
    {
        let whole: i128 = self.seconds as i128;
        let part: i128 = self.nanos as i128;
        whole * 1_000_000_000 + part
    }

    /// Whether this instant is not later than `other`.
    pub fn is_at_or_before(&self, other: &Instant) -> (b: bool)
        ensures
            b == (self@ <= other@),
    {
        self.since_epoch() <= other.since_epoch()
    }

    /// Whether this instant is strictly later than `other`.
    pub fn is_after(&self, other: &Instant) -> (b: bool)
        ensures
            b == (self@ > other@),
    {
        self.since_epoch() > other.since_epoch()
    }

    /// Whether this instant is not later than `from` moved by `window`.
    pub fn is_within(&self, from: &Instant, window: &Span) -> (b: bool)
        ensures
            b == (self@ <= from@ + window@),
    {
        self.since_epoch() <= from.since_epoch() + window.length()
    }
}

impl Span {
    pub fn new(seconds: i64, nanos: u32) -> (span: Span)
        ensures
            span.seconds == seconds,
            span.nanos == nanos,
            span@ == seconds * 1_000_000_000 + nanos,
    {
        Span { seconds, nanos }
    }

    /// The span of `minutes` whole minutes.
    pub fn from_minutes(minutes: u32) -> (span: Span)
        ensures
            span@ == minutes * 60 * 1_000_000_000,
    {
        let whole: i64 = minutes as i64;
        Span { seconds: whole * 60, nanos: 0 }
    }

    /// Length in nanoseconds.
    pub fn length(&self) -> (n: i128)
        ensures
            n == self@,
    {
        let whole: i128 = self.seconds as i128;
        let part: i128 = self.nanos as i128;
        whole * 1_000_000_000 + part
    }
}

} // verus!
