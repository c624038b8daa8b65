//! Spans and points of time, counted in clock ticks.
//!
//! The tick rate belongs to `embassy_time`; so do the conversions between ticks and the units
//! people write down. What is said of them here holds at the rate `embassy_time` has by default,
//! one million ticks a second: a build that turns on one of its other `tick-hz` features has to
//! change the two constants below along with it.

use vstd::prelude::*;

verus! {

/// The rate at which `embassy_time` ticks unless a build asks it for another.
pub const TICKS_PER_SEC: u64 = 1_000_000;

pub const TICKS_PER_MILLI: u64 = 1_000;

/// A span of time.
#[derive(Debug, Clone, Copy, PartialEq, Eq, PartialOrd, Ord, Structural)]
pub struct Duration {
    pub ticks: u64,
}

/// A point in time, counted from the start of the clock.
#[derive(Debug, Clone, Copy, PartialEq, Eq, PartialOrd, Ord, Structural)]
pub struct Instant {
    pub ticks: u64,
}

/// The span of `n` seconds.
pub open spec fn secs(n: u64) -> Duration {
    Duration { ticks: (n * TICKS_PER_SEC) as u64 }
}

/// The span of `n` milliseconds.
pub open spec fn millis(n: u64) -> Duration {
    Duration { ticks: (n * TICKS_PER_MILLI) as u64 }
}

/// Calls `embassy_time::Duration::from_secs`, which multiplies by the tick rate and overflows
/// past what the counter can hold.
#[verifier::external_body]
fn secs_to_ticks(secs: u64) -> (ticks: u64)
    requires
        secs * TICKS_PER_SEC <= u64::MAX,
    ensures
        ticks == secs * TICKS_PER_SEC,
{
    embassy_time::Duration::from_secs(secs).as_ticks()
}

/// Calls `embassy_time::Duration::from_millis`, which scales milliseconds to ticks; at this tick
/// rate nothing is left to round.
#[verifier::external_body]
fn millis_to_ticks(millis: u64) -> (ticks: u64)
    requires
        millis * TICKS_PER_MILLI <= u64::MAX,
    ensures
        ticks == millis * TICKS_PER_MILLI,
{
    embassy_time::Duration::from_millis(millis).as_ticks()
}

/// Calls `embassy_time::Duration::as_secs`, which divides by the tick rate and rounds down.
#[verifier::external_body]
fn ticks_to_secs(ticks: u64) -> (secs: u64)
    ensures
        secs == ticks / TICKS_PER_SEC,
{
    embassy_time::Duration::from_ticks(ticks).as_secs()
}

impl Duration {
    pub fn from_secs(secs: u64) -> (span: Duration)
        requires
            secs * TICKS_PER_SEC <= u64::MAX,
        ensures
            span == self::secs(secs),
            span.ticks == secs * TICKS_PER_SEC,
    {
        Duration { ticks: secs_to_ticks(secs) }
    }

    pub fn from_millis(millis: u64) -> (span: Duration)
        requires
            millis * TICKS_PER_MILLI <= u64::MAX,
        ensures
            span == self::millis(millis),
            span.ticks == millis * TICKS_PER_MILLI,
    {
        Duration { ticks: millis_to_ticks(millis) }
    }

    /// Whole seconds, rounding down.
    pub fn as_secs(&self) -> (secs: u64)
        ensures
            secs == self.ticks / TICKS_PER_SEC,
    {
        ticks_to_secs(self.ticks)
    }
}

impl Instant {
    /// Whether `span` after this instant is still on the clock.
    pub open spec fn reaches(self, span: Duration) -> bool {
        self.ticks + span.ticks <= u64::MAX
    }

    /// Whether [`Instant::after`] can be called.
    pub fn allows(self, span: Duration) -> (r: bool)
        ensures
            r == self.reaches(span),
    {
        span.ticks <= u64::MAX - self.ticks
    }

    /// The instant `span` after this one.
    pub open spec fn plus(self, span: Duration) -> Instant {
        Instant { ticks: (self.ticks + span.ticks) as u64 }
    }

    pub fn after(self, span: Duration) -> (later: Instant)
        requires
            self.reaches(span),
        ensures
            later == self.plus(span),
    {
        Instant { ticks: self.ticks + span.ticks }
    }

    /// The span from `earlier` to this instant.
    pub fn since(self, earlier: Instant) -> (span: Duration)
        requires
            earlier.ticks <= self.ticks,
        ensures
            span.ticks == self.ticks - earlier.ticks,
    {
        Duration { ticks: self.ticks - earlier.ticks }
    }
}

/// The earlier of two deadlines, where `None` never comes.
pub open spec fn earliest(a: Option<Instant>, b: Option<Instant>) -> Option<Instant> {
    match (a, b) {
        (Some(x), Some(y)) => Some(if y.ticks < x.ticks { y } else { x }),
        (Some(x), None) => Some(x),
        (None, _) => b,
    }
}

pub fn sooner(a: Option<Instant>, b: Option<Instant>) -> (first: Option<Instant>)
    ensures
        first == earliest(a, b),
{
    match (a, b) {
        (Some(x), Some(y)) => if y.ticks < x.ticks { Some(y) } else { Some(x) },
        (Some(x), None) => Some(x),
        (None, _) => b,
    }
}

/// The earliest of two deadlines is one of them, and neither comes before it.
pub proof fn law_earliest(a: Option<Instant>, b: Option<Instant>)
    ensures
        earliest(a, b) is None <==> a is None && b is None,
        earliest(a, b) is Some ==> earliest(a, b) == a || earliest(a, b) == b,
        a is Some ==> earliest(a, b)->0.ticks <= a->0.ticks,
        b is Some ==> earliest(a, b)->0.ticks <= b->0.ticks,
{
}

/// A second is a million ticks and a millisecond a thousand, as far as the counter goes.
pub proof fn law_units(n: u64)
    ensures
        n <= 18_446_744_073_709 ==> secs(n).ticks == n * 1_000_000,
        n <= 18_446_744_073_709_551 ==> millis(n).ticks == n * 1_000,
{
}

/// A span later, the clock has moved on by exactly that span, unless it has run out.
pub proof fn law_spans_add_up(at: Instant, span: Duration)
    ensures
        at.reaches(span) <==> at.ticks + span.ticks <= 0xffff_ffff_ffff_ffff,
        at.reaches(span) ==> at.plus(span).ticks - at.ticks == span.ticks,
{
}

} // verus!
