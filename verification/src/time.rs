//! Points in time and spans of time, counted in ticks of the system clock.

use vstd::prelude::*;

verus! {

/// A point in time, in clock ticks since startup. Its view is the tick count.
#[derive(Clone, Copy, Debug, PartialEq, Eq, Structural)]
pub struct Instant {
    pub ticks: u64,
}

/// A span of time, in clock ticks. Its view is the tick count.
#[derive(Clone, Copy, Debug, PartialEq, Eq, Structural)]
pub struct Duration {
    pub ticks: u64,
}

impl View for Instant {
    type V = int;

    open spec fn view(&self) -> int {
        self.ticks as int
    }
}

impl View for Duration {
    type V = int;

    open spec fn view(&self) -> int {
        self.ticks as int
    }
}

/// The tick counts that the clock can show.
pub open spec fn on_clock(ticks: int) -> bool {
    0 <= ticks <= u64::MAX
}

/// Calls `embassy_time::Instant`'s `+` on a tick count and a tick span, which panics where the sum
/// leaves 64 bits. The result is the tick count of the sum.
#[verifier::external_body]
fn instant_plus(start: u64, span: u64) -> (end: u64)
    requires
        start + span <= u64::MAX,
    ensures
        end == start + span,
{
    (embassy_time::Instant::from_ticks(start) + embassy_time::Duration::from_ticks(span)).as_ticks()
}

/// Calls `embassy_time::Instant`'s `-` on a tick count and a tick span, which panics where the
/// difference is negative. The result is the tick count of the difference.
#[verifier::external_body]
fn instant_minus(end: u64, span: u64) -> (start: u64)
    requires
        span <= end,
    ensures
        start == end - span,
{
    (embassy_time::Instant::from_ticks(end) - embassy_time::Duration::from_ticks(span)).as_ticks()
}

/// Calls `embassy_time::Instant::now`. Nothing is claimed of the result: it is whatever tick count
/// the clock shows. That a later call never gives an earlier time relates two calls, and is left
/// unsaid.
#[verifier::external_body]
fn clock_ticks() -> (now: u64) {
    embassy_time::Instant::now().as_ticks()
}

impl Instant {
    /// The current time. Any tick count may come back; what is done with it is proved for all.
    pub fn now() -> (now: Instant) {
        Instant { ticks: clock_ticks() }
    }
}

impl std::ops::Add<Duration> for Instant {
    type Output = Instant;

    fn add(self, rhs: Duration) -> (end: Instant) {
        Instant { ticks: instant_plus(self.ticks, rhs.ticks) }
    }
}

impl vstd::std_specs::ops::AddSpecImpl<Duration> for Instant {
    open spec fn obeys_add_spec() -> bool {
        true
    }

    open spec fn add_req(self, rhs: Duration) -> bool {
        on_clock(self@ + rhs@)
    }

    open spec fn add_spec(self, rhs: Duration) -> Instant {
        Instant { ticks: (self@ + rhs@) as u64 }
    }
}

impl std::ops::Sub<Duration> for Instant {
    type Output = Instant;

    fn sub(self, rhs: Duration) -> (start: Instant) {
        Instant { ticks: instant_minus(self.ticks, rhs.ticks) }
    }
}

impl vstd::std_specs::ops::SubSpecImpl<Duration> for Instant {
    open spec fn obeys_sub_spec() -> bool {
        true
    }

    open spec fn sub_req(self, rhs: Duration) -> bool {
        on_clock(self@ - rhs@)
    }

    open spec fn sub_spec(self, rhs: Duration) -> Instant {
        Instant { ticks: (self@ - rhs@) as u64 }
    }
}

impl Duration {
    /// The longest span. As a timeout or a threshold it means "never".
    pub open spec fn spec_max() -> Duration {
        Duration { ticks: u64::MAX }
    }

    /// The longest span. As a timeout or a threshold it means "never".
    #[verifier::when_used_as_spec(spec_max)]
    pub fn max() -> (longest: Duration)
        ensures
            longest == Duration::spec_max(),
    {
        Duration { ticks: u64::MAX }
    }
}

/// The tick at which a span that begins at tick `start` is over; `None` for the longest span,
/// which is never over.
pub open spec fn deadline_ticks(start: int, duration: Duration) -> Option<int> {
    if duration == Duration::max() {
        None
    } else {
        Some(start + duration@)
    }
}

/// Whether the clock can show the end of a span that begins at tick `start`.
pub open spec fn deadline_fits(start: int, duration: Duration) -> bool {
    deadline_ticks(start, duration) matches Some(end) ==> on_clock(end)
}

/// The tick count of an optional point in time.
pub open spec fn ticks_of(instant: Option<Instant>) -> Option<int> {
    match instant {
        Some(instant) => Some(instant@),
        None => None,
    }
}

/// The end of a span that begins at `start`; `None` for the longest span, which is never over.
pub fn deadline_from(start: Instant, duration: Duration) -> (deadline: Option<Instant>)
    requires
        deadline_fits(start@, duration),
    ensures
        ticks_of(deadline) == deadline_ticks(start@, duration),
{
    if duration != Duration::max() {
        Some(start + duration)
    } else {
        None
    }
}

/// Whether `deadline_from` can give the end of a span that begins at `start`.
pub fn has_deadline(start: Instant, duration: Duration) -> (fits: bool)
    ensures
        fits == deadline_fits(start@, duration),
{
    duration == Duration::max() || start.ticks <= u64::MAX - duration.ticks
}

} // verus!
