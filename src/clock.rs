//! The time source: nanoseconds since the clock was made, never going back.

use vstd::prelude::*;

verus! {

#[verifier::external_type_specification]
#[verifier::external_body]
pub struct ExInstant(std::time::Instant);

/// Relies on `std::time::Instant::now`: a reading of the system's monotonic
/// clock. Nothing is known of its value.
pub assume_specification[ std::time::Instant::now ]() -> std::time::Instant;

/// Relies on `std::time::Instant::elapsed`: the time since the instant. Nothing
/// is known of its value.
pub assume_specification[ std::time::Instant::elapsed ](i: &std::time::Instant) -> std::time::Duration;

/// Relies on `std::time::Duration::as_nanos`: the whole nanoseconds of a
/// duration. Nothing is known of its value.
pub assume_specification[ std::time::Duration::as_nanos ](d: &std::time::Duration) -> u128;

/// A monotonic clock: each reading is the nanoseconds since the clock was
/// made, and never less than the reading before it.
pub struct Clock {
    epoch: std::time::Instant,
    last: u64,
}

impl Clock {
    /// The latest reading, zero before the first.
    pub closed spec fn last_reading(&self) -> u64 {
        self.last
    }

    pub fn new() -> (c: Clock)
        ensures
            c.last_reading() == 0,
    {
        Clock { epoch: std::time::Instant::now(), last: 0 }
    }

    /// Reads the clock: the system clock's nanoseconds since the clock was
    /// made, passed through `reading_after` with the previous reading.
    pub fn now(&mut self) -> (t: u64)
        ensures
            t >= old(self).last_reading(),
            final(self).last_reading() == t,
    {
        let nanos = self.epoch.elapsed().as_nanos();
        let t = reading_after(self.last, nanos);
        self.last = t;
        t
    }
}

/// The reading the clock gives when the system clock says `nanos` since the
/// epoch and the previous reading was `last`: `nanos`, held at `u64::MAX`, or
/// `last` where the system clock would go back.
pub open spec fn reading_after_spec(last: u64, nanos: u128) -> u64 {
    if nanos > last as u128 {
        if nanos > u64::MAX as u128 {
            u64::MAX
        } else {
            nanos as u64
        }
    } else {
        last
    }
}

pub fn reading_after(last: u64, nanos: u128) -> (t: u64)
    ensures
        t == reading_after_spec(last, nanos),
        t >= last,
{
    if nanos > last as u128 {
        if nanos > u64::MAX as u128 {
            u64::MAX
        } else {
            nanos as u64
        }
    } else {
        last
    }
}

} // verus!
