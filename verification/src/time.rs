//! Spans of time and moments, counted in nanoseconds.

use vstd::prelude::*;

verus! {

/// The nanoseconds of one second.
pub const NANOS_PER_SEC: u128 = 1_000_000_000;

/// A span of time.
#[derive(Debug, Clone, Copy, PartialEq, Eq, Structural)]
pub struct Duration {
    pub nanos: u128,
}

impl Duration {
    /// No time at all.
    pub fn zero() -> (r: Duration)
        ensures
            r.nanos == 0,
    {
        Duration { nanos: 0 }
    }

    pub fn from_secs(secs: u64) -> (r: Duration)
        ensures
            r.nanos == secs * NANOS_PER_SEC,
    {
        Duration { nanos: secs as u128 * NANOS_PER_SEC }
    }

    pub fn from_millis(millis: u64) -> (r: Duration)
        ensures
            r.nanos == millis * 1_000_000,
    {
        Duration { nanos: millis as u128 * 1_000_000 }
    }

    pub fn is_zero(self) -> (r: bool)
        ensures
            r == (self.nanos == 0),
    {
        self.nanos == 0
    }

    /// The whole seconds of the span, rounded up.
    pub open spec fn ceil_secs(self) -> int {
        (self.nanos + NANOS_PER_SEC - 1) / (NANOS_PER_SEC as int)
    }
}

/// A moment, as the nanoseconds from the unix epoch to it. Moments before
/// the epoch are negative.
#[derive(Debug, Clone, Copy, PartialEq, Eq, Structural)]
pub struct SystemTime {
    pub nanos: i128,
}

/// What a clock shows: the whole seconds and the further nanoseconds since the
/// unix epoch or, on a clock set before it, until the epoch.
pub type Reading = Result<(u64, u32), (u64, u32)>;

/// Whether the nanoseconds of a reading are less than a second.
pub open spec fn is_reading(reading: Reading) -> bool {
    match reading {
        Ok(since) => since.1 < NANOS_PER_SEC,
        Err(until) => until.1 < NANOS_PER_SEC,
    }
}

/// The nanoseconds from the unix epoch to a reading.
pub open spec fn reading_nanos(reading: Reading) -> int {
    match reading {
        Ok(since) => since.0 * NANOS_PER_SEC + since.1,
        Err(until) => -(until.0 * NANOS_PER_SEC + until.1),
    }
}

/// Calls `std::time::SystemTime::now` and measures it from the unix epoch by
/// `duration_since`. The part of a span that `subsec_nanos` gives is less than
/// a second. Nothing else is said of what a clock shows.
#[verifier::external_body]
fn clock() -> (r: Reading)
    ensures
        is_reading(r),
{
    match std::time::SystemTime::now().duration_since(std::time::UNIX_EPOCH) {
        Ok(since) => Ok((since.as_secs(), since.subsec_nanos())),
        Err(error) => Err((error.duration().as_secs(), error.duration().subsec_nanos())),
    }
}

impl SystemTime {
    /// The start of 1970 in UTC.
    pub fn unix_epoch() -> (r: SystemTime)
        ensures
            r.nanos == 0,
    {
        SystemTime { nanos: 0 }
    }

    /// The moment that a reading of a clock stands for.
    pub fn from_reading(reading: Reading) -> (r: SystemTime)
        ensures
            r.nanos == reading_nanos(reading),
    {
        match reading {
            Ok(since) => {
                let nanos: u128 = since.0 as u128 * NANOS_PER_SEC + since.1 as u128;
                SystemTime { nanos: nanos as i128 }
            },
            Err(until) => {
                let nanos: u128 = until.0 as u128 * NANOS_PER_SEC + until.1 as u128;
                SystemTime { nanos: -(nanos as i128) }
            },
        }
    }

    /// The moment that the machine's clock shows.
    pub fn now() -> (r: SystemTime)
        ensures
            exists|reading: Reading| is_reading(reading) && r.nanos == #[trigger] reading_nanos(reading),
    {
        SystemTime::from_reading(clock())
    }

    /// The moment a span later, or the last one there is.
    pub fn saturating_add(self, span: Duration) -> (r: SystemTime)
        ensures
            r.nanos == if self.nanos + span.nanos > i128::MAX {
                i128::MAX as int
            } else {
                self.nanos + span.nanos
            },
    {
        if self.nanos >= 0 {
            let start = self.nanos as u128;
            if span.nanos > i128::MAX as u128 - start {
                SystemTime { nanos: i128::MAX }
            } else {
                SystemTime { nanos: (start + span.nanos) as i128 }
            }
        } else {
            // The distance to the epoch, which fits an unsigned number.
            let distance: u128 = (-(self.nanos + 1)) as u128 + 1;
            if span.nanos < distance {
                let left: u128 = distance - span.nanos;
                SystemTime { nanos: -((left - 1) as i128) - 1 }
            } else if span.nanos - distance > i128::MAX as u128 {
                SystemTime { nanos: i128::MAX }
            } else {
                SystemTime { nanos: (span.nanos - distance) as i128 }
            }
        }
    }

    /// The moment a span earlier, or the first one there is.
    pub fn saturating_sub(self, span: Duration) -> (r: SystemTime)
        ensures
            r.nanos == if self.nanos - span.nanos < i128::MIN {
                i128::MIN as int
            } else {
                self.nanos - span.nanos
            },
    {
        if self.nanos >= 0 {
            let start = self.nanos as u128;
            if span.nanos <= start {
                SystemTime { nanos: (start - span.nanos) as i128 }
            } else {
                let under: u128 = span.nanos - start;
                if under > i128::MAX as u128 {
                    SystemTime { nanos: i128::MIN }
                } else {
                    SystemTime { nanos: -(under as i128) }
                }
            }
        } else {
            // How far the first moment lies below this one.
            let room: u128 = i128::MAX as u128 - (-(self.nanos + 1)) as u128;
            if span.nanos > room {
                SystemTime { nanos: i128::MIN }
            } else {
                SystemTime { nanos: self.nanos - span.nanos as i128 }
            }
        }
    }
}

} // verus!
