use vstd::prelude::*;

verus! {

/// Microseconds in one second; the base every timestamp is normalised to.
pub const MICROS_PER_SEC: u32 = 1_000_000;

/// A point in time or a time span: whole seconds plus a fractional part
/// counted in microseconds. The fractional part is not required to be below
/// one second: legacy captures may carry arbitrary values, which are kept
/// as they were read.
#[derive(Clone, Copy, PartialEq, Eq, Structural, Debug)]
pub struct Duration {
    pub secs: u64,
    pub micros: u32,
}

/// The whole span expressed in microseconds.
pub open spec fn spec_total_micros(d: Duration) -> int {
    d.secs * 1_000_000 + d.micros
}

/// Difference of two spans, saturating at zero, with the result normalised
/// so that its fractional part is below one second. A difference too large
/// for the result type saturates at the largest representable span.
pub open spec fn spec_saturating_sub(a: Duration, b: Duration) -> Duration {
    let t = if spec_total_micros(a) >= spec_total_micros(b) {
        spec_total_micros(a) - spec_total_micros(b)
    } else {
        0
    };
    if t / 1_000_000 > u64::MAX {
        Duration { secs: u64::MAX, micros: 999_999 }
    } else {
        Duration { secs: (t / 1_000_000) as u64, micros: (t % 1_000_000) as u32 }
    }
}

impl Duration {
    pub fn new(secs: u64, micros: u32) -> (r: Duration)
        ensures
            r == (Duration { secs, micros }),
    {
        Duration { secs, micros }
    }

    /// The all-zero value, used by the decoder as "not yet latched".
    pub fn default() -> (r: Duration)
        ensures
            r == (Duration { secs: 0, micros: 0 }),
    {
        Duration { secs: 0, micros: 0 }
    }

    pub open spec fn spec_is_null(&self) -> bool {
        self.secs == 0 && self.micros == 0
    }

    /// True for the all-zero value.
    pub fn is_null(&self) -> (r: bool)
        ensures
            r == self.spec_is_null(),
    {
        self.secs == 0 && self.micros == 0
    }

    /// Difference of two timestamps, saturating at zero on underflow.
    pub fn saturating_sub(&self, other: &Duration) -> (r: Duration)
        ensures
            r == spec_saturating_sub(*self, *other),
    {
        let ta: u128 = (self.secs as u128) * 1_000_000 + (self.micros as u128);
        let tb: u128 = (other.secs as u128) * 1_000_000 + (other.micros as u128);
        let t: u128 = if ta >= tb {
            ta - tb
        } else {
            0
        };
        let q: u128 = t / 1_000_000;
        if q > u64::MAX as u128 {
            Duration { secs: u64::MAX, micros: 999_999 }
        } else {
            Duration { secs: q as u64, micros: (t % 1_000_000) as u32 }
        }
    }
}

} // verus!
