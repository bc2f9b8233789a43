//! Points in time and durations, held exactly as whole microseconds.

use vstd::prelude::*;

verus! {

/// Number of microseconds in one second.
pub const MICROS_PER_SECOND: i64 = 1_000_000;

/// A time in seconds, held as a whole number of microseconds.
///
/// The probe tool prints every time with six decimal places, so each value it
/// reports is held without loss.
#[derive(Clone, Copy, Debug, PartialEq, Eq, Structural)]
pub struct Seconds {
    pub micros: i64,
}

impl Seconds {
    /// The time that is `micros` microseconds long.
    pub fn from_micros(micros: i64) -> (t: Seconds)
        ensures
            t.micros == micros,
    {
        Seconds { micros }
    }

    /// The number of whole microseconds in this time.
    pub fn as_micros(&self) -> (m: i64)
        ensures
            m == self.micros,
    {
        self.micros
    }
}

} // verus!
