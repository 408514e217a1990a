//! Wall-clock times of day, compared while ignoring the date.

use vstd::prelude::*;

verus! {

/// A wall-clock time of day with second precision. Two times are ordered by
/// their distance from midnight; the date plays no part.
#[derive(Clone, Copy, PartialEq, Eq, Structural, Debug)]
pub struct TimeOfDay {
    pub hour: u8,
    pub minute: u8,
    pub second: u8,
}

impl TimeOfDay {
    /// A valid wall-clock reading: hour below 24, minute and second below 60.
    pub open spec fn wf(self) -> bool {
        self.hour < 24 && self.minute < 60 && self.second < 60
    }

    /// Seconds since midnight; the measure by which times of day are ordered.
    pub open spec fn seconds(self) -> int {
        self.hour * 3600 + self.minute * 60 + self.second
    }

    /// Builds a time of day, or nothing when a component is out of range.
    pub fn new(hour: u8, minute: u8, second: u8) -> (r: Option<TimeOfDay>)
        ensures
            match r {
                Some(t) => t == (TimeOfDay { hour, minute, second }) && t.wf(),
                None => !(hour < 24 && minute < 60 && second < 60),
            },
    {
        if hour < 24 && minute < 60 && second < 60 {
            Some(TimeOfDay { hour, minute, second })
        } else {
            None
        }
    }

    /// Seconds since midnight, as a machine integer.
    pub fn total_seconds(&self) -> (r: u32)
        ensures
            r == self.seconds(),
    {
        self.hour as u32 * 3600 + self.minute as u32 * 60 + self.second as u32
    }
}

} // verus!
