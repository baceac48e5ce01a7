pub mod absolute;
pub mod clock;
pub mod display;
pub mod relative;
pub mod request;
pub mod schedule;
pub mod speech;
pub mod text;

use vstd::prelude::*;

verus! {

/// The ways a request can fail before any wait begins.
#[derive(Clone, Copy, Debug, PartialEq, Eq, Structural)]
pub enum NagError {
    /// Malformed duration or clock-time string: wrong field count,
    /// non-numeric field, or an out-of-range component.
    InvalidFormat,
    /// The mode selector is neither "in" nor "at".
    UnsupportedMode,
    /// The external speech collaborator could not be launched.
    SpeechInvocationFailure,
}

/// A non-negative span of time, with one-second resolution.
#[derive(Clone, Copy, Debug, PartialEq, Eq, Structural)]
pub struct ElapsedDuration {
    pub secs: u64,
}

/// The am/pm tag a clock-time string may carry.
#[derive(Clone, Copy, Debug, PartialEq, Eq, Structural)]
pub enum Meridiem {
    Am,
    Pm,
    Unspecified,
}

/// A wall-clock reading without a date, as written by the user and before
/// normalization: the hour has not yet been forced into 0..24.
#[derive(Clone, Copy, Debug, PartialEq, Eq, Structural)]
pub struct ClockTimeSpec {
    pub hour: u32,
    pub minute: u32,
    pub meridiem: Meridiem,
}

/// The current wall-clock time of day, the resolution context for
/// absolute clock-time requests.
#[derive(Clone, Copy, Debug, PartialEq, Eq, Structural)]
pub struct TimeOfDay {
    pub hour: u32,
    pub minute: u32,
    pub second: u32,
}

impl TimeOfDay {
    /// A real clock reading: hour 0..24, minute and second 0..60.
    pub open spec fn wf(self) -> bool {
        self.hour < 24 && self.minute < 60 && self.second < 60
    }

    /// Seconds since midnight.
    pub open spec fn spec_secs(self) -> int {
        self.hour * 3600 + self.minute * 60 + self.second
    }
}

/// The number of seconds in a calendar day.
pub const SECS_PER_DAY: u32 = 86400;

} // verus!
