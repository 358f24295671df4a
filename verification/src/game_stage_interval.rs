//! Inclusive ranges over the seconds elapsed in a match.

use crate::error::ConfigError;
use vstd::prelude::*;

verus! {

/// A range of elapsed seconds, both ends included.
#[derive(Clone, Copy, Debug, PartialEq, Eq, Structural)]
pub struct GameStageInterval {
    pub start_timestamp: i64,
    pub end_timestamp: i64,
}

impl GameStageInterval {
    /// The interval does not end before it starts.
    pub open spec fn wf(&self) -> bool {
        self.start_timestamp <= self.end_timestamp
    }

    /// Whether `seconds` lies within the interval, ends included.
    pub open spec fn contains(&self, seconds: int) -> bool {
        self.start_timestamp <= seconds <= self.end_timestamp
    }

    /// Builds the interval from `start_timestamp` to `end_timestamp`, unless it
    /// would end before it starts.
    pub fn new(start_timestamp: i64, end_timestamp: i64) -> (result: Result<Self, ConfigError>)
        ensures
            start_timestamp <= end_timestamp ==> result == Ok::<Self, ConfigError>(
                (GameStageInterval { start_timestamp, end_timestamp }),
            ),
            start_timestamp > end_timestamp ==> result == Err::<Self, ConfigError>(
                ConfigError::MalformedInterval,
            ),
    {
        if start_timestamp <= end_timestamp {
            Ok(GameStageInterval { start_timestamp, end_timestamp })
        } else {
            Err(ConfigError::MalformedInterval)
        }
    }

    /// Tests whether a duration of `seconds` falls into the interval.
    pub fn is_duration_fits(&self, seconds: i64) -> (fits: bool)
        ensures
            fits == self.contains(seconds as int),
    {
        seconds >= self.start_timestamp && seconds <= self.end_timestamp
    }

    /// The same test for a duration too wide for `i64`.
    pub(crate) fn fits_wide(&self, seconds: i128) -> (fits: bool)
        ensures
            fits == self.contains(seconds as int),
    {
        seconds >= self.start_timestamp as i128 && seconds <= self.end_timestamp as i128
    }
}

} // verus!
