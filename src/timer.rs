use std::time::Duration;
use vstd::prelude::*;

verus! {

/// The moment a metric was emitted, as a duration since the unix epoch.
#[derive(Debug, Clone, Copy, PartialEq, Eq, PartialOrd, Ord)]
pub struct Timestamp {
    timestamp: Duration,
}

impl Timestamp {
    pub closed spec fn spec_duration(&self) -> Duration {
        self.timestamp
    }

    /// The timestamp `since_epoch` after the unix epoch.
    pub fn from_duration(since_epoch: Duration) -> (r: Timestamp)
        ensures
            r.spec_duration() == since_epoch,
    {
        Timestamp { timestamp: since_epoch }
    }

    /// The duration since the unix epoch.
    pub fn duration_since_unix_epoch(&self) -> (r: Duration)
        ensures
            r == self.spec_duration(),
    {
        self.timestamp
    }
}

} // verus!
