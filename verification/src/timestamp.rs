//! Moments in time.
use crate::outside::utc_now;
use vstd::prelude::*;

verus! {

/// A moment in UTC: seconds since the Unix epoch and nanoseconds within.
#[derive(Debug, Clone, Copy, PartialEq, Eq, Structural)]
pub struct Timestamp {
    pub seconds: i64,
    pub nanos: u32,
}

impl Timestamp {
    /// The present moment, as the system clock tells it.
    pub fn now() -> Timestamp {
        utc_now()
    }
}

} // verus!
