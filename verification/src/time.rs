//! Conversions between wire timestamps (milliseconds since the Unix epoch)
//! and the `Timestamp` type.

use vstd::prelude::*;
use crate::event::Timestamp;

verus! {

pub fn from_millis_since_epoch(millis: u64) -> (r: Timestamp)
    ensures
        r.millis == millis,
{
    Timestamp { millis }
}

pub fn millis_since_epoch(t: Timestamp) -> (r: u64)
    ensures
        r == t.millis,
{
    t.millis
}

} // verus!
