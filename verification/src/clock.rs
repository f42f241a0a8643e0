//! The time of the system's clock.

use std::time::SystemTime;
use vstd::prelude::*;

verus! {

/// `SystemTime` of std: a point in time. The library stamps with it and
/// never looks inside.
#[verifier::external_type_specification]
#[verifier::external_body]
pub struct ExSystemTime(SystemTime);

/// `SystemTime` is `Copy`: its clone is the same point in time.
pub assume_specification[ <SystemTime as Clone>::clone ](time: &SystemTime) -> (same: SystemTime)
    ensures
        same == *time,
;

/// Calls `SystemTime::now`: the time of the system's clock, whatever it
/// shows.
#[verifier::external_body]
pub(crate) fn now() -> SystemTime {
    SystemTime::now()
}

} // verus!
