//! The time of day in whole seconds.
use std::time::SystemTime;
use vstd::prelude::*;

verus! {

/// `SystemTime`: a point in time of the system's clock; nothing in the library looks inside.
#[verifier::external_type_specification]
#[verifier::external_body]
pub struct ExSystemTime(std::time::SystemTime);

/// `SystemTimeError`: the fault of a time that lies before another; nothing in the library looks inside.
#[verifier::external_type_specification]
#[verifier::external_body]
pub struct ExSystemTimeError(std::time::SystemTimeError);

/// `SystemTime::now`: the time that the system's clock shows, of which nothing is promised.
pub assume_specification[ std::time::SystemTime::now ]() -> (r: std::time::SystemTime)
;

/// `SystemTime::duration_since`: the time passed since `earlier`, or a fault where `earlier` lies
/// later. As nothing is known of the two times, nothing is promised of the result.
pub assume_specification[ std::time::SystemTime::duration_since ](
    time: &std::time::SystemTime,
    earlier: std::time::SystemTime,
) -> (r: Result<core::time::Duration, std::time::SystemTimeError>)
;

/// `Duration::as_secs`: the whole seconds of a duration. As nothing is known of the duration,
/// nothing is promised of the result.
pub assume_specification[ core::time::Duration::as_secs ](duration: &core::time::Duration) -> (r:
    u64)
;

/// `SystemTime::UNIX_EPOCH`: the point in time from which seconds are counted.
#[verifier::external_body]
pub fn unix_epoch() -> (r: SystemTime) {
    SystemTime::UNIX_EPOCH
}

/// The seconds since the epoch that the clock shows, or zero where it shows a time before it. Which
/// time the clock shows is left open.
pub fn current_epoch_secs() -> (r: u64)
    ensures
        exists|
            now: SystemTime,
            epoch: SystemTime,
            passed: Result<core::time::Duration, std::time::SystemTimeError>,
        |
            {
                &&& call_ensures(SystemTime::now, (), now)
                &&& call_ensures(unix_epoch, (), epoch)
                &&& #[trigger] call_ensures(SystemTime::duration_since, (&now, epoch), passed)
                &&& match passed {
                    Ok(duration) => call_ensures(core::time::Duration::as_secs, (&duration,), r),
                    Err(_) => r == 0,
                }
            },
{
    let now = SystemTime::now();
    let epoch = unix_epoch();
    let passed = now.duration_since(epoch);
    assert(call_ensures(SystemTime::duration_since, (&now, epoch), passed));
    match passed {
        Ok(duration) => epoch_secs(Some(duration.as_secs())),
        Err(_) => epoch_secs(None),
    }
}

/// The seconds since the epoch for a reading of the clock: the whole seconds that have passed, or
/// zero where the clock shows a time before the epoch, so that none have.
pub fn epoch_secs(passed: Option<u64>) -> (r: u64)
    ensures
        r == (match passed {
            Some(seconds) => seconds,
            None => 0,
        }),
{
    match passed {
        Some(seconds) => seconds,
        None => 0,
    }
}

/// A clock that shows a time before the epoch is taken to show the epoch; any other is taken as it is.
pub proof fn lemma_epoch_secs(passed: Option<u64>, r: u64)
    requires
        call_ensures(epoch_secs, (passed,), r),
    ensures
        passed is None ==> r == 0,
        passed matches Some(seconds) ==> r == seconds,
{
}

} // verus!
