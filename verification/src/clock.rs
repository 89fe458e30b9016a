use std::time::Duration;
use std::time::SystemTime;
use vstd::prelude::*;

verus! {

/// std's `SystemTime`, an instant of the system clock, carried through as
/// an opaque value.
#[verifier::external_type_specification]
#[verifier::external_body]
pub struct ExSystemTime(std::time::SystemTime);

/// Calls `SystemTime::now` of std. Nothing is claimed of the instant read.
#[verifier::external_body]
fn system_time_now() -> (now: SystemTime) {
    SystemTime::now()
}

/// Hands out std's constant `UNIX_EPOCH`. Nothing is claimed of it.
#[verifier::external_body]
fn unix_epoch() -> (epoch: SystemTime) {
    std::time::UNIX_EPOCH
}

/// Calls `SystemTime::duration_since` of std, and gives `None` where std
/// reports that `earlier` is the later of the two. Nothing is claimed of the
/// span returned.
#[verifier::external_body]
fn duration_since(later: &SystemTime, earlier: SystemTime) -> (elapsed: Option<Duration>) {
    match later.duration_since(earlier) {
        Ok(elapsed) => Some(elapsed),
        Err(_) => None,
    }
}

/// Calls `Duration::as_secs` of std. Nothing is claimed of the count.
#[verifier::external_body]
fn whole_seconds(elapsed: &Duration) -> (seconds: u64) {
    elapsed.as_secs()
}

/// The time that a reading of the clock stands for: the seconds counted
/// since the Unix epoch where the clock gave a count that is a value of
/// `i64`, and none where the clock stood before the epoch or the count is
/// beyond that range.
pub open spec fn unix_seconds(elapsed: Option<u64>) -> Option<i64> {
    match elapsed {
        Some(seconds) => if seconds <= i64::MAX {
            Some(seconds as i64)
        } else {
            None
        },
        None => None,
    }
}

/// The time that a reading of the clock stands for, given the seconds that
/// the clock counted since the Unix epoch, if it counted any.
pub fn seconds_since_epoch(elapsed: Option<u64>) -> (now: Option<i64>)
    ensures
        now == unix_seconds(elapsed),
{
    match elapsed {
        Some(seconds) => {
            if seconds <= 0x7fff_ffff_ffff_ffff {
                Some(seconds as i64)
            } else {
                None
            }
        },
        None => None,
    }
}

/// The current time in whole seconds since the Unix epoch, or `None` where
/// the system clock reads a time before the epoch or one whose seconds do not
/// fit in `i64`. What the clock counted is turned into the time by
/// `seconds_since_epoch`.
pub fn unix_now() -> (now: Option<i64>)
    ensures
        now matches Some(t) ==> t >= 0,
{
    let instant = system_time_now();
    let elapsed: Option<u64> = match duration_since(&instant, unix_epoch()) {
        Some(span) => Some(whole_seconds(&span)),
        None => None,
    };
    seconds_since_epoch(elapsed)
}

} // verus!
