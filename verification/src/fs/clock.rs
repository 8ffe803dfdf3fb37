//! Wall-clock time.

use std::time::{Duration, SystemTime, SystemTimeError, UNIX_EPOCH};
use vstd::prelude::*;

verus! {

/// `std::time::SystemTime`, a point in time of the system clock.
#[verifier::external_type_specification]
#[verifier::external_body]
pub struct ExSystemTime(SystemTime);

/// `std::time::SystemTimeError`, which says that one point in time is not before another.
#[verifier::external_type_specification]
#[verifier::external_body]
pub struct ExSystemTimeError(SystemTimeError);

/// `std::time::SystemTime::now` reads the system clock. Nothing is claimed of the reading.
pub assume_specification[ SystemTime::now ]() -> SystemTime;

/// `std::time::SystemTime::duration_since` gives the time from `earlier` to `this`, or an error
/// if `earlier` is the later of the two. Nothing is claimed of either, as points in time are
/// opaque here.
pub assume_specification[ SystemTime::duration_since ](this: &SystemTime, earlier: SystemTime)
    -> Result<Duration, SystemTimeError>;

/// `std::time::Duration::as_secs` gives the whole seconds of a duration. Nothing is claimed of
/// them, as durations are opaque here.
pub assume_specification[ Duration::as_secs ](this: &Duration) -> u64;

/// `std::time::Duration::subsec_nanos` gives the part of a duration beyond whole seconds, in
/// nanoseconds, which is less than one second.
pub assume_specification[ Duration::subsec_nanos ](this: &Duration) -> (nanos: u32)
    ensures
        nanos < 1_000_000_000,
;

/// `std::time::UNIX_EPOCH`, the start of the year 1970 in UTC.
#[verifier::external_body]
fn unix_epoch() -> SystemTime {
    UNIX_EPOCH
}

/// The time to stamp records with, given the seconds and nanoseconds that have passed since the
/// Unix epoch. A clock set before the epoch (`None`) stamps with the epoch itself.
pub fn timestamp(since_epoch: Option<(u64, u32)>) -> (stamp: (u64, u32))
    ensures
        stamp == match since_epoch {
            Some(elapsed) => elapsed,
            None => (0u64, 0u32),
        },
{
    match since_epoch {
        Some(elapsed) => elapsed,
        None => (0, 0),
    }
}

/// The time of day, as seconds and nanoseconds since the Unix epoch: what a reading of the
/// system clock comes to. Which time the clock shows is left unsaid.
pub fn get_current_time() -> (now: (u64, u32))
    ensures
        now.1 < 1_000_000_000,
        exists|reading: SystemTime, epoch: SystemTime|
            {
                &&& #[trigger] call_ensures(SystemTime::now, (), reading)
                &&& #[trigger] is_unix_epoch(epoch)
                &&& is_time_since(reading, epoch, now)
            },
{
    let reading = SystemTime::now();
    let epoch = unix_epoch();
    let since = reading.duration_since(epoch);
    let ghost reply = since;
    let now = match since {
        Ok(elapsed) => timestamp(Some((elapsed.as_secs(), elapsed.subsec_nanos()))),
        Err(_) => timestamp(None),
    };
    assert(call_ensures(SystemTime::duration_since, (&reading, epoch), reply));
    assert(call_ensures(SystemTime::now, (), reading) && is_unix_epoch(epoch));
    now
}

/// Whether `t` is what `unix_epoch` returns.
pub closed spec fn is_unix_epoch(t: SystemTime) -> bool {
    call_ensures(unix_epoch, (), t)
}

/// Whether `stamp` is made of the whole seconds and the further nanoseconds of the time from
/// `epoch` to `reading`, or is zero because `reading` is the earlier of the two.
pub open spec fn is_time_since(reading: SystemTime, epoch: SystemTime, stamp: (u64, u32)) -> bool {
    exists|since: Result<Duration, SystemTimeError>|
        {
            &&& #[trigger] call_ensures(SystemTime::duration_since, (&reading, epoch), since)
            &&& match since {
                Ok(elapsed) => {
                    &&& call_ensures(Duration::as_secs, (&elapsed,), stamp.0)
                    &&& call_ensures(Duration::subsec_nanos, (&elapsed,), stamp.1)
                },
                Err(_) => stamp == (0u64, 0u32),
            }
        }
}

/// The time is the whole seconds and the further nanoseconds, unchanged, by which a reading of
/// the clock is past the Unix epoch, or zero if the reading is the earlier of the two.
pub proof fn time_is_what_the_clock_shows(now: (u64, u32))
    requires
        call_ensures(get_current_time, (), now),
    ensures
        now.1 < 1_000_000_000,
        exists|
            reading: SystemTime,
            epoch: SystemTime,
            since: Result<Duration, SystemTimeError>,
        |
            {
                &&& call_ensures(SystemTime::now, (), reading)
                &&& #[trigger] is_unix_epoch(epoch)
                &&& #[trigger] call_ensures(SystemTime::duration_since, (&reading, epoch), since)
                &&& since matches Ok(elapsed) ==> call_ensures(
                    Duration::as_secs,
                    (&elapsed,),
                    now.0,
                ) && call_ensures(Duration::subsec_nanos, (&elapsed,), now.1)
                &&& since is Err ==> now == (0u64, 0u32)
            },
{
    let (reading, epoch) = choose|reading: SystemTime, epoch: SystemTime|
        {
            &&& #[trigger] call_ensures(SystemTime::now, (), reading)
            &&& #[trigger] is_unix_epoch(epoch)
            &&& is_time_since(reading, epoch, now)
        };
    let since = choose|since: Result<Duration, SystemTimeError>|
        {
            &&& #[trigger] call_ensures(SystemTime::duration_since, (&reading, epoch), since)
            &&& match since {
                Ok(elapsed) => {
                    &&& call_ensures(Duration::as_secs, (&elapsed,), now.0)
                    &&& call_ensures(Duration::subsec_nanos, (&elapsed,), now.1)
                },
                Err(_) => now == (0u64, 0u32),
            }
        };
    assert(is_unix_epoch(epoch) && call_ensures(
        SystemTime::duration_since,
        (&reading, epoch),
        since,
    ));
}

/// What has passed since the epoch is stamped as it is, and a clock before the epoch stamps zero.
pub proof fn stamps_are_taken_as_read(since_epoch: Option<(u64, u32)>, stamp: (u64, u32))
    requires
        call_ensures(timestamp, (since_epoch,), stamp),
    ensures
        since_epoch matches Some(elapsed) ==> stamp == elapsed,
        since_epoch is None ==> stamp == (0u64, 0u32),
{
}

} // verus!
