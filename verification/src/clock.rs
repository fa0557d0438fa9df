//! The time of day.

use vstd::prelude::*;

verus! {

/// The system's clock reading.
#[verifier::external_type_specification]
#[verifier::external_body]
pub struct ExSystemTime(std::time::SystemTime);

/// The time from the Unix epoch to a clock reading, as
/// `std::time::SystemTime::duration_since` measures it; nothing where the reading
/// is before the epoch.
pub uninterp spec fn since_epoch(now: std::time::SystemTime) -> Option<core::time::Duration>;

/// The whole milliseconds of a duration, as `Duration::as_millis` counts them.
pub uninterp spec fn duration_millis(duration: core::time::Duration) -> u128;

/// `std::time::SystemTime::now` reads the clock; nothing is claimed of the reading.
pub assume_specification[ std::time::SystemTime::now ]() -> std::time::SystemTime
;

/// `std::time::SystemTime::duration_since` measures a clock reading from
/// `std::time::UNIX_EPOCH`, and fails where the reading is before it. How long
/// that is, is left to the name.
#[verifier::external_body]
fn measure(now: &std::time::SystemTime) -> (r: Option<core::time::Duration>)
    ensures
        r == since_epoch(*now),
{
    now.duration_since(std::time::UNIX_EPOCH).ok()
}

/// `Duration::as_millis` counts whole milliseconds; a duration has at most
/// `u64::MAX` whole seconds. The count is left to the name.
pub assume_specification[ core::time::Duration::as_millis ](
    duration: &core::time::Duration,
) -> (r: u128)
    ensures
        r == duration_millis(*duration),
        r <= u64::MAX * 1000 + 999,
;

/// The milliseconds from the epoch to a clock reading; none for a reading before
/// the epoch.
pub open spec fn clock_millis(now: std::time::SystemTime) -> u128 {
    match since_epoch(now) {
        Some(elapsed) => duration_millis(elapsed),
        None => 0,
    }
}

/// The whole seconds from the epoch to a clock reading; none for a reading before
/// the epoch.
pub open spec fn clock_seconds(now: std::time::SystemTime) -> int {
    clock_millis(now) as int / 1000
}

/// Counts the milliseconds from the epoch to a clock reading; a reading before
/// the epoch counts none.
pub fn millis_at(now: std::time::SystemTime) -> (r: u128)
    ensures
        r == clock_millis(now),
        r <= u64::MAX * 1000 + 999,
{
    match measure(&now) {
        Some(elapsed) => elapsed.as_millis(),
        None => 0,
    }
}

/// Counts the milliseconds since the epoch; a clock before the epoch counts none.
pub fn unix_millis() -> (r: u128)
    ensures
        exists|now: std::time::SystemTime| r == #[trigger] clock_millis(now),
        r <= u64::MAX * 1000 + 999,
{
    millis_at(std::time::SystemTime::now())
}

/// The whole seconds of a time in milliseconds.
pub fn whole_seconds(millis: u128) -> (r: u64)
    requires
        millis <= u64::MAX * 1000 + 999,
    ensures
        r == millis as int / 1000,
{
    (millis / 1000) as u64
}

/// Counts the whole seconds since the epoch; a clock before the epoch counts none.
pub fn unix_seconds() -> (r: u64)
    ensures
        exists|now: std::time::SystemTime| r == #[trigger] clock_seconds(now),
{
    let millis = unix_millis();
    proof {
        let now = choose|now: std::time::SystemTime| millis == #[trigger] clock_millis(now);
        assert(clock_seconds(now) == millis as int / 1000);
    }
    whole_seconds(millis)
}

/// The milliseconds of a clock reading are those of the time since the epoch, and none
/// before it; the seconds are the whole thousands among them.
pub proof fn law_readings_are_counted_from_the_epoch(now: std::time::SystemTime)
    ensures
        since_epoch(now) is None ==> clock_millis(now) == 0,
        since_epoch(now) matches Some(elapsed) ==> clock_millis(now) == duration_millis(elapsed),
        1000 * clock_seconds(now) <= clock_millis(now) < 1000 * clock_seconds(now) + 1000,
{
}

} // verus!
