//! Wall-clock adapter: nanoseconds since the Unix epoch.
use vstd::prelude::*;
use std::time::{Duration, SystemTime};
use crate::application::ports::Clock;
use crate::domain::timestamp::Timestamp;

verus! {

/// Reads the system's wall clock. Holds no state.
pub struct SystemClock;

#[verifier::external_type_specification]
#[verifier::external_body]
pub struct ExSystemTime(std::time::SystemTime);

/// `std::time::SystemTime::now`: the current wall-clock time. Nothing is
/// stated of it: it is the time of the call.
#[verifier::external_body]
fn wall_clock_now() -> SystemTime {
    SystemTime::now()
}

/// `SystemTime::duration_since(UNIX_EPOCH)`: how long after the Unix epoch
/// `t` is, or `None` when `t` is earlier. Nothing is stated of the value,
/// since `SystemTime` is opaque here.
#[verifier::external_body]
fn since_unix_epoch(t: &SystemTime) -> Option<Duration> {
    t.duration_since(std::time::UNIX_EPOCH).ok()
}

/// `Duration::as_nanos`: the whole nanoseconds of `d`. Nothing is stated of
/// the value, since `Duration` is opaque here.
#[verifier::external_body]
fn whole_nanos(d: &Duration) -> u128 {
    d.as_nanos()
}

/// The timestamp of a reading of the wall clock: the nanoseconds since the
/// Unix epoch, truncated to `i64` (counts beyond its range, after the year
/// 2262, wrap); a clock that reads earlier than the epoch gives 0.
pub fn epoch_timestamp(nanos: Option<u128>) -> (t: Timestamp)
    ensures
        t.0 == match nanos {
            Some(n) => n as i64,
            None => 0,
        },
{
    match nanos {
        Some(n) => Timestamp(#[verifier::truncate] (n as i64)),
        None => Timestamp(0),
    }
}

impl Clock for SystemClock {
    /// The wall clock may read anything; nothing ties one reading to the
    /// next.
    open spec fn gave(&self, after: Self, t: Timestamp) -> bool {
        true
    }

    /// The current time, as `epoch_timestamp` renders it.
    fn now(&mut self) -> Timestamp {
        let now = wall_clock_now();
        let nanos: Option<u128> = match since_unix_epoch(&now) {
            Some(d) => Some(whole_nanos(&d)),
            None => None,
        };
        epoch_timestamp(nanos)
    }
}

} // verus!
