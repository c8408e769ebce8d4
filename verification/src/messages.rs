//! Builders of the header and status of NavSatFix messages.

use vstd::prelude::*;
use crate::navsat::{duration_as_secs, duration_subsec_nanos, nanos_per_sec, Header, NavSatStatus, Time};

verus! {

#[verifier::external_type_specification]
#[verifier::external_body]
pub struct ExInstant(std::time::Instant);

/// `Instant::elapsed`: the time since `start` on the monotonic clock.
/// Nothing is promised of it.
#[verifier::external_body]
fn instant_elapsed(start: &std::time::Instant) -> std::time::Duration {
    start.elapsed()
}

/// A header for `frame_id` stamped with an elapsed time of `secs` whole
/// seconds (taken modulo 2^32 into the `int32` field, as a cast does) and
/// `nanos` nanoseconds.
pub fn header_at(frame_id: &str, secs: u64, nanos: u32) -> (h: Header)
    ensures
        h.frame_id@ == frame_id@,
        h.stamp == (Time { sec: secs as i32, nanosec: nanos }),
{
    Header { stamp: Time { sec: secs as i32, nanosec: nanos }, frame_id: frame_id.to_owned() }
}

/// A header for `frame_id` stamped with the time elapsed since `start_time`
/// (whole seconds read from one reading of the clock, nanoseconds from a
/// second one).
pub fn header(frame_id: &str, start_time: std::time::Instant) -> (h: Header)
    ensures
        h.frame_id@ == frame_id@,
        h.stamp.nanosec < nanos_per_sec(),
{
    let secs = duration_as_secs(&instant_elapsed(&start_time));
    let nanos = duration_subsec_nanos(&instant_elapsed(&start_time));
    header_at(frame_id, secs, nanos)
}

/// A NavSatFix status with the given fix status and service.
pub fn gps_status(status: i8, service: u16) -> (s: NavSatStatus)
    ensures
        s == (NavSatStatus { status, service }),
{
    NavSatStatus { status, service }
}

} // verus!
