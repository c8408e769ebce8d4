//! Timestamps and the integer part of NavSatFix messages.

use vstd::prelude::*;

verus! {

/// Largest value of the `sec` field of a ROS 2 time stamp (`int32`).
pub open spec fn sec_limit() -> int {
    0x7fff_ffff
}

/// Nanoseconds in one second.
pub open spec fn nanos_per_sec() -> int {
    1_000_000_000
}

/// A ROS 2 `builtin_interfaces/Time` stamp.
#[derive(Clone, Copy, Debug, PartialEq, Eq, Structural)]
pub struct Time {
    pub sec: i32,
    pub nanosec: u32,
}

/// Why a wall-clock time stamp could not be produced.
#[derive(Clone, Copy, Debug, PartialEq, Eq, Structural)]
pub enum TimestampError {
    /// The system clock reads a time before the Unix epoch.
    BeforeEpoch,
    /// The seconds since the epoch do not fit the `int32` field (Y2038).
    Overflow,
}

/// What a stamp is, given the clock's offset from the Unix epoch
/// (`None` when the clock is before the epoch).
pub open spec fn spec_time_from_epoch_offset(offset: Option<(u64, u32)>) -> Result<Time, TimestampError> {
    match offset {
        None => Err(TimestampError::BeforeEpoch),
        Some((secs, nanos)) => if secs > sec_limit() {
            Err(TimestampError::Overflow)
        } else {
            Ok(Time { sec: secs as i32, nanosec: nanos })
        },
    }
}

/// Turns an offset from the Unix epoch (whole seconds and the nanoseconds
/// past them) into a time stamp, refusing offsets that do not fit `int32`.
pub fn time_from_epoch_offset(offset: Option<(u64, u32)>) -> (r: Result<Time, TimestampError>)
    ensures
        r == spec_time_from_epoch_offset(offset),
        r matches Ok(t) ==> t.sec >= 0 && t.sec as int == offset.unwrap().0,
{
    match offset {
        None => Err(TimestampError::BeforeEpoch),
        Some((secs, nanos)) => {
            if secs > 0x7fff_ffff {
                Err(TimestampError::Overflow)
            } else {
                Ok(Time { sec: secs as i32, nanosec: nanos })
            }
        },
    }
}


#[verifier::external_type_specification]
#[verifier::external_body]
pub struct ExSystemTime(std::time::SystemTime);

/// Reads the system (wall) clock with `std::time::SystemTime::now`.
/// Nothing is promised of the reading.
#[verifier::external_body]
fn system_time_now() -> std::time::SystemTime {
    std::time::SystemTime::now()
}

/// `SystemTime::duration_since(UNIX_EPOCH)`, with its error (a clock before
/// the epoch) turned into `None`. Nothing is promised of the duration.
#[verifier::external_body]
fn duration_since_unix_epoch(t: std::time::SystemTime) -> Option<std::time::Duration> {
    t.duration_since(std::time::UNIX_EPOCH).ok()
}

/// `Duration::as_secs`: the whole seconds of a duration. The duration is
/// opaque here, so nothing is promised of the number.
#[verifier::external_body]
pub(crate) fn duration_as_secs(d: &std::time::Duration) -> u64 {
    d.as_secs()
}

/// `Duration::subsec_nanos`: the nanoseconds past the whole seconds, which
/// std documents to be less than one billion.
#[verifier::external_body]
pub(crate) fn duration_subsec_nanos(d: &std::time::Duration) -> (n: u32)
    ensures
        n < 1_000_000_000,
{
    d.subsec_nanos()
}

/// Reads the wall clock (`CLOCK_REALTIME`, as ROS 2 stamps are) and turns it
/// into a stamp. Whatever the clock reads, the result is the stamp of some
/// offset from the epoch with fewer than a billion nanoseconds, or
/// `BeforeEpoch`.
pub fn timestamp() -> (r: Result<Time, TimestampError>)
    ensures
        r == Err::<Time, TimestampError>(TimestampError::BeforeEpoch) || exists|secs: u64, nanos: u32|
            nanos < nanos_per_sec() && r == spec_time_from_epoch_offset(Some((secs, nanos))),
        r matches Ok(t) ==> t.sec >= 0 && t.nanosec < nanos_per_sec(),
{
    let now = system_time_now();
    match duration_since_unix_epoch(now) {
        None => time_from_epoch_offset(None),
        Some(d) => {
            let secs = duration_as_secs(&d);
            let nanos = duration_subsec_nanos(&d);
            time_from_epoch_offset(Some((secs, nanos)))
        },
    }
}

/// The stamp published once the clock has passed the `int32` limit:
/// the largest representable time.
pub open spec fn spec_saturated_time() -> Time {
    Time { sec: 0x7fff_ffff, nanosec: 999_999_999 }
}

/// Stamps ordered as instants: by seconds, then nanoseconds.
pub open spec fn time_le(a: Time, b: Time) -> bool {
    a.sec < b.sec || (a.sec == b.sec && a.nanosec <= b.nanosec)
}

/// Clock offsets ordered as instants: by seconds, then nanoseconds.
pub open spec fn offset_le(a: (u64, u32), b: (u64, u32)) -> bool {
    a.0 < b.0 || (a.0 == b.0 && a.1 <= b.1)
}

/// Stamps follow the clock: a later clock reading never yields an earlier
/// stamp, and once a reading overflows, every later one does too.
pub proof fn lemma_stamps_follow_clock(a: (u64, u32), b: (u64, u32))
    requires
        offset_le(a, b),
    ensures
        spec_time_from_epoch_offset(Some(a)) matches Ok(ta) ==> (spec_time_from_epoch_offset(Some(b)) matches Ok(tb)
            ==> time_le(ta, tb)),
        spec_time_from_epoch_offset(Some(a)) == Err::<Time, TimestampError>(TimestampError::Overflow)
            ==> spec_time_from_epoch_offset(Some(b)) == Err::<Time, TimestampError>(TimestampError::Overflow),
{
}

/// The saturated stamp used past the Y2038 limit.
pub fn saturated_time() -> (t: Time)
    ensures
        t == spec_saturated_time(),
{
    Time { sec: 0x7fff_ffff, nanosec: 999_999_999 }
}

/// What header stamp a fix is published with, given what `timestamp`
/// returned: the stamp itself, the saturated stamp on overflow (position data
/// keeps flowing past 2038), and none (the fix is dropped) for a clock before
/// the epoch.
pub open spec fn spec_stamp_for_publishing(r: Result<Time, TimestampError>) -> Option<Time> {
    match r {
        Ok(t) => Some(t),
        Err(TimestampError::Overflow) => Some(spec_saturated_time()),
        Err(TimestampError::BeforeEpoch) => None,
    }
}

/// Chooses the header stamp for a fix from the result of `timestamp`.
pub fn stamp_for_publishing(r: Result<Time, TimestampError>) -> (s: Option<Time>)
    ensures
        s == spec_stamp_for_publishing(r),
{
    match r {
        Ok(t) => Some(t),
        Err(TimestampError::Overflow) => Some(saturated_time()),
        Err(TimestampError::BeforeEpoch) => None,
    }
}


/// A ROS 2 `std_msgs/Header`.
#[derive(Clone, Debug, PartialEq, Eq)]
pub struct Header {
    pub stamp: Time,
    pub frame_id: String,
}

/// A ROS 2 `sensor_msgs/NavSatStatus`.
#[derive(Clone, Copy, Debug, PartialEq, Eq, Structural)]
pub struct NavSatStatus {
    pub status: i8,
    pub service: u16,
}

/// The fields of a `sensor_msgs/NavSatFix` other than the position and its
/// covariance matrix, which are floating point and filled in by the caller.
#[derive(Clone, Debug, PartialEq, Eq)]
pub struct NavSatFixMeta {
    pub header: Header,
    pub status: NavSatStatus,
    pub position_covariance_type: u8,
}

/// `nav_sat_status::STATUS_FIX` of edgefirst-schemas, which is 0
/// (an unaugmented fix).
#[verifier::external_body]
fn schema_status_fix() -> (v: i8)
    ensures
        v == 0,
{
    edgefirst_schemas::sensor_msgs::nav_sat_status::STATUS_FIX
}

/// `nav_sat_status::SERVICE_GPS` of edgefirst-schemas, which is 1.
#[verifier::external_body]
fn schema_service_gps() -> (v: u8)
    ensures
        v == 1,
{
    edgefirst_schemas::sensor_msgs::nav_sat_status::SERVICE_GPS
}

/// `nav_sat_fix::COVARIANCE_TYPE_UNKNOWN` of edgefirst-schemas, which is 0.
#[verifier::external_body]
fn schema_covariance_type_unknown() -> (v: u8)
    ensures
        v == 0,
{
    edgefirst_schemas::sensor_msgs::nav_sat_fix::COVARIANCE_TYPE_UNKNOWN
}

/// Status of every NavSatFix this node publishes: an unaugmented GPS fix.
pub open spec fn spec_fix_status() -> NavSatStatus {
    NavSatStatus { status: 0, service: 1 }
}

/// The non-position fields of a NavSatFix published with `stamp`: an empty
/// frame id, an unaugmented GPS fix, and an unknown covariance type. They do
/// not depend on what GPSD reported.
pub fn navsat_fix_meta(stamp: Time) -> (m: NavSatFixMeta)
    ensures
        m.header.stamp == stamp,
        m.header.frame_id@ == Seq::<char>::empty(),
        m.status == spec_fix_status(),
        m.position_covariance_type == 0,
{
    let service = schema_service_gps();
    NavSatFixMeta {
        header: Header { stamp, frame_id: String::new() },
        status: NavSatStatus { status: schema_status_fix(), service: service as u16 },
        position_covariance_type: schema_covariance_type_unknown(),
    }
}


/// Every clock reading at or after the epoch leads to a published fix: with
/// its exact stamp while the seconds fit `int32`, with the saturated stamp
/// after. No published stamp is later than the saturated one.
pub proof fn lemma_published_after_epoch(secs: u64, nanos: u32)
    requires
        nanos < nanos_per_sec(),
    ensures
        spec_stamp_for_publishing(spec_time_from_epoch_offset(Some((secs, nanos)))) is Some,
        secs <= sec_limit() ==> spec_stamp_for_publishing(spec_time_from_epoch_offset(Some((secs, nanos))))
            == Some(Time { sec: secs as i32, nanosec: nanos }),
        secs > sec_limit() ==> spec_stamp_for_publishing(spec_time_from_epoch_offset(Some((secs, nanos))))
            == Some(spec_saturated_time()),
        time_le(
            spec_stamp_for_publishing(spec_time_from_epoch_offset(Some((secs, nanos))))->0,
            spec_saturated_time(),
        ),
{
}

} // verus!
