use std::time::Instant;

use edgefirst_navsat::messages::{gps_status, header, header_at};
use edgefirst_navsat::navsat::{NavSatStatus, Time};

#[test]
fn header_at_stamps_elapsed_time() {
    let h = header_at("gps", 12, 345);
    assert_eq!(h.frame_id, "gps");
    assert_eq!(h.stamp, Time { sec: 12, nanosec: 345 });
    let wrapped = header_at("", (1u64 << 32) + 7, 0);
    assert_eq!(wrapped.stamp.sec, 7);
}

#[test]
fn header_since_start() {
    let start = Instant::now();
    let h = header("map", start);
    assert_eq!(h.frame_id, "map");
    assert!(h.stamp.sec >= 0);
    assert!(h.stamp.nanosec < 1_000_000_000);
}

#[test]
fn gps_status_holds_fields() {
    assert_eq!(gps_status(0, 1), NavSatStatus { status: 0, service: 1 });
    assert_eq!(gps_status(-1, 8), NavSatStatus { status: -1, service: 8 });
}
