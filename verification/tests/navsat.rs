use edgefirst_navsat::navsat::{
    navsat_fix_meta, saturated_time, stamp_for_publishing, time_from_epoch_offset, timestamp, Time,
    TimestampError,
};

#[test]
fn test_timestamp_returns_valid_time() {
    let time = timestamp().unwrap();
    assert!(time.sec >= 0);
    assert!(time.nanosec < 1_000_000_000);
}

#[test]
fn test_timestamp_is_monotonic() {
    let time1 = timestamp().unwrap();
    let time2 = timestamp().unwrap();

    let nanos1 = (time1.sec as i64) * 1_000_000_000 + (time1.nanosec as i64);
    let nanos2 = (time2.sec as i64) * 1_000_000_000 + (time2.nanosec as i64);

    assert!(nanos2 >= nanos1);
}

#[test]
fn epoch_offsets_become_stamps() {
    assert_eq!(
        time_from_epoch_offset(Some((1_700_000_000, 123_456_789))),
        Ok(Time { sec: 1_700_000_000, nanosec: 123_456_789 })
    );
    assert_eq!(time_from_epoch_offset(Some((0, 0))), Ok(Time { sec: 0, nanosec: 0 }));
    assert_eq!(
        time_from_epoch_offset(Some((i32::MAX as u64, 999_999_999))),
        Ok(Time { sec: i32::MAX, nanosec: 999_999_999 })
    );
    assert_eq!(time_from_epoch_offset(None), Err(TimestampError::BeforeEpoch));
}

#[test]
fn y2038_offsets_overflow() {
    assert_eq!(
        time_from_epoch_offset(Some((i32::MAX as u64 + 1, 0))),
        Err(TimestampError::Overflow)
    );
    assert_eq!(time_from_epoch_offset(Some((u64::MAX, 5))), Err(TimestampError::Overflow));
}

#[test]
fn stamps_for_publishing() {
    let t = Time { sec: 123, nanosec: 456 };
    assert_eq!(stamp_for_publishing(Ok(t)), Some(t));
    assert_eq!(
        stamp_for_publishing(Err(TimestampError::Overflow)),
        Some(Time { sec: i32::MAX, nanosec: 999_999_999 })
    );
    assert_eq!(stamp_for_publishing(Err(TimestampError::BeforeEpoch)), None);
    assert_eq!(saturated_time(), Time { sec: i32::MAX, nanosec: 999_999_999 });
}

#[test]
fn fix_meta_header_frame_id_is_empty() {
    let meta = navsat_fix_meta(Time { sec: 0, nanosec: 0 });
    assert!(meta.header.frame_id.is_empty());
}

#[test]
fn fix_meta_status_and_covariance_type() {
    let meta = navsat_fix_meta(Time { sec: 123, nanosec: 456 });
    assert_eq!(meta.header.stamp.sec, 123);
    assert_eq!(meta.header.stamp.nanosec, 456);
    assert_eq!(meta.status.status, edgefirst_schemas::sensor_msgs::nav_sat_status::STATUS_FIX);
    assert_eq!(
        meta.status.service,
        edgefirst_schemas::sensor_msgs::nav_sat_status::SERVICE_GPS as u16
    );
    assert_eq!(
        meta.position_covariance_type,
        edgefirst_schemas::sensor_msgs::nav_sat_fix::COVARIANCE_TYPE_UNKNOWN
    );
}

#[test]
fn stamps_follow_clock_order() {
    let readings = [(0u64, 5u32), (0, 999_999_999), (1, 0), (2_000_000_000, 1), (2_147_483_647, 999_999_999)];
    let stamps: Vec<Time> = readings.iter().map(|r| time_from_epoch_offset(Some(*r)).unwrap()).collect();
    for pair in stamps.windows(2) {
        let a = (pair[0].sec, pair[0].nanosec);
        let b = (pair[1].sec, pair[1].nanosec);
        assert!(a <= b);
    }
    for late in [(2_147_483_648u64, 0u32), (3_000_000_000, 7)] {
        assert_eq!(time_from_epoch_offset(Some(late)), Err(TimestampError::Overflow));
        assert_eq!(
            stamp_for_publishing(time_from_epoch_offset(Some(late))),
            Some(saturated_time())
        );
    }
}
