use chrono::NaiveDateTime;
use focusrite_watch::compat::{
    deserialize_naive_date_timestamp, serialize_naive_datetime_timestamp_to_str, TimestampError,
    MAX_TIMESTAMP, MIN_TIMESTAMP,
};

#[test]
fn profile_timestamp_reads_and_writes() {
    let t = deserialize_naive_date_timestamp(1688712542).unwrap();
    assert_eq!(t.timestamp(), 1688712542);
    assert_eq!(serialize_naive_datetime_timestamp_to_str(&t), "1688712542");
}

#[test]
fn epoch_and_negative_timestamps() {
    let zero = deserialize_naive_date_timestamp(0).unwrap();
    assert_eq!(serialize_naive_datetime_timestamp_to_str(&zero), "0");
    let before = deserialize_naive_date_timestamp(-1).unwrap();
    assert_eq!(serialize_naive_datetime_timestamp_to_str(&before), "-1");
    let old = deserialize_naive_date_timestamp(-86_400 * 365 * 3000).unwrap();
    assert_eq!(
        serialize_naive_datetime_timestamp_to_str(&old),
        (-86_400i64 * 365 * 3000).to_string()
    );
}

#[test]
fn out_of_range_timestamps_are_refused() {
    assert_eq!(deserialize_naive_date_timestamp(i64::MAX), Err(TimestampError::OutOfRange));
    assert_eq!(deserialize_naive_date_timestamp(i64::MIN), Err(TimestampError::OutOfRange));
    assert_eq!(
        TimestampError::OutOfRange.message(),
        "unable to construct NaiveDateTime from i64"
    );
}

#[test]
fn range_is_chrono_range() {
    let max = NaiveDateTime::MAX.and_utc().timestamp();
    let min = NaiveDateTime::MIN.and_utc().timestamp();
    assert!(deserialize_naive_date_timestamp(max).is_ok());
    assert!(deserialize_naive_date_timestamp(min).is_ok());
    assert!(deserialize_naive_date_timestamp(max + 1).is_err());
    assert!(deserialize_naive_date_timestamp(min - 1).is_err());
}

#[test]
fn written_timestamp_reads_back() {
    for secs in [0i64, 1, -1, 9, 10, -10, 1688712542, 253402300799, -62135596800] {
        let t = deserialize_naive_date_timestamp(secs).unwrap();
        let text = serialize_naive_datetime_timestamp_to_str(&t);
        assert_eq!(text, secs.to_string());
        let back = deserialize_naive_date_timestamp(text.parse::<i64>().unwrap()).unwrap();
        assert_eq!(back, t);
    }
}

#[test]
fn range_constants_are_chrono_bounds() {
    assert_eq!(MIN_TIMESTAMP, NaiveDateTime::MIN.and_utc().timestamp());
    assert_eq!(MAX_TIMESTAMP, NaiveDateTime::MAX.and_utc().timestamp());
    assert!(deserialize_naive_date_timestamp(MIN_TIMESTAMP).is_ok());
    assert!(deserialize_naive_date_timestamp(MAX_TIMESTAMP).is_ok());
    assert_eq!(deserialize_naive_date_timestamp(MAX_TIMESTAMP + 1), Err(TimestampError::OutOfRange));
    assert_eq!(deserialize_naive_date_timestamp(MIN_TIMESTAMP - 1), Err(TimestampError::OutOfRange));
}
