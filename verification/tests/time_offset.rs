use quick::datetime::{
    apply_offset_to_timestamp_millis, apply_offset_to_timestamp_seconds, get_raw_timestamp_millis,
    get_time_offset, get_timestamp_millis, get_timestamp_seconds, offset_clock_reading,
    set_time_offset, timestamp_seconds_from_millis, TimeOffset,
};

#[test]
fn test_time_offset() {
    let mut clock = TimeOffset::new();
    set_time_offset(&mut clock, chrono::Utc::now().timestamp_millis() + 1000);
    let local_time = chrono::Utc::now().timestamp_millis();
    let adjusted_time = get_timestamp_millis(&clock).unwrap();
    assert!(adjusted_time > local_time);
    println!("Local time: {}, Adjusted time: {}", local_time, adjusted_time);
}

#[test]
fn test_apply_offset() {
    let mut clock = TimeOffset::new();
    set_time_offset(&mut clock, chrono::Utc::now().timestamp_millis() + 1000);

    let test_time = chrono::Utc::now().timestamp_millis();
    let adjusted_time = apply_offset_to_timestamp_millis(&clock, test_time);

    assert_eq!(adjusted_time - test_time, get_time_offset(&clock));
    println!(
        "Time: {}, After offset: {}, Difference: {}",
        test_time,
        adjusted_time,
        adjusted_time - test_time
    );
}

#[test]
fn offset_starts_at_zero_and_is_stored() {
    let mut clock = TimeOffset::new();
    assert_eq!(get_time_offset(&clock), 0);
    set_time_offset(&mut clock, -250);
    assert_eq!(get_time_offset(&clock), -250);
    assert_eq!(apply_offset_to_timestamp_millis(&clock, 1_000), 750);
}

#[test]
fn clock_reading_gets_the_offset() {
    let mut clock = TimeOffset::new();
    set_time_offset(&mut clock, 1000);
    assert_eq!(offset_clock_reading(&clock, 5_000), 6_000);
    let raw = get_raw_timestamp_millis().unwrap();
    assert!(raw > 1_600_000_000_000);
    let adjusted = get_timestamp_millis(&clock).unwrap();
    assert!(adjusted >= raw + 1000);
    let secs = get_timestamp_seconds(&clock).unwrap();
    assert!(secs >= (raw + 1000) / 1000);
}

#[test]
fn seconds_round_toward_zero() {
    assert_eq!(timestamp_seconds_from_millis(1999), 1);
    assert_eq!(timestamp_seconds_from_millis(-1999), -1);
    assert_eq!(timestamp_seconds_from_millis(0), 0);
    let mut clock = TimeOffset::new();
    set_time_offset(&mut clock, 2500);
    assert_eq!(apply_offset_to_timestamp_seconds(&clock, 100), 102);
    set_time_offset(&mut clock, -2500);
    assert_eq!(apply_offset_to_timestamp_seconds(&clock, 100), 98);
}
