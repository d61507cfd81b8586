use note_boi::clock::{millis_to_time, unix_millis, unix_seconds};

#[test]
fn millis_to_time_keeps_a_count_that_fits() {
    assert_eq!(millis_to_time(0), 0);
    assert_eq!(millis_to_time(1), 1);
    assert_eq!(millis_to_time(1700000000123), 1700000000123);
    assert_eq!(millis_to_time(i64::MAX as u128), i64::MAX);
}

#[test]
fn millis_to_time_stops_at_the_greatest_time() {
    assert_eq!(millis_to_time(i64::MAX as u128 + 1), i64::MAX);
    assert_eq!(millis_to_time(u64::MAX as u128), i64::MAX);
    assert_eq!(millis_to_time(u128::MAX), i64::MAX);
}

#[test]
fn unix_millis_and_unix_seconds_read_one_clock() {
    let before = std::time::SystemTime::now()
        .duration_since(std::time::UNIX_EPOCH)
        .unwrap();
    let secs = unix_seconds().unwrap();
    let millis = unix_millis();
    let after = std::time::SystemTime::now()
        .duration_since(std::time::UNIX_EPOCH)
        .unwrap();
    assert!(millis >= 0);
    assert!(before.as_secs() <= secs && secs <= after.as_secs());
    assert!(before.as_millis() as i64 <= millis && millis <= after.as_millis() as i64);
}
