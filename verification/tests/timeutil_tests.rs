use fedi_sleuth::timeutil::MAX_CIVIL_TIMESTAMP;
use fedi_sleuth::timeutil::Timestamp;
use fedi_sleuth::timeutil::current_timestamp;

#[test]
fn timestamps_are_held_to_the_supported_range() {
    assert_eq!(Timestamp::from_unix(-5).secs, 0);
    assert_eq!(Timestamp::from_unix(0).secs, 0);
    assert_eq!(Timestamp::from_unix(1717243200).secs, 1717243200);
    assert_eq!(Timestamp::from_unix(i64::MAX).secs, MAX_CIVIL_TIMESTAMP);
}

#[test]
fn the_clock_reads_a_supported_instant() {
    let now = current_timestamp();
    assert!(now.secs >= 0);
    assert!(now.secs <= MAX_CIVIL_TIMESTAMP);
    // the clock reads after this crate was written
    assert!(now.secs > 1700000000, "system clock reads {}", now.secs);
}
