use otel_rust_demo::clock::{
    number_after, number_at, pseudo_random_range, range_value, ClockBeforeEpoch,
};
use otel_rust_demo::text::decimal_text;
use std::time::{Duration, UNIX_EPOCH};

#[test]
fn range_value_counts_off_from_the_lower_end() {
    assert_eq!(range_value(0, 5, 20), 5);
    assert_eq!(range_value(15, 5, 20), 20);
    assert_eq!(range_value(16, 5, 20), 5);
    assert_eq!(range_value(999_999_999, 1, 100), 100);
    assert_eq!(range_value(999_999_999, 1000, 9999), 1000 + 999_999_999 % 9000);
    assert_eq!(range_value(123, 7, 7), 7);
    assert_eq!(range_value(4_294_967_295, 0, u64::MAX - 1), 4_294_967_295);
}

#[test]
fn every_number_of_a_range_is_drawn() {
    for value in 10..=500u64 {
        assert_eq!(range_value((value - 10) as u32, 10, 500), value);
    }
}

#[test]
fn the_nanoseconds_of_the_reading_give_the_number() {
    let reading = UNIX_EPOCH + Duration::new(1_700_000_000, 123_456_789);
    assert_eq!(number_at(reading, 10, 60), Ok(10 + 123_456_789 % 51));
    assert_eq!(number_at(reading, 0, 999_999_999), Ok(123_456_789));
    assert_eq!(number_at(UNIX_EPOCH, 5, 20), Ok(5));
    assert_eq!(number_after(Ok(Duration::new(9, 7)), 5, 20), Ok(12));
}

#[test]
fn no_number_is_drawn_before_the_epoch() {
    let earlier = UNIX_EPOCH - Duration::new(1, 5);
    assert_eq!(number_at(earlier, 5, 20), Err(ClockBeforeEpoch));
    assert_eq!(
        number_after(earlier.duration_since(UNIX_EPOCH), 5, 20),
        Err(ClockBeforeEpoch)
    );
}

#[test]
fn pseudo_random_range_stays_in_range() {
    for _ in 0..1000 {
        let value = pseudo_random_range(10, 60).unwrap();
        assert!(10 <= value && value <= 60);
        assert_eq!(pseudo_random_range(3, 3), Ok(3));
    }
}

#[test]
fn pseudo_random_range_varies() {
    let first = pseudo_random_range(0, 999_999_999).unwrap();
    let mut differs = false;
    for _ in 0..100_000 {
        if pseudo_random_range(0, 999_999_999).unwrap() != first {
            differs = true;
        }
    }
    assert!(differs);
}

#[test]
fn decimal_text_matches_display() {
    for n in [0u64, 1, 9, 10, 99, 100, 402, 9999, 65535, u64::MAX] {
        assert_eq!(decimal_text(n), format!("{n}"));
    }
}
