use chrono::{DateTime, Duration, Utc};
use gc_rs::time::{Instant, Span};

fn moment(seconds: i64, nanos: u32) -> DateTime<Utc> {
    DateTime::from_timestamp(seconds, nanos).unwrap()
}

fn instant_of(moment: &DateTime<Utc>) -> Instant {
    Instant::new(moment.timestamp(), moment.timestamp_subsec_nanos())
}

fn samples() -> Vec<DateTime<Utc>> {
    vec![
        moment(-86_400, 0),
        moment(-1, 999_999_999),
        moment(0, 0),
        moment(0, 1),
        moment(1_700_000_000, 0),
        moment(1_700_000_000, 500_000_000),
        moment(1_700_000_001, 0),
        moment(1_700_001_800, 0),
        moment(253_402_300_799, 999_999_999),
    ]
}

#[test]
fn instant_counts_nanoseconds_since_the_epoch() {
    assert_eq!(Instant::new(0, 0).since_epoch(), 0);
    assert_eq!(Instant::new(1, 5).since_epoch(), 1_000_000_005);
    assert_eq!(Instant::new(-1, 999_999_999).since_epoch(), -1);
    assert_eq!(
        Instant::new(i64::MAX, u32::MAX).since_epoch(),
        i64::MAX as i128 * 1_000_000_000 + u32::MAX as i128
    );
    assert_eq!(Instant::new(i64::MIN, 0).since_epoch(), i64::MIN as i128 * 1_000_000_000);
}

#[test]
fn span_counts_nanoseconds() {
    assert_eq!(Span::from_minutes(0).length(), 0);
    assert_eq!(Span::from_minutes(15).length(), 900_000_000_000);
    assert_eq!(Span::from_minutes(30).length(), 1_800_000_000_000);
    assert_eq!(Span::from_minutes(u32::MAX).length(), u32::MAX as i128 * 60_000_000_000);
    assert_eq!(Span::new(-1, 500_000_000).length(), -500_000_000);
}

#[test]
fn instants_are_ordered_as_the_moments_they_stand_for() {
    for a in samples() {
        for b in samples() {
            assert_eq!(instant_of(&a).is_at_or_before(&instant_of(&b)), a <= b);
            assert_eq!(instant_of(&a).is_after(&instant_of(&b)), a > b);
        }
    }
}

#[test]
fn window_reaches_as_far_as_the_added_duration() {
    for minutes in [0u32, 15, 30] {
        let duration = Duration::try_minutes(minutes as i64).unwrap();
        let window = Span::from_minutes(minutes);
        assert_eq!(window.length(), duration.num_nanoseconds().unwrap() as i128);
        for a in samples() {
            for b in samples() {
                assert_eq!(
                    instant_of(&a).is_within(&instant_of(&b), &window),
                    a <= b + duration
                );
            }
        }
    }
}

#[test]
fn extreme_instants_do_not_overflow() {
    let first = Instant::new(i64::MIN, 0);
    let last = Instant::new(i64::MAX, u32::MAX);
    let longest = Span::new(i64::MAX, u32::MAX);
    let shortest = Span::new(i64::MIN, 0);
    assert!(first.is_at_or_before(&last));
    assert!(last.is_after(&first));
    assert!(last.is_within(&last, &longest));
    assert!(!last.is_within(&first, &shortest));
    assert!(first.is_within(&last, &shortest));
}
