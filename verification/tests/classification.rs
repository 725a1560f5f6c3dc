use gc_rs::classify::{classify, Classification};
use gc_rs::event::Event;
use gc_rs::time::{Instant, Span};

const NOW: i64 = 1_700_000_000;
const MINUTE: i64 = 60;
const HOUR: i64 = 3600;

fn at(seconds: i64) -> Instant {
    Instant::new(seconds, 0)
}

fn timed(start: Option<i64>, end: Option<i64>) -> Event {
    Event {
        summary: None,
        start: start.map(at),
        end: end.map(at),
        recurring_id: None,
        meet_link: None,
        conference: None,
    }
}

fn state(event: &Event, now: i64, window_minutes: u32) -> Classification {
    classify(event, &at(now), &Span::from_minutes(window_minutes))
}

#[test]
fn event_around_now_is_ongoing() {
    let event = timed(Some(NOW - HOUR), Some(NOW + HOUR));
    assert_eq!(state(&event, NOW, 15), Classification::Ongoing);
}

#[test]
fn event_in_ten_minutes_is_starting_soon_with_fifteen_minute_window() {
    let event = timed(Some(NOW + 10 * MINUTE), Some(NOW + 40 * MINUTE));
    assert_eq!(state(&event, NOW, 15), Classification::StartingSoon);
}

#[test]
fn event_in_twenty_minutes_depends_on_the_window() {
    let event = timed(Some(NOW + 20 * MINUTE), Some(NOW + 50 * MINUTE));
    assert_eq!(state(&event, NOW, 15), Classification::Upcoming);
    assert_eq!(state(&event, NOW, 30), Classification::StartingSoon);
}

#[test]
fn event_in_the_past_is_ended() {
    let event = timed(Some(NOW - 2 * HOUR), Some(NOW - HOUR));
    assert_eq!(state(&event, NOW, 15), Classification::Ended);
}

#[test]
fn event_far_ahead_is_upcoming() {
    let event = timed(Some(NOW + 3 * HOUR), Some(NOW + 4 * HOUR));
    assert_eq!(state(&event, NOW, 30), Classification::Upcoming);
}

#[test]
fn event_without_times_is_undetermined() {
    let event = timed(None, None);
    assert_eq!(state(&event, NOW, 15), Classification::Undetermined);
}

#[test]
fn event_with_only_a_past_end_is_ended() {
    let event = timed(None, Some(NOW - MINUTE));
    assert_eq!(state(&event, NOW, 15), Classification::Ended);
}

#[test]
fn event_with_only_a_future_end_is_undetermined() {
    let event = timed(None, Some(NOW + MINUTE));
    assert_eq!(state(&event, NOW, 15), Classification::Undetermined);
}

#[test]
fn started_event_without_end_is_ongoing() {
    let event = timed(Some(NOW - MINUTE), None);
    assert_eq!(state(&event, NOW, 15), Classification::Ongoing);
}

#[test]
fn future_event_without_end_is_soon_or_upcoming() {
    let event = timed(Some(NOW + 5 * MINUTE), None);
    assert_eq!(state(&event, NOW, 15), Classification::StartingSoon);
    assert_eq!(state(&event, NOW, 1), Classification::Upcoming);
}

#[test]
fn ongoing_goes_before_starting_soon() {
    // Started five minutes ago: the start lies within the window as well.
    let event = timed(Some(NOW - 5 * MINUTE), Some(NOW + 25 * MINUTE));
    assert_eq!(state(&event, NOW, 15), Classification::Ongoing);
    assert_eq!(state(&event, NOW, 30), Classification::Ongoing);
    assert_eq!(state(&event, NOW, 0), Classification::Ongoing);
}

#[test]
fn event_starting_exactly_now_is_ongoing() {
    let event = timed(Some(NOW), Some(NOW + HOUR));
    assert_eq!(state(&event, NOW, 15), Classification::Ongoing);
}

#[test]
fn event_ending_exactly_now_is_ended() {
    let event = timed(Some(NOW - HOUR), Some(NOW));
    assert_eq!(state(&event, NOW, 15), Classification::Ended);
}

#[test]
fn window_edge_is_inclusive() {
    let on_edge = timed(Some(NOW + 15 * MINUTE), Some(NOW + HOUR));
    assert_eq!(state(&on_edge, NOW, 15), Classification::StartingSoon);
    let mut past_edge = on_edge.clone();
    past_edge.start = Some(Instant::new(NOW + 15 * MINUTE, 1));
    assert_eq!(state(&past_edge, NOW, 15), Classification::Upcoming);
}

#[test]
fn nanoseconds_decide_between_started_and_not() {
    let event = timed(Some(NOW), Some(NOW + HOUR));
    let just_before = Instant::new(NOW - 1, 999_999_999);
    let window = Span::from_minutes(15);
    assert_eq!(classify(&event, &just_before, &window), Classification::StartingSoon);
    let mut late_start = event.clone();
    late_start.start = Some(Instant::new(NOW, 1));
    assert_eq!(classify(&late_start, &at(NOW), &window), Classification::StartingSoon);
    assert_eq!(classify(&late_start, &Instant::new(NOW, 1), &window), Classification::Ongoing);
}

#[test]
fn ongoing_event_was_ongoing_since_its_start() {
    let start = NOW - HOUR;
    let event = timed(Some(start), Some(NOW + HOUR));
    assert_eq!(state(&event, NOW, 15), Classification::Ongoing);
    let mut earlier = start;
    while earlier <= NOW {
        assert_eq!(state(&event, earlier, 15), Classification::Ongoing);
        assert_eq!(state(&event, earlier, 30), Classification::Ongoing);
        earlier += 7 * MINUTE;
    }
    assert_eq!(state(&event, start - 1, 15), Classification::StartingSoon);
}

#[test]
fn every_combination_of_times_has_its_state() {
    let moments = [None, Some(NOW - HOUR), Some(NOW), Some(NOW + 10 * MINUTE), Some(NOW + HOUR)];
    for start in moments {
        for end in moments {
            if let (Some(s), Some(e)) = (start, end) {
                if s > e {
                    continue;
                }
            }
            let event = timed(start, end);
            assert!(event.is_chronological());
            let now = at(NOW);
            let ongoing = event.has_started(&now) && !event.has_ended(&now);
            let soon = !event.has_started(&now) && start.map_or(false, |s| s <= NOW + 15 * MINUTE);
            let ended = event.has_ended(&now);
            let expected = if ongoing {
                Classification::Ongoing
            } else if soon {
                Classification::StartingSoon
            } else if ended {
                Classification::Ended
            } else if start.is_some() {
                Classification::Upcoming
            } else {
                Classification::Undetermined
            };
            // The three conditions exclude one another on such events.
            assert!([ongoing, soon, ended].iter().filter(|held| **held).count() <= 1);
            assert_eq!(state(&event, NOW, 15), expected);
        }
    }
}

#[test]
fn event_that_ends_before_it_starts_is_starting_soon_not_ended() {
    let event = timed(Some(NOW + 5 * MINUTE), Some(NOW - 5 * MINUTE));
    assert!(!event.is_chronological());
    assert_eq!(state(&event, NOW, 15), Classification::StartingSoon);
}

#[test]
fn negative_window_makes_nothing_soon() {
    let event = timed(Some(NOW + MINUTE), Some(NOW + HOUR));
    let window = Span::new(-600, 0);
    assert_eq!(classify(&event, &at(NOW), &window), Classification::Upcoming);
}
