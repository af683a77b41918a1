use chrono::Utc;
use journald_to_cloudwatch::event::LogEvent;
use journald_to_cloudwatch::grouping::{do_group_events, sort_by_timestamp, GROUP_SPAN_MS};
use std::time::Duration;

fn event(message: &str, timestamp: i64) -> LogEvent {
    LogEvent::new(message.to_string(), timestamp)
}

#[test]
fn test_events_more_than_24h_apart() {
    let sooner = Utc::now().timestamp_millis()
        - i64::try_from(Duration::from_secs(86400 * 2).as_millis()).unwrap();
    let later = Utc::now().timestamp_millis();
    let mut events = Vec::with_capacity(3);
    events.push(LogEvent::new("ev1".to_string(), sooner));
    events.push(LogEvent::new("ev2".to_string(), sooner + 42));
    events.push(LogEvent::new("ev3".to_string(), later));
    assert_eq!(do_group_events(events).len(), 2);
}

#[test]
fn test_events_separated_by_17_apart() {
    let interval = i64::try_from(Duration::from_secs(17 * 60 * 60).as_millis()).unwrap();
    let mut events = Vec::with_capacity(3);
    let now = Utc::now().timestamp_millis();
    events.push(LogEvent::new("ev1".to_string(), now - (2 * interval)));
    events.push(LogEvent::new("ev2".to_string(), now - interval));
    events.push(LogEvent::new("ev3".to_string(), now));
    assert_eq!(do_group_events(events).len(), 3);
}

#[test]
fn two_days_apart_make_two_groups() {
    let t: i64 = 1_700_000_000_000;
    let two_days: i64 = 172_800_000;
    let events = vec![event("ev1", t - two_days), event("ev2", t - two_days + 42), event("ev3", t)];
    assert_eq!(
        do_group_events(events),
        vec![
            vec![event("ev1", t - two_days), event("ev2", t - two_days + 42)],
            vec![event("ev3", t)],
        ]
    );
}

#[test]
fn seventeen_hours_apart_make_three_groups() {
    let t: i64 = 1_700_000_000_000;
    let interval: i64 = 61_200_000;
    let events = vec![event("ev1", t - 2 * interval), event("ev2", t - interval), event("ev3", t)];
    assert_eq!(
        do_group_events(events),
        vec![
            vec![event("ev1", t - 2 * interval)],
            vec![event("ev2", t - interval)],
            vec![event("ev3", t)],
        ]
    );
}

#[test]
fn no_events_make_no_group() {
    assert_eq!(do_group_events(Vec::new()), Vec::<Vec<LogEvent>>::new());
}

#[test]
fn sixteen_hours_exactly_stay_in_one_group() {
    assert_eq!(GROUP_SPAN_MS, 57_600_000);
    let events = vec![event("a", 1000), event("b", 1000 + 57_600_000)];
    assert_eq!(do_group_events(events.clone()), vec![events]);
    let events = vec![event("a", 1000), event("b", 1000 + 57_600_001)];
    assert_eq!(
        do_group_events(events),
        vec![vec![event("a", 1000)], vec![event("b", 57_601_001)]]
    );
}

#[test]
fn a_group_is_measured_from_its_first_event() {
    let hour: i64 = 3_600_000;
    let events = vec![
        event("a", 0),
        event("b", 10 * hour),
        event("c", 16 * hour),
        event("d", 17 * hour),
        event("e", 26 * hour),
        event("f", 33 * hour),
        event("g", 33 * hour + 1),
    ];
    let groups = do_group_events(events);
    let stamps: Vec<Vec<i64>> =
        groups.iter().map(|group| group.iter().map(|e| e.timestamp / hour).collect()).collect();
    assert_eq!(stamps, vec![vec![0, 10, 16], vec![17, 26, 33], vec![33]]);
}

#[test]
fn events_are_sorted_before_they_are_grouped() {
    let hour: i64 = 3_600_000;
    let events =
        vec![event("late", 30 * hour), event("early", 0), event("mid", 20 * hour), event("early2", hour)];
    assert_eq!(
        do_group_events(events),
        vec![
            vec![event("early", 0), event("early2", hour)],
            vec![event("mid", 20 * hour), event("late", 30 * hour)],
        ]
    );
}

#[test]
fn sorting_keeps_the_order_of_equal_timestamps() {
    let events = vec![
        event("b1", 2),
        event("a1", 1),
        event("b2", 2),
        event("c1", 3),
        event("a2", 1),
        event("b3", 2),
    ];
    let sorted = sort_by_timestamp(&events);
    let messages: Vec<&str> = sorted.iter().map(|e| e.message.as_str()).collect();
    assert_eq!(messages, vec!["a1", "a2", "b1", "b2", "b3", "c1"]);
    assert_eq!(do_group_events(events), vec![sorted]);
}

#[test]
fn extreme_timestamps_do_not_overflow() {
    let events = vec![event("max", i64::MAX), event("min", i64::MIN), event("zero", 0)];
    assert_eq!(
        do_group_events(events),
        vec![vec![event("min", i64::MIN)], vec![event("zero", 0)], vec![event("max", i64::MAX)]]
    );
}

fn sample(seed: u64, count: usize) -> Vec<LogEvent> {
    let mut state = seed;
    let mut events = Vec::new();
    for i in 0..count {
        state = state.wrapping_mul(6364136223846793005).wrapping_add(1442695040888963407);
        let timestamp = ((state >> 33) % 400_000_000) as i64;
        events.push(event(&format!("e{}", i), timestamp - (timestamp % 7_000_000)));
    }
    events
}

#[test]
fn groups_span_sixteen_hours_at_most_and_make_up_the_sorted_input() {
    for seed in 0..20 {
        let events = sample(seed, 60);
        let groups = do_group_events(events.clone());
        for group in groups.iter() {
            assert!(!group.is_empty());
            let oldest = group.iter().map(|e| e.timestamp).min().unwrap();
            let newest = group.iter().map(|e| e.timestamp).max().unwrap();
            assert!(newest - oldest <= 57_600_000);
        }
        for pair in groups.windows(2) {
            assert!(pair[1][0].timestamp - pair[0][0].timestamp > 57_600_000);
        }
        let mut expected = events.clone();
        expected.sort_by(|a, b| a.timestamp.cmp(&b.timestamp));
        let joined: Vec<LogEvent> = groups.into_iter().flatten().collect();
        assert_eq!(joined, expected);
        assert_eq!(sort_by_timestamp(&events), expected);
    }
}

#[test]
fn grouping_a_group_again_leaves_it_in_one_piece() {
    for seed in 0..20 {
        let groups = do_group_events(sample(seed, 60));
        for group in groups {
            assert_eq!(do_group_events(group.clone()), vec![group]);
        }
    }
}
