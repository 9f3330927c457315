use nestri_server::latency::{earliest_and_latest, Instant, LatencyTracker, TimestampEntry};

fn entry(stage: &str, time: &str) -> TimestampEntry {
    TimestampEntry { stage: stage.to_string(), time: time.to_string() }
}

#[test]
fn new_tracker_is_empty() {
    let t = LatencyTracker::new("seq-1".to_string());
    assert_eq!(t.sequence_id(), "seq-1");
    assert!(t.timestamps.is_empty());
    assert!(t.metadata.is_none());
    assert_eq!(t.total_latency(), None);
}

#[test]
fn add_timestamp_records_stage_and_time() {
    let mut t = LatencyTracker::new("s".to_string());
    t.add_timestamp("capture");
    t.add_timestamp("encode");
    assert_eq!(t.timestamps.len(), 2);
    assert_eq!(t.timestamps[0].stage, "capture");
    assert_eq!(t.timestamps[1].stage, "encode");
    assert!(t.timestamps[1].time.ends_with('Z'));
    let latency = t.total_latency().unwrap();
    assert!(latency >= 0);
}

#[test]
fn latency_spans_earliest_to_latest() {
    let mut t = LatencyTracker::new("s".to_string());
    t.timestamps.push(entry("b", "2024-01-01T00:00:01.500000000Z"));
    t.timestamps.push(entry("a", "2024-01-01T00:00:00.000000000Z"));
    t.timestamps.push(entry("c", "2024-01-01T00:00:01.250000000Z"));
    assert_eq!(t.total_latency(), Some(1500));
}

#[test]
fn latency_honours_offsets() {
    let mut t = LatencyTracker::new("s".to_string());
    t.timestamps.push(entry("a", "2024-01-01T01:00:00+01:00"));
    t.timestamps.push(entry("b", "2024-01-01T00:00:02.0009Z"));
    assert_eq!(t.total_latency(), Some(2000));
}

#[test]
fn latency_needs_two_parsable_stamps() {
    let mut t = LatencyTracker::new("s".to_string());
    t.timestamps.push(entry("a", "2024-01-01T00:00:00Z"));
    assert_eq!(t.total_latency(), None);
    t.timestamps.push(entry("b", "not a time"));
    assert_eq!(t.total_latency(), None);
}

#[test]
fn earliest_and_latest_of_instants() {
    let i = |secs: i64, nanos: u32| Instant { secs, nanos };
    assert_eq!(earliest_and_latest(&[]), None);
    assert_eq!(earliest_and_latest(&[i(5, 0)]), Some((i(5, 0), i(5, 0))));
    assert_eq!(
        earliest_and_latest(&[i(1, 500), i(0, 999_999_999), i(1, 250), i(1, 500)]),
        Some((i(0, 999_999_999), i(1, 500)))
    );
    assert_eq!(earliest_and_latest(&[i(-3, 0), i(-3, 1), i(-4, 7)]), Some((i(-4, 7), i(-3, 1))));
}

#[test]
fn latency_is_never_negative_outside_leap_seconds() {
    let mut t = LatencyTracker::new("s".to_string());
    t.timestamps.push(entry("late", "2024-01-01T00:00:05.999Z"));
    t.timestamps.push(entry("early", "2024-01-01T00:00:05.998Z"));
    t.timestamps.push(entry("mid", "2024-01-01T00:00:05.9985Z"));
    assert_eq!(t.total_latency(), Some(1));
}

#[test]
fn latency_does_not_depend_on_stamp_order() {
    let times = ["2024-01-01T00:00:01.500Z", "2024-01-01T00:00:00Z", "2024-01-01T00:00:01.250Z"];
    let mut a = LatencyTracker::new("a".to_string());
    let mut b = LatencyTracker::new("b".to_string());
    for (i, t) in times.iter().enumerate() {
        a.timestamps.push(entry(&i.to_string(), t));
    }
    for (i, t) in times.iter().enumerate().rev() {
        b.timestamps.push(entry(&i.to_string(), t));
    }
    assert_eq!(a.total_latency(), Some(1500));
    assert_eq!(a.total_latency(), b.total_latency());
}

#[test]
fn leap_second_span_across_midnight() {
    let mut t = LatencyTracker::new("s".to_string());
    t.timestamps.push(entry("leap", "2016-12-31T23:59:60.500Z"));
    t.timestamps.push(entry("next", "2017-01-01T00:00:00Z"));
    assert_eq!(t.total_latency(), Some(-500));
}
