//! How far through a log a view is.
use chrono::{DateTime, TimeZone, Utc};
use dtop::containers::ContainerKey;
use dtop::logs::{LogEntry, LogState, Progress};
use dtop::outside::{Timestamp, MAX_UNIX_SECOND, MIN_UNIX_SECOND};

fn timestamp(t: DateTime<Utc>) -> Timestamp {
    Timestamp {
        secs: t.timestamp(),
        nanos: t.timestamp_subsec_nanos(),
    }
}

fn at(secs: i64) -> Timestamp {
    Timestamp { secs, nanos: 0 }
}

fn state(created: Option<Timestamp>) -> LogState<String, ()> {
    let key = ContainerKey::new("local".to_string(), "abc123456789".to_string());
    LogState::new(key, created)
}

fn entries(times: &[Timestamp]) -> Vec<LogEntry> {
    times
        .iter()
        .map(|t| LogEntry {
            timestamp: *t,
            message: "line".to_string(),
        })
        .collect()
}

fn viewed(created: Timestamp, newest: Timestamp, visible: Timestamp) -> Option<Progress> {
    let mut logs = state(Some(created));
    logs.newest_timestamp = Some(newest);
    logs.set_entries(entries(&[visible]), vec!["line".to_string()]);
    logs.calculate_progress(0)
}

#[test]
fn a_new_log_is_empty() {
    let logs = state(Some(at(5)));
    assert_eq!(logs.container_created_at, Some(at(5)));
    assert!(logs.log_entries.is_empty());
    assert!(logs.formatted_lines.is_empty());
    assert_eq!(logs.scroll_offset, 0);
    assert!(logs.stream_handle.is_none());
    assert_eq!(logs.oldest_timestamp, None);
    assert_eq!(logs.newest_timestamp, None);
    assert!(!logs.has_more_history);
    assert_eq!(logs.total_loaded, 0);
    assert!(!logs.fetching_older);
}

#[test]
fn progress_needs_its_timestamps_and_an_entry() {
    let mut logs = state(None);
    logs.newest_timestamp = Some(at(10));
    logs.set_entries(entries(&[at(5)]), vec!["line".to_string()]);
    assert_eq!(logs.calculate_progress(0), None);

    let mut logs = state(Some(at(0)));
    logs.set_entries(entries(&[at(5)]), vec!["line".to_string()]);
    assert_eq!(logs.calculate_progress(0), None);

    let mut logs = state(Some(at(0)));
    logs.newest_timestamp = Some(at(10));
    assert_eq!(logs.calculate_progress(0), None);
}

#[test]
fn progress_runs_from_creation_to_the_newest_log() {
    let within = |offset| Some(Progress::Within { offset, total: 200 });
    assert_eq!(viewed(at(1000), at(1200), at(1000)), within(0));
    assert_eq!(viewed(at(1000), at(1200), at(1050)), within(50));
    assert_eq!(viewed(at(1000), at(1200), at(1200)), within(200));
    // Before the creation and after the newest log the view stays at the ends.
    assert_eq!(viewed(at(1000), at(1200), at(900)), within(0));
    assert_eq!(viewed(at(1000), at(1200), at(1300)), within(200));
}

#[test]
fn a_history_without_length_is_complete() {
    assert_eq!(viewed(at(10), at(10), at(10)), Some(Progress::Complete));
    assert_eq!(viewed(at(10), at(5), at(10)), Some(Progress::Complete));
    let soon = Timestamp {
        secs: 10,
        nanos: 999_999_999,
    };
    assert_eq!(viewed(at(10), soon, at(10)), Some(Progress::Complete));
}

#[test]
fn an_index_beyond_the_entries_views_the_last() {
    let mut logs = state(Some(at(0)));
    logs.newest_timestamp = Some(at(100));
    logs.set_entries(
        entries(&[at(10), at(20), at(30)]),
        vec!["a".to_string(), "b".to_string(), "c".to_string()],
    );
    let within = |offset| Some(Progress::Within { offset, total: 100 });
    assert_eq!(logs.calculate_progress(1), within(20));
    assert_eq!(logs.calculate_progress(3), within(30));
    assert_eq!(logs.calculate_progress(usize::MAX), within(30));
}

#[test]
fn seconds_are_those_between_dates() {
    let created = Utc.with_ymd_and_hms(2025, 10, 29, 15, 30, 0).unwrap();
    let samples = [
        (2025, 10, 29, 15, 30, 59, 1_500_000_000u32),
        (2025, 10, 30, 0, 0, 0, 1),
        (2024, 2, 29, 23, 59, 59, 1_999_999_999),
        (2026, 1, 1, 12, 0, 0, 999_999_999),
        (1960, 5, 5, 5, 5, 5, 5),
    ];
    let leap = DateTime::from_timestamp(created.timestamp() - 1, 1_250_000_000).unwrap();
    let mut times: Vec<DateTime<Utc>> = samples
        .iter()
        .map(|(y, m, d, h, min, s, n)| {
            let t = Utc.with_ymd_and_hms(*y, *m, *d, *h, *min, *s).unwrap();
            DateTime::from_timestamp(t.timestamp(), *n).unwrap()
        })
        .collect();
    times.push(created);
    times.push(leap);
    for a in &times {
        for b in &times {
            let expected = (*b - *a).num_seconds();
            match viewed(timestamp(*a), timestamp(*b), timestamp(*b)) {
                Some(Progress::Complete) => assert!(expected <= 0, "{a} {b}"),
                Some(Progress::Within { offset, total }) => {
                    assert_eq!(total, expected, "{a} {b}");
                    assert_eq!(offset, expected, "{a} {b}");
                }
                None => panic!("no progress for {a} {b}"),
            }
        }
    }
}

#[test]
fn dates_end_where_they_are_said_to() {
    assert_eq!(DateTime::<Utc>::MIN_UTC.timestamp(), MIN_UNIX_SECOND);
    assert_eq!(DateTime::<Utc>::MAX_UTC.timestamp(), MAX_UNIX_SECOND);
    assert_eq!(
        viewed(at(MIN_UNIX_SECOND), at(MAX_UNIX_SECOND), at(MIN_UNIX_SECOND)),
        Some(Progress::Within {
            offset: 0,
            total: MAX_UNIX_SECOND - MIN_UNIX_SECOND,
        })
    );
}
