use jira_tracker::error::TrackerError;
use jira_tracker::store::TrackerStore;
use jira_tracker::time::LocalTime;

const SEC: u128 = 1_000_000_000;

fn created() -> LocalTime {
    LocalTime { unix_secs: 1_700_000_000, subsec_nanos: 0, utc_offset_secs: 3600 }
}

fn store_with(keys: &[&str]) -> TrackerStore {
    let mut store = TrackerStore::new();
    for (n, key) in keys.iter().enumerate() {
        store.create_tracker_at(key, &format!("{}", 10000 + n), created()).unwrap();
    }
    store
}

fn listing(store: &TrackerStore, now: u128) -> Vec<(String, String, Option<String>, u128, bool)> {
    store
        .list_trackers(now)
        .into_iter()
        .map(|t| (t.key, t.id, t.description, t.duration, t.running))
        .collect()
}

#[test]
fn create_then_get_shows_zero() {
    let mut store = TrackerStore::new();
    let info = store.create_tracker_at("ABC-123", "10001", created()).unwrap();
    assert_eq!(info.key, "ABC-123");
    assert_eq!(info.duration, 0);
    assert!(!info.running);
    let got = store.get_tracker("ABC-123", 50 * SEC).unwrap();
    assert_eq!(got.key, "ABC-123");
    assert_eq!(got.id, "10001");
    assert_eq!(got.description, None);
    assert_eq!(got.duration, 0);
    assert!(!got.running);
    assert_eq!(got.start_time, created());
}

#[test]
fn create_reads_local_clock() {
    let mut store = TrackerStore::new();
    let info = store.create_tracker("NOW-1", "9").unwrap();
    assert_eq!(info.duration, 0);
    assert!(!info.running);
    assert!(info.start_time.unix_secs > 1_600_000_000);
    assert!(info.start_time.subsec_nanos < 2_000_000_000);
    assert_eq!(store.create_tracker("NOW-1", "9").unwrap_err(), TrackerError::OccupiedError);
    assert_eq!(store.create_tracker("now", "9").unwrap_err(), TrackerError::KeyFormatError);
}

#[test]
fn create_with_another_running_leaves_it_running() {
    let mut store = store_with(&["A-1"]);
    store.start("A-1", 0).unwrap();
    let info = store.create_tracker_at("B-2", "7", created()).unwrap();
    assert!(!info.running);
    assert_eq!(store.current(3 * SEC).unwrap().key, "A-1");
    assert_eq!(store.get_tracker("B-2", 3 * SEC).unwrap().duration, 0);
}

#[test]
fn malformed_key_is_rejected() {
    let mut store = store_with(&["ABC-1"]);
    for key in ["bad key", "", "ABC", "ABC-", "-12", "ABC 12"] {
        let err = store.create_tracker_at(key, "1", created()).unwrap_err();
        assert_eq!(err, TrackerError::KeyFormatError);
    }
    assert_eq!(listing(&store, 0), vec![("ABC-1".to_string(), "10000".to_string(), None, 0, false)]);
}

#[test]
fn checked_create_follows_the_given_verdict() {
    let mut store = TrackerStore::new();
    let err = store.create_tracker_checked("A-1", false, "1", created()).unwrap_err();
    assert_eq!(err, TrackerError::KeyFormatError);
    assert!(store.list_trackers(0).is_empty());
    let info = store.create_tracker_checked("any text", true, "2", created()).unwrap();
    assert_eq!(info.key, "any text");
    assert_eq!(info.id, "2");
    assert_eq!(info.duration, 0);
    let err = store.create_tracker_checked("any text", true, "3", created()).unwrap_err();
    assert_eq!(err, TrackerError::OccupiedError);
    assert_eq!(store.get_tracker("any text", 0).unwrap().id, "2");
}

#[test]
fn key_pattern_is_searched_not_anchored() {
    let mut store = TrackerStore::new();
    assert!(store.create_tracker_at("see PROJ-42 here", "1", created()).is_ok());
    assert!(store.create_tracker_at("a_b-0", "2", created()).is_ok());
    assert_eq!(store.list_trackers(0).len(), 2);
}

#[test]
fn duplicate_create_is_occupied() {
    let mut store = store_with(&["ABC-1"]);
    store.set_description("ABC-1", Some("first".to_string()), 0).unwrap();
    store.adjust_positive_duration("ABC-1", 30 * SEC, 0).unwrap();
    let before = listing(&store, 0);
    let err = store.create_tracker_at("ABC-1", "other", created()).unwrap_err();
    assert_eq!(err, TrackerError::OccupiedError);
    assert_eq!(listing(&store, 0), before);
    let t = store.get_tracker("ABC-1", 0).unwrap();
    assert_eq!(t.id, "10000");
    assert_eq!(t.description, Some("first".to_string()));
    assert_eq!(t.duration, 30);
}

#[test]
fn start_then_start_other_switches() {
    let mut store = store_with(&["A-1", "B-2"]);
    let a = store.start("A-1", 10 * SEC).unwrap();
    assert!(a.running);
    let b = store.start("B-2", 25 * SEC).unwrap();
    assert!(b.running);
    assert_eq!(b.duration, 0);
    let cur = store.current(25 * SEC).unwrap();
    assert_eq!(cur.key, "B-2");
    assert!(cur.running);
    let a_later = store.get_tracker("A-1", 100 * SEC).unwrap();
    assert_eq!(a_later.duration, 15);
    assert!(!a_later.running);
    assert_eq!(store.get_tracker("B-2", 100 * SEC).unwrap().duration, 75);
}

#[test]
fn restarting_same_key_folds_time() {
    let mut store = store_with(&["A-1"]);
    store.start("A-1", 0).unwrap();
    let again = store.start("A-1", 5 * SEC).unwrap();
    assert!(again.running);
    assert_eq!(again.duration, 5);
    assert_eq!(store.get_tracker("A-1", 8 * SEC).unwrap().duration, 8);
    store.pause(8 * SEC);
    let removed = store.remove("A-1", 9 * SEC).unwrap();
    assert_eq!(removed.duration, 8 * SEC);
}

#[test]
fn start_missing_is_not_found() {
    let mut store = store_with(&["A-1"]);
    assert_eq!(store.start("Z-9", 0).unwrap_err(), TrackerError::NotFoundError);
    assert!(store.current(0).is_err());
}

#[test]
fn pause_when_idle_is_noop() {
    let mut store = store_with(&["A-1", "B-2"]);
    store.start("A-1", 0).unwrap();
    store.pause(12 * SEC);
    let list_before = listing(&store, 40 * SEC);
    let sum_before = store.sum(40 * SEC);
    store.pause(30 * SEC);
    assert_eq!(listing(&store, 40 * SEC), list_before);
    assert_eq!(store.sum(40 * SEC), sum_before);
    assert_eq!(sum_before, 12);
}

#[test]
fn pause_twice_same_as_once() {
    let mut once = store_with(&["A-1"]);
    let mut twice = store_with(&["A-1"]);
    once.start("A-1", 0).unwrap();
    twice.start("A-1", 0).unwrap();
    once.pause(9 * SEC);
    twice.pause(9 * SEC);
    twice.pause(20 * SEC);
    assert_eq!(listing(&once, 50 * SEC), listing(&twice, 50 * SEC));
    assert_eq!(once.sum(50 * SEC), 9);
    assert_eq!(twice.sum(50 * SEC), 9);
    assert!(twice.current(50 * SEC).is_err());
}

#[test]
fn negative_adjustment_beyond_elapsed_fails() {
    let mut store = store_with(&["A-1"]);
    store.start("A-1", 0).unwrap();
    store.pause(10 * SEC);
    let err = store.adjust_negative_duration("A-1", 15 * SEC, 10 * SEC).unwrap_err();
    assert_eq!(err, TrackerError::DurationAdjustmentError);
    let removed_view = store.get_tracker("A-1", 10 * SEC).unwrap();
    assert_eq!(removed_view.duration, 10);
    let ok = store.adjust_negative_duration("A-1", 4 * SEC, 10 * SEC).unwrap();
    assert_eq!(ok.duration, 6);
    let exact = store.adjust_negative_duration("A-1", 6 * SEC, 10 * SEC).unwrap();
    assert_eq!(exact.duration, 0);
    let record = store.remove("A-1", 10 * SEC).unwrap();
    assert_eq!(record.negative_adjustments, vec![4 * SEC, 6 * SEC]);
    assert!(record.positive_adjustments.is_empty());
}

#[test]
fn negative_adjustment_counts_running_time() {
    let mut store = store_with(&["A-1"]);
    store.start("A-1", 0).unwrap();
    assert!(store.adjust_negative_duration("A-1", 20 * SEC, 10 * SEC).is_err());
    assert!(store.adjust_negative_duration("A-1", 20 * SEC, 30 * SEC).is_ok());
    assert_eq!(store.get_tracker("A-1", 30 * SEC).unwrap().duration, 10);
}

#[test]
fn adjustments_on_missing_key_are_not_found() {
    let mut store = store_with(&["A-1"]);
    assert_eq!(store.adjust_positive_duration("B-1", SEC, 0).unwrap_err(), TrackerError::NotFoundError);
    assert_eq!(store.adjust_negative_duration("B-1", SEC, 0).unwrap_err(), TrackerError::NotFoundError);
    assert_eq!(store.set_description("B-1", None, 0).unwrap_err(), TrackerError::NotFoundError);
    assert_eq!(store.get_tracker("B-1", 0).unwrap_err(), TrackerError::NotFoundError);
    assert_eq!(store.remove("B-1", 0).unwrap_err(), TrackerError::NotFoundError);
    assert_eq!(store.elapsed("B-1", 0), None);
}

#[test]
fn positive_adjustment_adds_time() {
    let mut store = store_with(&["A-1"]);
    let info = store.adjust_positive_duration("A-1", 90 * SEC, 0).unwrap();
    assert_eq!(info.duration, 90);
    let info = store.adjust_positive_duration("A-1", SEC / 2, 0).unwrap();
    assert_eq!(info.duration, 90);
    assert_eq!(store.elapsed("A-1", 0), Some(90 * SEC + SEC / 2));
    assert_eq!(store.elapsed_seconds("A-1", 0), Some(90));
}

#[test]
fn empty_description_means_none() {
    let mut store = store_with(&["A-1"]);
    let info = store.set_description("A-1", Some("write docs".to_string()), 0).unwrap();
    assert_eq!(info.description, Some("write docs".to_string()));
    let info = store.set_description("A-1", Some(String::new()), 0).unwrap();
    assert_eq!(info.description, None);
    store.set_description("A-1", Some("x".to_string()), 0).unwrap();
    let info = store.set_description("A-1", None, 0).unwrap();
    assert_eq!(info.description, None);
}

#[test]
fn reporting_truncates_to_whole_seconds() {
    let mut store = store_with(&["A-1", "B-2"]);
    store.start("A-1", 0).unwrap();
    store.start("B-2", 1_600_000_000).unwrap();
    assert_eq!(store.get_tracker("A-1", 0).unwrap().duration, 1);
    assert_eq!(store.get_tracker("B-2", 3_200_000_000).unwrap().duration, 1);
    assert_eq!(store.elapsed("A-1", 0), Some(1_600_000_000));
    assert_eq!(store.sum(3_200_000_000), 2);
}

#[test]
fn clock_going_backwards_counts_nothing() {
    let mut store = store_with(&["A-1"]);
    store.start("A-1", 50 * SEC).unwrap();
    assert_eq!(store.get_tracker("A-1", 40 * SEC).unwrap().duration, 0);
    store.pause(40 * SEC);
    assert_eq!(store.elapsed("A-1", 100 * SEC), Some(0));
}

#[test]
fn remove_running_tracker_keeps_its_time() {
    let mut store = store_with(&["A-1", "B-2", "C-3"]);
    store.start("B-2", 0).unwrap();
    let removed = store.remove("B-2", 7 * SEC).unwrap();
    assert_eq!(removed.duration, 7 * SEC);
    assert_eq!(removed.id, "10001");
    assert_eq!(store.current(7 * SEC).unwrap_err(), TrackerError::NotFoundError);
    let keys: Vec<String> = store.list_trackers(7 * SEC).into_iter().map(|t| t.key).collect();
    assert_eq!(keys, vec!["A-1".to_string(), "C-3".to_string()]);
}

#[test]
fn remove_other_tracker_keeps_running_one() {
    let mut store = store_with(&["A-1", "B-2"]);
    store.start("B-2", 0).unwrap();
    let removed = store.remove("A-1", 7 * SEC).unwrap();
    assert_eq!(removed.duration, 0);
    let cur = store.current(9 * SEC).unwrap();
    assert_eq!(cur.key, "B-2");
    assert_eq!(cur.duration, 9);
}

#[test]
fn remove_all_returns_listed_trackers() {
    let mut store = store_with(&["A-1", "B-2", "C-3"]);
    store.adjust_positive_duration("A-1", 4 * SEC, 0).unwrap();
    store.start("C-3", 0).unwrap();
    let listed = store.list_trackers(12 * SEC);
    let removed = store.remove_all(12 * SEC);
    assert_eq!(removed.len(), listed.len());
    for (r, l) in removed.iter().zip(listed.iter()) {
        assert_eq!(r.id, l.id);
        assert_eq!(r.description, l.description);
        assert_eq!(r.start_time, l.start_time);
        let secs = (r.duration + r.positive_adjustments.iter().sum::<u128>()) / SEC;
        assert_eq!(secs, l.duration);
    }
    assert!(store.list_trackers(12 * SEC).is_empty());
    assert_eq!(store.current(12 * SEC).unwrap_err(), TrackerError::NotFoundError);
    assert_eq!(store.sum(99 * SEC), 0);
}

#[test]
fn list_keeps_insertion_order_and_sum_adds_up() {
    let mut store = store_with(&["Z-9", "A-1", "M-5"]);
    store.adjust_positive_duration("A-1", 3 * SEC, 0).unwrap();
    store.adjust_positive_duration("M-5", 4 * SEC, 0).unwrap();
    store.start("Z-9", 0).unwrap();
    let keys: Vec<String> = store.list_trackers(5 * SEC).into_iter().map(|t| t.key).collect();
    assert_eq!(keys, vec!["Z-9".to_string(), "A-1".to_string(), "M-5".to_string()]);
    assert_eq!(store.sum(5 * SEC), 12);
}

#[test]
fn sequential_mutations_in_either_order_agree_on_sum() {
    let mut first = store_with(&["A-1", "B-2"]);
    let mut second = store_with(&["A-1", "B-2"]);
    first.adjust_positive_duration("A-1", 10 * SEC, 0).unwrap();
    first.adjust_positive_duration("B-2", 20 * SEC, 0).unwrap();
    second.adjust_positive_duration("B-2", 20 * SEC, 0).unwrap();
    second.adjust_positive_duration("A-1", 10 * SEC, 0).unwrap();
    assert_eq!(first.sum(0), 30);
    assert_eq!(second.sum(0), 30);
}

#[test]
fn error_messages_are_distinct() {
    let all = [
        TrackerError::KeyFormatError,
        TrackerError::OccupiedError,
        TrackerError::NotFoundError,
        TrackerError::DurationAdjustmentError,
    ];
    for (i, a) in all.iter().enumerate() {
        for (j, b) in all.iter().enumerate() {
            assert_eq!(i == j, a.message() == b.message());
        }
    }
    assert_eq!(TrackerError::NotFoundError.message(), "tracker not found");
}
