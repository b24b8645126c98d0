use class_checkin::cache::{CachedEntry, CourseCache};
use class_checkin::instant::Instant;
use class_checkin::models::ClassData;
use class_checkin::time_utils::TimeProcessor;

fn clock(text: &str) -> Instant {
    TimeProcessor::parse_time_string(text).expect("a timestamp")
}

fn record(site_id: &str, created: Option<&str>, is_expired: bool) -> ClassData {
    ClassData {
        site_id: site_id.to_string(),
        class_name: format!("Course_{}", site_id),
        classes: "Unknown Class".to_string(),
        last_checkwork_id: created.map(|_| "1".to_string()),
        last_class_lesson_id: created.map(|_| "2".to_string()),
        last_created_time: created.map(|t| t.to_string()),
        is_expired,
    }
}

fn sorted(mut keys: Vec<String>) -> Vec<String> {
    keys.sort();
    keys
}

#[test]
fn new_cache_is_empty() {
    let cache = CourseCache::new();
    assert_eq!(cache.len(), 0);
    assert_eq!(cache.get("1"), None);
    assert_eq!(cache.last_cleanup(), None);
}

#[test]
fn insert_then_get() {
    let mut cache = CourseCache::new();
    let now = clock("2025-06-04T09:00:00");
    cache.insert(record("1", None, false), now);
    cache.insert(record("2", Some("2025-06-04T08:59:00"), false), now);
    assert_eq!(cache.len(), 2);
    assert_eq!(cache.get("1"), Some(record("1", None, false)));
    assert_eq!(cache.get("2"), Some(record("2", Some("2025-06-04T08:59:00"), false)));
    assert_eq!(cache.get("3"), None);
    assert_eq!(cache.get(""), None);
}

#[test]
fn insert_replaces_the_record_of_a_site() {
    let mut cache = CourseCache::new();
    cache.insert(record("1", None, false), clock("2025-06-04T09:00:00"));
    cache.insert(record("1", Some("2025-06-04T09:01:00"), false), clock("2025-06-04T09:02:00"));
    assert_eq!(cache.len(), 1);
    assert_eq!(cache.get("1"), Some(record("1", Some("2025-06-04T09:01:00"), false)));
    let entry = cache.remove("1").expect("an entry");
    assert_eq!(entry.cached_at, clock("2025-06-04T09:02:00"));
}

#[test]
fn remove_then_get_misses() {
    let mut cache = CourseCache::new();
    let now = clock("2025-06-04T09:00:00");
    cache.insert(record("1", None, false), now);
    cache.insert(record("2", None, false), now);
    cache.insert(record("3", None, false), now);
    assert_eq!(
        cache.remove("2"),
        Some(CachedEntry { record: record("2", None, false), cached_at: now })
    );
    assert_eq!(cache.get("2"), None);
    assert_eq!(cache.remove("2"), None);
    assert_eq!(cache.len(), 2);
    assert_eq!(cache.get("1"), Some(record("1", None, false)));
    assert_eq!(cache.get("3"), Some(record("3", None, false)));
}

#[test]
fn get_does_not_refresh_an_entry() {
    let mut cache = CourseCache::new();
    cache.insert(record("1", None, false), clock("2025-06-04T09:00:00"));
    assert!(cache.get("1").is_some());
    assert!(cache.get("1").is_some());
    assert_eq!(cache.cleanup_expired(clock("2025-06-04T09:05:01"), 5, 20), vec!["1".to_string()]);
}

#[test]
fn cache_ttl_boundary() {
    let inserted = clock("2025-06-04T09:00:00");
    let mut cache = CourseCache::new();
    cache.insert(record("1", None, false), inserted);
    assert!(cache.cleanup_expired(clock("2025-06-04T09:04:59"), 5, 20).is_empty());
    assert!(cache.get("1").is_some());
    assert!(cache.cleanup_expired(clock("2025-06-04T09:05:00"), 5, 20).is_empty());
    assert!(cache.get("1").is_some());
    assert_eq!(cache.cleanup_expired(clock("2025-06-04T09:05:01"), 5, 20), vec!["1".to_string()]);
    assert_eq!(cache.get("1"), None);
    assert_eq!(cache.len(), 0);
}

#[test]
fn cache_ttl_counts_milliseconds() {
    let mut cache = CourseCache::new();
    cache.insert(record("1", None, false), clock("2025-06-04T09:00:00.000"));
    assert_eq!(
        cache.cleanup_expired(clock("2025-06-04T09:05:00.001"), 5, 20),
        vec!["1".to_string()]
    );
}

#[test]
fn aged_course_is_evicted_and_reported() {
    let scanned = "2025-06-04T09:00:00";
    let mut cache = CourseCache::new();
    cache.insert(record("7", Some(scanned), false), clock("2025-06-04T09:20:30"));
    assert!(cache.cleanup_expired(clock("2025-06-04T09:20:59"), 5, 20).is_empty());
    assert!(cache.get("7").is_some());
    assert_eq!(cache.cleanup_expired(clock("2025-06-04T09:21:00"), 5, 20), vec!["7".to_string()]);
    assert_eq!(cache.get("7"), None);
}

#[test]
fn flagged_record_is_evicted_at_once() {
    let now = clock("2025-06-04T09:00:00");
    let mut cache = CourseCache::new();
    cache.insert(record("1", Some("2025-06-04T08:59:59"), true), now);
    cache.insert(record("2", Some("2025-06-04T08:59:59"), false), now);
    assert_eq!(cache.cleanup_expired(now, 5, 20), vec!["1".to_string()]);
    assert_eq!(cache.len(), 1);
    assert!(cache.get("2").is_some());
}

#[test]
fn unreadable_scan_time_does_not_age() {
    let now = clock("2025-06-04T09:00:00");
    let mut cache = CourseCache::new();
    cache.insert(record("1", Some("sometime"), false), now);
    assert!(cache.cleanup_expired(now, 5, 20).is_empty());
    assert!(cache.get("1").is_some());
}

#[test]
fn scan_ahead_of_now_does_not_age() {
    let now = clock("2025-06-04T09:00:00");
    let mut cache = CourseCache::new();
    cache.insert(record("1", Some("2025-06-04T12:00:00"), false), now);
    assert!(cache.cleanup_expired(now, 5, 20).is_empty());
}

#[test]
fn second_sweep_evicts_nothing() {
    let inserted = clock("2025-06-04T09:00:00");
    let mut cache = CourseCache::new();
    cache.insert(record("1", None, false), inserted);
    cache.insert(record("2", Some("2025-06-04T08:00:00"), false), inserted);
    cache.insert(record("3", Some("2025-06-04T08:59:00"), true), inserted);
    cache.insert(record("4", Some("2025-06-04T08:59:00"), false), inserted);
    let now = clock("2025-06-04T09:01:00");
    assert_eq!(
        sorted(cache.cleanup_expired(now, 5, 20)),
        vec!["2".to_string(), "3".to_string()]
    );
    assert_eq!(cache.len(), 2);
    assert!(cache.cleanup_expired(now, 5, 20).is_empty());
    assert_eq!(cache.len(), 2);
    assert_eq!(cache.get("1"), Some(record("1", None, false)));
    assert_eq!(cache.get("4"), Some(record("4", Some("2025-06-04T08:59:00"), false)));
}

#[test]
fn sweep_reports_each_site_once() {
    let inserted = clock("2025-06-04T09:00:00");
    let mut cache = CourseCache::new();
    for site in 0..50 {
        cache.insert(record(&site.to_string(), Some("2025-06-04T08:00:00"), site % 2 == 0), inserted);
    }
    let evicted = sorted(cache.cleanup_expired(clock("2025-06-04T09:10:00"), 5, 20));
    let mut expected: Vec<String> = (0..50).map(|s| s.to_string()).collect();
    expected.sort();
    assert_eq!(evicted, expected);
    assert_eq!(cache.len(), 0);
}

#[test]
fn sweep_records_its_instant() {
    let mut cache = CourseCache::new();
    let now = clock("2025-06-04T09:01:00");
    cache.cleanup_expired(now, 5, 20);
    assert_eq!(cache.last_cleanup(), Some(now));
    cache.insert(record("1", None, false), now);
    assert_eq!(cache.last_cleanup(), Some(now));
}

#[test]
fn negative_and_extreme_limits() {
    let now = clock("2025-06-04T09:00:00");
    let mut cache = CourseCache::new();
    cache.insert(record("1", None, false), now);
    assert!(cache.cleanup_expired(now, 0, 0).is_empty());
    assert!(cache.cleanup_expired(now, i64::MAX, i64::MAX).is_empty());
    assert_eq!(cache.cleanup_expired(now, -1, 0), vec!["1".to_string()]);
    cache.insert(record("2", Some("2025-06-04T09:00:00"), false), now);
    assert_eq!(cache.cleanup_expired(now, i64::MAX, -1), vec!["2".to_string()]);
    cache.insert(record("3", None, false), now);
    assert_eq!(cache.cleanup_expired(now, i64::MIN, i64::MIN), vec!["3".to_string()]);
}
