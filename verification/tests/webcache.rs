use analog_library::webcache::{
    cache_write, download_result, fetch_plan, freshness, is_expired, lookup_result, time_from_bytes,
    time_to_bytes, ts_key, url_of_ts_key, CacheWrite, Cached, FetchPlan, Freshness, WebcacheError,
};

#[test]
fn timestamps_round_trip() {
    for t in [0u64, 1, 255, 256, 1_700_000_000, u64::MAX] {
        let b = time_to_bytes(t);
        assert_eq!(b, t.to_le_bytes().to_vec());
        assert_eq!(time_from_bytes(&b), t);
    }
    let raw = [1u8, 2, 3, 4, 5, 6, 7, 8];
    assert_eq!(time_to_bytes(time_from_bytes(&raw)), raw.to_vec());
}

#[test]
fn entries_expire_after_a_day() {
    assert!(!is_expired(100, 100, 0));
    assert!(!is_expired(100, 100 + 86400, 0));
    assert!(is_expired(100, 100 + 86400, 1));
    assert!(is_expired(100, 100 + 86401, 0));
}

#[test]
fn read_back_of_a_write() {
    let written_at = 1_000_000u64;
    let ts = time_to_bytes(written_at);
    let body = vec![7u8, 8, 9];
    // A body is inserted; within a day it reads back as the body.
    let stored = match cache_write(Cached::Valid(body.clone())) {
        CacheWrite::Insert(b) => Some(b),
        CacheWrite::Remove => None,
    };
    let f = freshness(Some(&ts), written_at + 10, 0);
    assert!(matches!(f, Freshness::Fresh));
    assert!(matches!(lookup_result(f, stored), Cached::Valid(b) if b == body));
    // An error removes the body; it reads back as an error.
    assert!(matches!(cache_write(Cached::Error), CacheWrite::Remove));
    assert!(matches!(lookup_result(Freshness::Fresh, None), Cached::Error));
    // After a day the entry is invalid.
    let f = freshness(Some(&ts), written_at + 86401, 0);
    assert!(matches!(f, Freshness::Expired));
    assert!(matches!(lookup_result(f, Some(body)), Cached::Invalid));
    assert!(matches!(freshness(None, 5, 0), Freshness::Missing));
}

#[test]
fn fetch_decisions() {
    assert!(matches!(fetch_plan(Cached::Valid(vec![1])), FetchPlan::Hit(b) if b == vec![1]));
    assert!(matches!(fetch_plan(Cached::Error), FetchPlan::KnownMissing));
    assert!(matches!(fetch_plan(Cached::Invalid), FetchPlan::Download));
    let (store, answer) = download_result(200, vec![4, 5]);
    assert!(matches!(store, Cached::Valid(b) if b == vec![4, 5]));
    assert_eq!(answer, Some(vec![4, 5]));
    let (store, answer) = download_result(404, vec![4, 5]);
    assert!(matches!(store, Cached::Error));
    assert_eq!(answer, None);
}

#[test]
fn timestamp_keys() {
    let k = ts_key("https://api.crossref.org/v1/works/10.1/x");
    assert_eq!(k, "ts:https://api.crossref.org/v1/works/10.1/x");
    assert_eq!(url_of_ts_key(k.as_bytes()), b"https://api.crossref.org/v1/works/10.1/x".to_vec());
    assert_eq!(url_of_ts_key(b"ts:"), Vec::<u8>::new());
}

#[test]
fn webcache_error_messages() {
    assert_eq!(WebcacheError::Cache("x".to_string()).message(), "error accessing cache");
    assert_eq!(WebcacheError::Web("x".to_string()).message(), "failed to load URL");
}
