use recapit::quota::{QuotaConfig, QuotaMonitor};

fn monitor_with_limit(limit: u32) -> QuotaMonitor {
    let request_limits = vec![(String::from("model-a"), limit)];
    let token_limits = vec![(String::from("model-a"), 1_000_000u32)];
    QuotaMonitor::new(QuotaConfig::new(request_limits, token_limits))
}

#[test]
fn below_sleep_threshold_no_delay() {
    // limit 10 per 60 s window: five requests sit at 50% utilization
    let mut m = monitor_with_limit(10);
    let mut last = None;
    for i in 0..5 {
        last = m.register_request("model-a", i * 10).sleep_ms;
    }
    assert_eq!(last, None);
}

#[test]
fn at_sleep_threshold_recommends_bounded_delay() {
    // the ninth request in-window reaches the 90% threshold
    let mut m = monitor_with_limit(10);
    let mut last = None;
    for i in 0..9 {
        last = m.register_request("model-a", i * 10).sleep_ms;
    }
    let config = m.config();
    let delay = last.expect("a preemptive sleep is owed at 90% utilization");
    assert!(delay <= config.max_preemptive_sleep_ms);
    // one request's share of the window is 6 s, so the cap decides
    assert_eq!(delay, 500);
}

#[test]
fn unknown_bucket_is_unbounded() {
    let mut m = monitor_with_limit(1);
    for i in 0..50 {
        let advice = m.register_request("other-model", i);
        assert_eq!(advice.sleep_ms, None);
        assert!(!advice.warn);
    }
}

#[test]
fn stale_requests_leave_the_window() {
    // limit 2: the second immediate request trips the threshold, but a
    // request a window later sees the old ones evicted
    let mut m = monitor_with_limit(2);
    assert_eq!(m.register_request("model-a", 0).sleep_ms, None);
    assert!(m.register_request("model-a", 1).sleep_ms.is_some());
    assert_eq!(m.register_request("model-a", 100_000).sleep_ms, None);
}

#[test]
fn upload_above_cap_is_rejected_without_mutation() {
    let mut m = monitor_with_limit(10);
    let limit = m.config().upload_limit_bytes;
    let err = m.track_upload(limit + 1).unwrap_err();
    assert_eq!(err.size_bytes, limit + 1);
    assert_eq!(err.limit_bytes, limit);
    assert_eq!(m.uploaded_bytes(), 0);
    assert_eq!(m.active_uploads(), 0);
}

#[test]
fn admitted_uploads_raise_and_release_the_counters() {
    let mut m = monitor_with_limit(10);
    let first = m.track_upload(1_000).unwrap();
    assert!(!first.storage_warn);
    assert!(!first.concurrency_warn);
    m.track_upload(2_000).unwrap();
    assert_eq!(m.uploaded_bytes(), 3_000);
    assert_eq!(m.active_uploads(), 2);
    m.finish_upload(1_000);
    assert_eq!(m.uploaded_bytes(), 2_000);
    assert_eq!(m.active_uploads(), 1);
    m.finish_upload(2_000);
    m.finish_upload(2_000);
    assert_eq!(m.uploaded_bytes(), 0);
    assert_eq!(m.active_uploads(), 0);
}

#[test]
fn token_registration_keeps_request_windows_apart() {
    let mut m = monitor_with_limit(10);
    m.register_tokens("model-a", Some(5_000), 0);
    assert!(!m.register_tokens("model-a", None, 1));
    // request accounting is unaffected by token accounting
    assert_eq!(m.register_request("model-a", 2).sleep_ms, None);
}

#[test]
fn stock_config_values() {
    let c = QuotaConfig::new(Vec::new(), Vec::new());
    assert_eq!(c.rpm_warn_percent, 80);
    assert_eq!(c.rpm_sleep_percent, 90);
    assert_eq!(c.request_window_ms, 60_000);
    assert_eq!(c.max_preemptive_sleep_ms, 500);
    assert_eq!(c.upload_limit_bytes, 2 * 1024 * 1024 * 1024);
    assert_eq!(c.storage_limit_bytes, 20 * 1024 * 1024 * 1024);
}

#[test]
fn rate_warning_fires_at_threshold_with_cooldown() {
    // limit 10: the eighth in-window request reaches 80% and warns once;
    // within the 10 s cooldown further warnings stay quiet, after it the
    // warning fires again
    let mut m = monitor_with_limit(10);
    for i in 0..7 {
        assert!(!m.register_request("model-a", i).warn);
    }
    assert!(m.register_request("model-a", 7).warn);
    assert!(!m.register_request("model-a", 8).warn);
    assert!(m.register_request("model-a", 11_000).warn);
}

#[test]
fn token_warning_fires_on_window_usage() {
    // limit 1_000_000 tokens per window at an 80% warning threshold
    let mut m = monitor_with_limit(10);
    assert!(!m.register_tokens("model-a", Some(500_000), 0));
    assert!(m.register_tokens("model-a", Some(400_000), 1));
    // cooldown keeps the next crossing quiet
    assert!(!m.register_tokens("model-a", Some(100_000), 2));
    // a window later the usage has been evicted: no threshold, no warning
    assert!(!m.register_tokens("model-a", Some(100_000), 200_000));
}

#[test]
fn upload_warnings_track_the_storage_window() {
    // raise the per-file cap so one admitted upload can fill the window
    let mut config = QuotaConfig::new(Vec::new(), Vec::new());
    config.upload_limit_bytes = config.storage_limit_bytes;
    let storage = config.storage_limit_bytes;
    let mut m = QuotaMonitor::new(config);
    // 80% of the storage window in one admitted upload
    let admission = m.track_upload(storage / 5 * 4).unwrap();
    assert!(admission.storage_warn);
    assert!(!admission.concurrency_warn);
}
