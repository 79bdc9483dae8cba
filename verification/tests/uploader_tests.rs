use recapit::retry::{
    backoff_delay_ms, backoff_delay_with_jitter, is_retryable_failure, should_attempt_retry,
    should_retry_status, CallFailure, BACKOFF_CAP_MS, MAX_RETRIES,
};
use recapit::uploader::{
    is_retryable_file_state, on_finalize_report, on_poll_report, on_session_failure,
    on_session_success, upload_start, CleanupRegistry, FileReport, UploadError, UploadPhase,
};

fn report(state: &str, uri: Option<&str>, name: Option<&str>) -> FileReport {
    FileReport {
        state: String::from(state),
        uri: uri.map(String::from),
        name: name.map(String::from),
    }
}

#[test]
fn retryable_statuses_are_429_and_5xx() {
    assert!(should_retry_status(429));
    assert!(should_retry_status(500));
    assert!(should_retry_status(503));
    assert!(should_retry_status(599));
    assert!(!should_retry_status(404));
    assert!(!should_retry_status(200));
    assert!(!should_retry_status(600));
}

#[test]
fn transport_failures_classify() {
    assert!(is_retryable_failure(&CallFailure::Timeout));
    assert!(is_retryable_failure(&CallFailure::Connect));
    assert!(is_retryable_failure(&CallFailure::RequestBuild));
    assert!(!is_retryable_failure(&CallFailure::OtherTransport));
    assert!(is_retryable_failure(&CallFailure::Status { code: 429 }));
    assert!(!is_retryable_failure(&CallFailure::Status { code: 400 }));
}

#[test]
fn retries_are_bounded() {
    let failure = CallFailure::Timeout;
    for attempt in 0..MAX_RETRIES {
        assert!(should_attempt_retry(attempt, &failure));
    }
    assert!(!should_attempt_retry(MAX_RETRIES, &failure));
}

#[test]
fn backoff_doubles_then_caps() {
    // with the jitter factor pinned at 1.0
    assert_eq!(backoff_delay_with_jitter(0, 1000), 1000);
    assert_eq!(backoff_delay_with_jitter(1, 1000), 2000);
    assert_eq!(backoff_delay_with_jitter(2, 1000), 4000);
    assert_eq!(backoff_delay_with_jitter(3, 1000), 8000);
    assert_eq!(backoff_delay_with_jitter(9, 1000), 8000);
    // the jitter band scales but never exceeds the cap
    assert_eq!(backoff_delay_with_jitter(0, 800), 800);
    assert_eq!(backoff_delay_with_jitter(0, 1200), 1200);
    assert_eq!(backoff_delay_with_jitter(3, 1200), 8000);
}

#[test]
fn sampled_backoff_stays_in_band() {
    for attempt in 0..5 {
        let d = backoff_delay_ms(attempt);
        assert!(d <= BACKOFF_CAP_MS);
        let low = backoff_delay_with_jitter(attempt, 800);
        let high = backoff_delay_with_jitter(attempt, 1200);
        assert!(low <= d && d <= high);
    }
}

#[test]
fn upload_completes_when_finalize_reports_active() {
    let phase = upload_start();
    assert!(matches!(phase, UploadPhase::Start { attempt: 0 }));
    let phase = on_session_success(Some(String::from("https://upload.example/u/1")));
    let UploadPhase::Uploading { attempt, upload_url } = phase else {
        panic!("expected the uploading phase");
    };
    assert_eq!(attempt, 0);
    assert_eq!(upload_url, "https://upload.example/u/1");
    let phase = on_finalize_report(report("ACTIVE", Some("files/123"), Some("files/123")));
    let UploadPhase::Active { uri, name } = phase else {
        panic!("expected the active phase");
    };
    assert_eq!(uri, "files/123");
    assert_eq!(name.as_deref(), Some("files/123"));
}

#[test]
fn processing_file_moves_to_polling_then_active() {
    let phase = on_finalize_report(report("PROCESSING", None, Some("files/9")));
    let UploadPhase::Polling { attempt, name } = phase else {
        panic!("expected the polling phase");
    };
    assert_eq!(attempt, 0);
    let phase = on_poll_report(attempt, name, report("ACTIVE", Some("files/9"), Some("files/9")));
    assert!(matches!(phase, UploadPhase::Active { .. }));
}

#[test]
fn missing_upload_url_is_fatal() {
    let phase = on_session_success(None);
    assert!(matches!(
        phase,
        UploadPhase::Failed { reason: UploadError::MissingUploadUrl }
    ));
}

#[test]
fn terminal_remote_state_is_fatal() {
    let phase = on_finalize_report(report("FAILED", None, Some("files/3")));
    let UploadPhase::Failed { reason: UploadError::NonActiveState { state } } = phase else {
        panic!("expected a terminal-state failure");
    };
    assert_eq!(state, "FAILED");
}

#[test]
fn poll_retries_run_out() {
    let mut phase = UploadPhase::Polling { attempt: 0, name: String::from("files/5") };
    for _ in 0..MAX_RETRIES {
        let UploadPhase::Polling { attempt, name } = phase else {
            panic!("expected polling to continue");
        };
        phase = on_poll_report(attempt, name, report("PROCESSING", None, None));
    }
    let UploadPhase::Polling { attempt, name } = phase else {
        panic!("expected polling at the retry cap");
    };
    assert_eq!(attempt, MAX_RETRIES);
    let last = on_poll_report(attempt, name, report("PROCESSING", None, None));
    assert!(matches!(
        last,
        UploadPhase::Failed { reason: UploadError::NonActiveState { .. } }
    ));
}

#[test]
fn session_failures_retry_then_give_up() {
    let failure = CallFailure::Status { code: 503 };
    let phase = on_session_failure(0, &failure);
    assert!(matches!(phase, UploadPhase::Start { attempt: 1 }));
    let phase = on_session_failure(MAX_RETRIES, &failure);
    assert!(matches!(
        phase,
        UploadPhase::Failed { reason: UploadError::Http { code: 503 } }
    ));
    let hard = on_session_failure(0, &CallFailure::Status { code: 403 });
    assert!(matches!(
        hard,
        UploadPhase::Failed { reason: UploadError::Http { code: 403 } }
    ));
}

#[test]
fn only_processing_and_internal_states_poll() {
    assert!(is_retryable_file_state("PROCESSING"));
    assert!(is_retryable_file_state("INTERNAL"));
    assert!(!is_retryable_file_state("ACTIVE"));
    assert!(!is_retryable_file_state("FAILED"));
    assert!(!is_retryable_file_state("processing"));
}

#[test]
fn cleanup_registry_remembers_each_file_once() {
    let mut registry = CleanupRegistry::new();
    assert!(registry.register("files/a"));
    assert!(registry.register("files/b"));
    assert!(!registry.register("files/a"));
    let drained = registry.take_all();
    assert_eq!(drained, vec!["files/a", "files/b"]);
    assert_eq!(registry.take_all(), Vec::<String>::new());
}
