use pybun::atomic_fs::parent_dir;
use pybun::downloader::{checksum_outcome, next_retry_step, verify_checksum, DownloadError, DownloadRequest, RetryStep};

fn http(status: u16, retry_after: Option<u64>) -> DownloadError {
    DownloadError::HttpStatus {
        status,
        url: "https://example.invalid/x.whl".to_string(),
        message: "status".to_string(),
        retry_after,
    }
}

#[test]
fn client_errors_fail_fast() {
    for status in [404u16, 401, 403] {
        match next_retry_step(0, "u", http(status, None)) {
            RetryStep::Fail(DownloadError::HttpStatus { status: s, .. }) => assert_eq!(s, status),
            other => panic!("expected fail-fast, got {other:?}"),
        }
    }
}

#[test]
fn transient_errors_back_off_exponentially() {
    match next_retry_step(0, "u", http(500, None)) {
        RetryStep::Wait { attempts, backoff_secs } => {
            assert_eq!(attempts, 1);
            assert_eq!(backoff_secs, 1);
        }
        other => panic!("expected a retry, got {other:?}"),
    }
    match next_retry_step(1, "u", DownloadError::Network("reset".into())) {
        RetryStep::Wait { attempts, backoff_secs } => {
            assert_eq!(attempts, 2);
            assert_eq!(backoff_secs, 2);
        }
        other => panic!("expected a retry, got {other:?}"),
    }
}

#[test]
fn retry_after_is_capped_at_five_seconds() {
    match next_retry_step(0, "u", http(429, Some(999_999_999))) {
        RetryStep::Wait { backoff_secs, .. } => assert_eq!(backoff_secs, 5),
        other => panic!("expected a retry, got {other:?}"),
    }
    match next_retry_step(0, "u", http(503, Some(3))) {
        RetryStep::Wait { backoff_secs, .. } => assert_eq!(backoff_secs, 3),
        other => panic!("expected a retry, got {other:?}"),
    }
}

#[test]
fn third_transient_failure_gives_up_with_cause() {
    match next_retry_step(2, "https://h/flaky.whl", http(503, None)) {
        RetryStep::Fail(e @ DownloadError::MaxRetriesExceeded { .. }) => {
            let message = e.message();
            assert!(message.contains("503"), "expected underlying HTTP status in message, got: {message}");
            if let DownloadError::MaxRetriesExceeded { url, attempts, source } = e {
                assert_eq!(url, "https://h/flaky.whl");
                assert_eq!(attempts, 3);
                assert!(matches!(*source, DownloadError::HttpStatus { status: 503, .. }));
            }
        }
        other => panic!("expected MaxRetriesExceeded, got {other:?}"),
    }
}

#[test]
fn retryable_classification() {
    assert!(DownloadError::Network("x".into()).is_retryable());
    assert!(DownloadError::Io("x".into()).is_retryable());
    assert!(http(408, None).is_retryable());
    assert!(http(429, None).is_retryable());
    assert!(http(599, None).is_retryable());
    assert!(!http(404, None).is_retryable());
    assert!(!http(600, None).is_retryable());
    assert!(!DownloadError::MissingChecksum { path: "p".into(), checksum: "c".into() }.is_retryable());
}

#[test]
fn error_messages_read_like_their_display() {
    assert_eq!(DownloadError::Network("boom".into()).message(), "network error: boom");
    assert_eq!(http(404, None).message(), "http error 404 for https://example.invalid/x.whl: status");
    assert_eq!(
        DownloadError::ChecksumMismatch { expected: "aa".into(), actual: "bb".into(), path: "/t/f".into() }.message(),
        "checksum mismatch for /t/f: expected aa, got bb"
    );
    let nested = DownloadError::MaxRetriesExceeded {
        url: "u".into(),
        attempts: 3,
        source: Box::new(DownloadError::Io("disk".into())),
    };
    assert_eq!(nested.message(), "max retries exceeded for u after 3 attempts: io error: disk");
}

const ABC_SHA256: &str = "ba7816bf8f01cfea414140de5dae2223b00361a396177a9cb410ff61f20015ad";

#[test]
fn mismatch_reports_lowercase_hex_digest_of_contents() {
    match verify_checksum("/t/f", "00", false, b"abc") {
        Err(DownloadError::ChecksumMismatch { actual, .. }) => assert_eq!(actual, ABC_SHA256),
        other => panic!("expected a mismatch, got {other:?}"),
    }
}

#[test]
fn checksum_accepts_matching_digest_with_or_without_prefix() {
    assert!(verify_checksum("/t/f", ABC_SHA256, false, b"abc").is_ok());
    assert!(verify_checksum("/t/f", &format!("sha256:{ABC_SHA256}"), false, b"abc").is_ok());
}

#[test]
fn checksum_rejects_mismatch_and_placeholders() {
    let zeros = format!("sha256:{}", "0".repeat(64));
    match verify_checksum("/t/shared.whl", &zeros, false, b"authoritative shared content") {
        Err(DownloadError::ChecksumMismatch { expected, actual, path }) => {
            assert_eq!(expected, "0".repeat(64));
            assert_eq!(actual.len(), 64);
            assert_eq!(path, "/t/shared.whl");
        }
        other => panic!("expected a mismatch, got {other:?}"),
    }
    assert!(matches!(
        verify_checksum("/t/f", "placeholder", true, b"abc"),
        Err(DownloadError::MissingChecksum { .. })
    ));
    assert!(checksum_outcome("/t/f", "AB", false, "ab").is_err());
}

#[test]
fn download_request_from_tuple() {
    let req = DownloadRequest::from(("https://h/x.whl".to_string(), "/d/x.whl".to_string(), Some("abc".to_string())));
    assert_eq!(req.url, "https://h/x.whl");
    assert_eq!(req.destination, "/d/x.whl");
    assert_eq!(req.checksum.as_deref(), Some("abc"));
    assert!(req.signature.is_none());
}

#[test]
fn parent_dir_falls_back_to_current_directory() {
    assert_eq!(parent_dir("/var/lib/pybun/state.json"), "/var/lib/pybun");
    assert_eq!(parent_dir("state.json"), ".");
    assert_eq!(parent_dir("/"), ".");
    assert_eq!(parent_dir(""), ".");
    assert_eq!(parent_dir("dir/sub/"), "dir");
}
