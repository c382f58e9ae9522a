use netscanner::reach::{
    classify_failure, classify_ping, mentions, Reachability, SudoWarningLatch, PING_TIMEOUT_SECS,
    PRIVILEGE_ADVISORY,
};

#[test]
fn ping_timeout_is_one_second() {
    assert_eq!(PING_TIMEOUT_SECS, 1);
}

#[test]
fn mentions_finds_a_pattern_anywhere() {
    assert!(mentions("abcdef", "abc"));
    assert!(mentions("abcdef", "cde"));
    assert!(mentions("abcdef", "def"));
    assert!(mentions("abcdef", "abcdef"));
    assert!(mentions("aab", "ab"));
}

#[test]
fn mentions_rejects_what_is_not_there() {
    assert!(!mentions("abcdef", "abd"));
    assert!(!mentions("abc", "abcd"));
    assert!(!mentions("", "a"));
    assert!(!mentions("abcabc", "cb"));
}

#[test]
fn mentions_finds_the_empty_pattern() {
    assert!(mentions("abc", ""));
    assert!(mentions("", ""));
}

#[test]
fn mentions_goes_by_characters() {
    assert!(mentions("größe (os error 1)", "(os error 1)"));
    assert!(mentions("héllo", "llo"));
    assert!(!mentions("héllo", "hel"));
}

#[test]
fn operation_not_permitted_is_missing_privilege() {
    assert_eq!(
        classify_failure("io error: Operation not permitted (os error 1)"),
        Reachability::PermissionDenied
    );
    assert_eq!(classify_failure("(os error 1)"), Reachability::PermissionDenied);
}

#[test]
fn windows_timeout_code_is_missing_privilege() {
    assert_eq!(
        classify_failure("io error: A connection attempt failed (os error 10060)"),
        Reachability::PermissionDenied
    );
}

#[test]
fn other_failures_mean_unreachable() {
    assert_eq!(
        classify_failure("io error: Resource temporarily unavailable (os error 11)"),
        Reachability::Unreachable
    );
    assert_eq!(classify_failure("io error: (os error 10)"), Reachability::Unreachable);
    assert_eq!(classify_failure("io error: (os error 100600)"), Reachability::Unreachable);
    assert_eq!(classify_failure("os error 1"), Reachability::Unreachable);
    assert_eq!(classify_failure("internal error"), Reachability::Unreachable);
    assert_eq!(classify_failure(""), Reachability::Unreachable);
}

#[test]
fn a_probe_that_succeeded_found_the_host() {
    assert_eq!(classify_ping(&Ok(())), Reachability::Reachable);
}

#[test]
fn a_probe_error_is_read_by_its_text() {
    let denied = ping::Error::IoError { error: std::io::Error::from_raw_os_error(1) };
    assert!(denied.to_string().contains("(os error 1)"));
    assert_eq!(classify_ping(&Err(denied)), Reachability::PermissionDenied);

    let timed_out = ping::Error::IoError { error: std::io::Error::from_raw_os_error(10060) };
    assert_eq!(classify_ping(&Err(timed_out)), Reachability::PermissionDenied);

    let again = ping::Error::IoError { error: std::io::Error::from_raw_os_error(11) };
    assert_eq!(classify_ping(&Err(again)), Reachability::Unreachable);

    assert_eq!(classify_ping(&Err(ping::Error::InternalError)), Reachability::Unreachable);
    assert_eq!(classify_ping(&Err(ping::Error::DecodeV4Error)), Reachability::Unreachable);
}

#[test]
fn a_probe_timeout_means_unreachable() {
    let error = std::io::Error::new(std::io::ErrorKind::TimedOut, "Timeout occured");
    assert_eq!(
        classify_ping(&Err(ping::Error::IoError { error })),
        Reachability::Unreachable
    );
}

#[test]
fn latch_fires_once() {
    let mut latch = SudoWarningLatch::new();
    assert!(latch.fire());
    assert!(!latch.fire());
    assert!(!latch.fire());
}

#[test]
fn advisory_is_given_to_the_first_denied_probe_only() {
    let mut latch = SudoWarningLatch::new();
    assert_eq!(latch.advise(false), None);
    assert_eq!(latch.advise(false), None);
    assert_eq!(latch.advise(true), Some(PRIVILEGE_ADVISORY));
    assert_eq!(latch.advise(true), None);
    assert_eq!(latch.advise(false), None);
    assert_eq!(latch.advise(true), None);
}

#[test]
fn advisory_names_sudo() {
    assert_eq!(
        PRIVILEGE_ADVISORY,
        "Try using sudo or run as administrator to use ping for faster network responses"
    );
}
