use mdcrawl::fetch::{FailureKind, FetchAction, FetchAttempt, FetchFailure};

/// Plays a fetch against a server that gives these statuses in turn; the body
/// of the answer that is read is "body". Gives what the fetch returns and the
/// seconds waited before each retry.
fn play(statuses: &[u16]) -> (Result<String, FetchFailure>, Vec<u64>) {
    let mut attempt = FetchAttempt::new();
    let mut waits = Vec::new();
    for status in statuses {
        match attempt.decide(*status) {
            FetchAction::ReadBody => return (Ok("body".to_string()), waits),
            FetchAction::Retry { delay_seconds } => waits.push(delay_seconds),
            FetchAction::Fail(failure) => return (Err(failure), waits),
        }
    }
    panic!("the server was asked more often than it answers");
}

#[test]
fn rate_limited_twice_then_success_gives_the_body() {
    let (result, waits) = play(&[429, 429, 200]);
    assert_eq!(result, Ok("body".to_string()));
    assert_eq!(waits, vec![2, 4]);
}

#[test]
fn blocked_four_times_gives_up() {
    let (result, waits) = play(&[403, 429, 403, 429]);
    assert_eq!(result, Err(FetchFailure { status: 429, kind: FailureKind::Blocked }));
    assert_eq!(waits, vec![2, 4, 8]);
}

#[test]
fn unavailable_waits_longer_and_gives_up() {
    let (result, waits) = play(&[503, 503, 503, 503]);
    assert_eq!(result, Err(FetchFailure { status: 503, kind: FailureKind::Unavailable }));
    assert_eq!(waits, vec![3, 9, 27]);
}

#[test]
fn retries_are_counted_together() {
    let (result, waits) = play(&[429, 503, 403, 503]);
    assert_eq!(result, Err(FetchFailure { status: 503, kind: FailureKind::Unavailable }));
    assert_eq!(waits, vec![2, 9, 8]);
}

#[test]
fn other_errors_fail_at_once() {
    for status in [400u16, 404, 410, 500, 502] {
        let (result, waits) = play(&[status]);
        assert_eq!(result, Err(FetchFailure { status, kind: FailureKind::Status }));
        assert!(waits.is_empty());
    }
}

#[test]
fn redirects_and_successes_are_read() {
    for status in [200u16, 204, 301, 399] {
        let (result, _) = play(&[status]);
        assert_eq!(result, Ok("body".to_string()));
    }
}

#[test]
fn body_failure_is_not_retried() {
    let attempt = FetchAttempt::new();
    let failure = attempt.body_failed(200);
    assert_eq!(failure, FetchFailure { status: 200, kind: FailureKind::Body });
    assert_eq!(attempt.retries, 0);
}

#[test]
fn failures_map_to_response_statuses() {
    let f = |status, kind| FetchFailure { status, kind }.status_code();
    assert_eq!(f(404, FailureKind::Status), 404);
    assert_eq!(f(429, FailureKind::Blocked), 403);
    assert_eq!(f(403, FailureKind::Blocked), 403);
    assert_eq!(f(503, FailureKind::Unavailable), 503);
    assert_eq!(f(500, FailureKind::Status), 500);
    assert_eq!(f(418, FailureKind::Status), 500);
    assert_eq!(f(200, FailureKind::Body), 500);
}

#[test]
fn failures_say_what_happened() {
    let m = |status, kind| FetchFailure { status, kind }.message("http://a.test/");
    assert_eq!(m(404, FailureKind::Status), "HTTP error 404 for URL http://a.test/");
    assert_eq!(
        m(429, FailureKind::Blocked),
        "Rate limit or access denied after 3 retries for URL http://a.test/"
    );
    assert_eq!(
        m(503, FailureKind::Unavailable),
        "Service unavailable (503) after 3 retries for URL http://a.test/"
    );
    assert_eq!(m(200, FailureKind::Body), "Text extraction failed for http://a.test/");
}
