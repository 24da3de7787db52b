use zenwave::message::{Method, Request};
use zenwave::retry::{Retry, RetrySnapshot, RetryStep};

/// Runs the retry loop against a backend that fails `failures` times, then
/// succeeds; returns the number of attempts and whether it succeeded.
fn run(policy: &Retry, failures: usize) -> (usize, bool, Vec<u64>) {
    let mut attempts = 0;
    let mut failed = 0;
    let mut delays = Vec::new();
    loop {
        attempts += 1;
        if attempts > failures {
            return (attempts, true, delays);
        }
        failed += 1;
        match policy.on_failure(failed) {
            RetryStep::GiveUp => return (attempts, false, delays),
            RetryStep::RetryAfter(d) => delays.push(d),
        }
    }
}

#[test]
fn attempts_are_failures_plus_one_within_budget() {
    let policy = Retry::new(3);
    assert_eq!(run(&policy, 0).0, 1);
    assert_eq!(run(&policy, 2), (3, true, vec![100, 200]));
    let (n, ok, _) = run(&policy, 3);
    assert_eq!((n, ok), (4, true));
}

#[test]
fn attempts_stop_at_max_retries_plus_one() {
    let policy = Retry::new(2);
    let (n, ok, _) = run(&policy, 5);
    assert_eq!((n, ok), (3, false));
    let (n, ok, _) = run(&Retry::new(0), 1);
    assert_eq!((n, ok), (1, false));
}

#[test]
fn backoff_doubles_up_to_the_ceiling() {
    let policy = Retry::new(10).min_delay(100).max_delay(1000);
    assert_eq!(policy.delay_for(1), 100);
    assert_eq!(policy.delay_for(2), 200);
    assert_eq!(policy.delay_for(4), 800);
    assert_eq!(policy.delay_for(5), 1000);
    assert_eq!(policy.delay_for(200), 1000);
    let huge = Retry::new(10).min_delay(u64::MAX / 2 + 1).max_delay(u64::MAX);
    assert_eq!(huge.delay_for(3), u64::MAX);
    assert_eq!(Retry::new(1).on_failure(2), RetryStep::GiveUp);
}

#[test]
fn replayed_request_keeps_body() {
    let mut req = Request::new(Method::Post, "http://example.com/upload".to_string());
    req.headers.append(b"content-type", b"text/plain");
    req.body = b"payload".to_vec();
    let snapshot = RetrySnapshot::capture(req);
    let first = snapshot.build();
    let second = snapshot.build();
    assert_eq!(first.body, b"payload".to_vec());
    assert_eq!(second.body, b"payload".to_vec());
    assert_eq!(second.method, Method::Post);
    assert_eq!(second.headers.get(b"content-type"), Some(&b"text/plain"[..]));
}
