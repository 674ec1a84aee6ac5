use clipboard_sync::error::MyError;
use clipboard_sync::governor::PainState;

#[test]
fn sparse_failures_are_tolerated_indefinitely() {
    // Failures strictly more than ten seconds apart: the governor
    // retries forever, the session counter never grows past one.
    let mut state = PainState::new();
    let mut now: u64 = 5_000;
    for _ in 0..1000 {
        state = state.on_failure(now).expect("sparse failure must be retried");
        assert!(state.errorcount <= 1);
        assert_eq!(state.last_error_ms, now);
        now += 10_001;
    }
}

#[test]
fn dense_burst_reaches_fatal() {
    // Failures every 100 ms: the burst is fatal well within five seconds.
    let state = PainState::new();
    let state = state.on_failure(50_000).expect("first failure starts a session");
    assert_eq!(state.errorcount, 1);
    let verdict = state.on_failure(50_100);
    match verdict {
        Err(MyError::Generic(msg)) => assert_eq!(msg, "too many errors, exiting"),
        other => panic!("expected the fatal too-many-errors condition, got {:?}", other),
    }
}

#[test]
fn first_failure_opens_a_session() {
    let state = PainState::new();
    let state = state.on_failure(123).unwrap();
    assert_eq!(state.errorcount, 1);
    assert_eq!(state.first_error_ms, 123);
    assert_eq!(state.last_error_ms, 123);
}

#[test]
fn slow_session_accumulates_count() {
    // Within a session but over a second apart: pain stays low, the
    // count grows.
    let state = PainState::new();
    let state = state.on_failure(0).unwrap();
    let state = state.on_failure(5_000).unwrap();
    assert_eq!(state.errorcount, 2);
    assert_eq!(state.first_error_ms, 0);
    assert_eq!(state.last_error_ms, 5_000);
}

#[test]
fn long_session_duration_is_fatal() {
    // count = 1, session age 101 s, gap 1 s: rate 100/101 = 0, pain 101.
    let state = PainState {
        errorcount: 1,
        first_error_ms: 0,
        last_error_ms: 100_000,
    };
    assert!(state.on_failure(101_000).is_err());
}

#[test]
fn moderate_pain_is_retried() {
    // count = 1, session age 5 s, gap 100 ms: rate 100/5 = 20, pain 25.
    let state = PainState {
        errorcount: 1,
        first_error_ms: 0,
        last_error_ms: 5_000,
    };
    let state = state.on_failure(5_100).unwrap();
    assert_eq!(state.errorcount, 2);
}

#[test]
fn gap_over_ten_seconds_starts_a_new_session() {
    let state = PainState {
        errorcount: 7,
        first_error_ms: 0,
        last_error_ms: 20_000,
    };
    let state = state.on_failure(30_001).unwrap();
    assert_eq!(state.errorcount, 1);
    assert_eq!(state.first_error_ms, 30_001);
    assert_eq!(state.last_error_ms, 30_001);
}

#[test]
fn old_history_does_not_inflate_a_new_session() {
    // A failure long after the first, then one shortly after it: the
    // pain is computed from the new session's age (5 s, pain 25), so the
    // governor retries; the old session's age does not count.
    let state = PainState::new();
    let state = state.on_failure(0).unwrap();
    let state = state.on_failure(150_000).unwrap();
    assert_eq!(state.first_error_ms, 150_000);
    let state = state.on_failure(155_000).unwrap();
    assert_eq!(state.errorcount, 2);
    assert_eq!(state.first_error_ms, 150_000);
    assert_eq!(state.last_error_ms, 155_000);
}

#[test]
fn pain_exactly_at_the_limit_is_retried() {
    // count = 9, session age 90 s, gap 100 ms: rate 900/90 = 10,
    // pain 100: not above the limit, so still retried.
    let state = PainState {
        errorcount: 9,
        first_error_ms: 0,
        last_error_ms: 89_900,
    };
    let state = state.on_failure(90_000).unwrap();
    assert_eq!(state.errorcount, 10);
}
