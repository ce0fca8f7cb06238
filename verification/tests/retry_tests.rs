use yande_dl::error::CoreError;
use yande_dl::retry::{RetryPolicy, RetryStep};

fn fast_policy_no_wait() -> RetryPolicy {
    RetryPolicy { max_attempts: 5, base_delay_ms: 1, max_delay_ms: 5 }
}

/// The retry loop over a scripted sequence of attempt results: returns the
/// final result, the number of calls, and the waits in between.
fn drive(policy: &RetryPolicy, script: &[Result<i32, CoreError>]) -> (Result<i32, CoreError>, u32, Vec<u64>) {
    let mut attempt: u32 = 0;
    let mut waits = Vec::new();
    loop {
        attempt += 1;
        let r = script[(attempt - 1) as usize].clone();
        match r {
            Ok(v) => return (Ok(v), attempt, waits),
            Err(e) => match policy.next_step(attempt, &e) {
                RetryStep::GiveUp => return (Err(e), attempt, waits),
                RetryStep::RetryAfter(ms) => waits.push(ms),
            },
        }
    }
}

#[test]
fn standard_and_fast_policies() {
    assert_eq!(RetryPolicy::standard(), RetryPolicy { max_attempts: 3, base_delay_ms: 2000, max_delay_ms: 30000 });
    assert_eq!(RetryPolicy::fast(), RetryPolicy { max_attempts: 2, base_delay_ms: 1000, max_delay_ms: 1000 });
}

#[test]
fn succeeds_on_first_attempt() {
    let (r, calls, _) = drive(&fast_policy_no_wait(), &[Ok(42)]);
    assert_eq!(r.unwrap(), 42);
    assert_eq!(calls, 1);
}

#[test]
fn retries_until_success() {
    let e = || Err(CoreError::Server { status: 503 });
    let (r, calls, _) = drive(&fast_policy_no_wait(), &[e(), e(), Ok(7)]);
    assert_eq!(r.unwrap(), 7);
    assert_eq!(calls, 3);
}

#[test]
fn gives_up_after_max_attempts() {
    let e = || Err(CoreError::Server { status: 500 });
    let (r, calls, _) = drive(&fast_policy_no_wait(), &[e(), e(), e(), e(), e(), e()]);
    assert!(matches!(r, Err(CoreError::Server { status: 500 })));
    assert_eq!(calls, 5);
}

#[test]
fn does_not_retry_cancelled() {
    let (r, calls, _) = drive(&fast_policy_no_wait(), &[Err(CoreError::Cancelled), Ok(1)]);
    assert!(matches!(r, Err(CoreError::Cancelled)));
    assert_eq!(calls, 1);
}

#[test]
fn does_not_retry_md5_mismatch() {
    let e = CoreError::Md5Mismatch { expected: "a".into(), actual: "b".into() };
    let (r, calls, _) = drive(&fast_policy_no_wait(), &[Err(e), Ok(1)]);
    assert!(matches!(r, Err(CoreError::Md5Mismatch { .. })));
    assert_eq!(calls, 1);
}

#[test]
fn does_not_retry_parse() {
    let (r, calls, _) = drive(&fast_policy_no_wait(), &[Err(CoreError::Parse("bad json".into())), Ok(1)]);
    assert!(matches!(r, Err(CoreError::Parse(_))));
    assert_eq!(calls, 1);
}

#[test]
fn rate_limit_respects_retry_after_capped() {
    // policy max_delay_ms = 5 → even if Retry-After says 60s, we cap at 5ms.
    let (_, _, waits) = drive(
        &fast_policy_no_wait(),
        &[Err(CoreError::RateLimited { retry_after_secs: Some(60) }), Ok(0)],
    );
    assert_eq!(waits, vec![5]);
}

#[test]
fn backoff_doubles_then_caps() {
    let p = RetryPolicy { max_attempts: 10, base_delay_ms: 2000, max_delay_ms: 30000 };
    let e = CoreError::Network("x".into());
    let waits: Vec<RetryStep> = (1..=6).map(|a| p.next_step(a, &e)).collect();
    assert_eq!(
        waits,
        vec![
            RetryStep::RetryAfter(2000),
            RetryStep::RetryAfter(4000),
            RetryStep::RetryAfter(8000),
            RetryStep::RetryAfter(16000),
            RetryStep::RetryAfter(30000),
            RetryStep::RetryAfter(30000),
        ]
    );
    assert_eq!(p.next_step(10, &e), RetryStep::GiveUp);
}

#[test]
fn standard_policy_waits_two_then_four_seconds() {
    let p = RetryPolicy::standard();
    let e = CoreError::Server { status: 500 };
    assert_eq!(p.next_step(1, &e), RetryStep::RetryAfter(2000));
    assert_eq!(p.next_step(2, &e), RetryStep::RetryAfter(4000));
    assert_eq!(p.next_step(3, &e), RetryStep::GiveUp);
}

#[test]
fn rate_limit_without_header_uses_base_delay() {
    let p = RetryPolicy::standard();
    assert_eq!(
        p.next_step(1, &CoreError::RateLimited { retry_after_secs: None }),
        RetryStep::RetryAfter(2000)
    );
    assert_eq!(
        p.next_step(1, &CoreError::RateLimited { retry_after_secs: Some(0) }),
        RetryStep::RetryAfter(0)
    );
    assert_eq!(
        p.next_step(2, &CoreError::RateLimited { retry_after_secs: Some(u64::MAX) }),
        RetryStep::RetryAfter(30000)
    );
}

#[test]
fn huge_base_delay_saturates() {
    let p = RetryPolicy { max_attempts: 40, base_delay_ms: u64::MAX / 2, max_delay_ms: u64::MAX };
    let e = CoreError::Io("x".into());
    assert_eq!(p.next_step(3, &e), RetryStep::RetryAfter(u64::MAX));
    // The exponent stops growing at 20.
    let q = RetryPolicy { max_attempts: 40, base_delay_ms: 1, max_delay_ms: u64::MAX };
    assert_eq!(q.next_step(30, &e), RetryStep::RetryAfter(1 << 20));
}

#[test]
fn zero_attempts_means_one_call() {
    let p = RetryPolicy { max_attempts: 0, base_delay_ms: 1, max_delay_ms: 1 };
    assert_eq!(p.next_step(1, &CoreError::Network("x".into())), RetryStep::GiveUp);
}
