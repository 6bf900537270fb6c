use libfetch::retry::{
    default_retry_policy, exhausted_message, resolve_from_attempts, retry_begin,
    retry_more_attempts, retry_step, RetryVerdict,
};

#[test]
fn default_policy_is_three_attempts_three_seconds() {
    let p = default_retry_policy();
    assert_eq!(p.retry_count, 3);
    assert_eq!(p.retry_delay_secs, 3);
}

#[test]
fn retry_exhaustion_uses_exactly_three_attempts() {
    let outcomes: Vec<Result<String, String>> = vec![
        Err(String::from("first failure")),
        Err(String::from("second failure")),
        Err(String::from("third failure")),
        Ok(String::from("v9.9.9")),
    ];
    // With retry_count = 3, the fourth outcome is never consulted: the
    // result is the aggregated error embedding the third attempt's message.
    let r = resolve_from_attempts(3, &outcomes);
    let msg = r.expect_err("three failures exhaust three attempts");
    assert_eq!(msg, "unable to fetch latest version: third failure");
    assert!(msg.contains("third failure"));
}

#[test]
fn first_success_stops_the_attempts() {
    let outcomes: Vec<Result<String, String>> = vec![
        Err(String::from("transient")),
        Ok(String::from("v1.0.0")),
        Err(String::from("never reached")),
    ];
    let r = resolve_from_attempts(3, &outcomes);
    assert_eq!(r.expect("second attempt succeeds"), "v1.0.0");
}

#[test]
fn zero_attempts_give_the_bare_aggregated_error() {
    let outcomes: Vec<Result<String, String>> = Vec::new();
    let r = resolve_from_attempts(0, &outcomes);
    assert_eq!(r.expect_err("no attempt can succeed"), "unable to fetch latest version: ");
}

#[test]
fn exhausted_message_embeds_the_last_failure() {
    assert_eq!(
        exhausted_message("connection refused"),
        "unable to fetch latest version: connection refused"
    );
}

#[test]
fn retry_step_machine_performs_exactly_three_attempts() {
    let policy = default_retry_policy();
    let mut state = retry_begin();

    assert!(retry_more_attempts(&policy, &state));
    state = match retry_step(&policy, state, Err(String::from("first failure"))) {
        RetryVerdict::TryAgain(next) => next,
        _ => panic!("two attempts remain after the first failure"),
    };
    assert_eq!(state.attempts_made, 1);

    assert!(retry_more_attempts(&policy, &state));
    state = match retry_step(&policy, state, Err(String::from("second failure"))) {
        RetryVerdict::TryAgain(next) => next,
        _ => panic!("one attempt remains after the second failure"),
    };
    assert_eq!(state.attempts_made, 2);
    assert_eq!(state.last_error, "second failure");

    assert!(retry_more_attempts(&policy, &state));
    match retry_step(&policy, state, Err(String::from("third failure"))) {
        RetryVerdict::GiveUp(msg) => {
            assert_eq!(msg, "unable to fetch latest version: third failure");
        },
        _ => panic!("the third failure exhausts the policy"),
    }
}

#[test]
fn retry_step_machine_stops_at_the_first_success() {
    let policy = default_retry_policy();
    let state = retry_begin();
    match retry_step(&policy, state, Ok(String::from("v1.2.3"))) {
        RetryVerdict::Resolved(tag) => assert_eq!(tag, "v1.2.3"),
        _ => panic!("a success resolves at once"),
    }
}
