use sudo_cache::cache::SudoCache;
use sudo_cache::exec::classify_execution;
use sudo_cache::flow::{after_cached_attempt, after_verification, begin_request, NextStep, VerifyOutcome};
use sudo_cache::types::SudoRequest;

fn request(password: Option<&str>) -> SudoRequest {
    SudoRequest {
        command: "ls".to_string(),
        args: vec!["-la".to_string()],
        password: password.map(|p| p.to_string()),
    }
}

#[test]
fn scenario_no_cache_no_password() {
    let mut cache = SudoCache::new();
    let step = begin_request(&mut cache, 1000, 50, &request(None));
    match step {
        NextStep::Finish { response } => {
            assert!(!response.success);
            assert!(response.needs_password);
            assert_eq!(response.error.as_deref(), Some("Password required"));
            assert_eq!(response.output, "");
            assert!(!response.cached);
        }
        _ => panic!("expected a terminal password request"),
    }
}

#[test]
fn scenario_correct_password_then_cached() {
    let mut cache = SudoCache::new();
    let user_id = 1000;
    // First call: no cache entry, a credential is supplied.
    let step = begin_request(&mut cache, user_id, 50, &request(Some("s3cret")));
    assert!(matches!(step, NextStep::Verify));
    // The tool accepts the credential: a token is recorded and execution
    // proceeds in authenticated mode.
    let step = after_verification(&mut cache, user_id, 60, VerifyOutcome::Accepted);
    assert!(matches!(step, NextStep::RunFresh));
    let response = classify_execution(true, "done\n".to_string(), String::new(), false);
    assert!(response.success);
    assert!(!response.cached);
    assert_eq!(response.output, "done\n");
    assert_eq!(response.error, None);
    // Second call within the window, no credential: the cached path is taken.
    let step = begin_request(&mut cache, user_id, 120, &request(None));
    assert!(matches!(step, NextStep::RunCached));
    let response = classify_execution(true, "done\n".to_string(), String::new(), true);
    assert!(response.success);
    assert!(response.cached);
}

#[test]
fn scenario_incorrect_password() {
    let mut cache = SudoCache::new();
    let user_id = 1000;
    let step = begin_request(&mut cache, user_id, 50, &request(Some("wrong")));
    assert!(matches!(step, NextStep::Verify));
    let step = after_verification(&mut cache, user_id, 55, VerifyOutcome::Rejected);
    match step {
        NextStep::Finish { response } => {
            assert!(!response.success);
            assert!(response.needs_password);
            assert_eq!(response.error.as_deref(), Some("Invalid password"));
        }
        _ => panic!("expected a terminal rejection"),
    }
    // No cache entry was created for the rejected credential.
    assert!(!cache.is_authenticated(user_id, 15, 55));
}

#[test]
fn scenario_verifier_failure() {
    let mut cache = SudoCache::new();
    let step = after_verification(&mut cache, 1000, 55, VerifyOutcome::Failed);
    match step {
        NextStep::Finish { response } => {
            assert!(!response.success);
            assert!(!response.needs_password);
            assert_eq!(response.error.as_deref(), Some("Authentication error"));
        }
        _ => panic!("expected a terminal authentication error"),
    }
    assert!(!cache.is_authenticated(1000, 15, 55));
}

#[test]
fn scenario_stale_session_falls_through_to_password() {
    let mut cache = SudoCache::new();
    let user_id = 1000;
    cache.authenticate(user_id, 40);
    // The local cache is fresh, so the cached path is attempted first.
    let step = begin_request(&mut cache, user_id, 50, &request(Some("s3cret")));
    assert!(matches!(step, NextStep::RunCached));
    // The tool's own session had lapsed: its non-interactive attempt fails
    // with the stale-session signature.
    let stderr = "sudo: a password is required\nsudo: no password entry found\n".to_string();
    let response = classify_execution(false, String::new(), stderr, true);
    assert!(!response.success);
    assert!(response.needs_password);
    assert_eq!(response.error.as_deref(), Some("Authentication required"));
    // The orchestrator transparently moves to the credential path.
    let step = after_cached_attempt(response, true);
    assert!(matches!(step, NextStep::Verify));
}

#[test]
fn stale_session_without_password_asks_for_one() {
    let stderr = "no password entry".to_string();
    let response = classify_execution(false, String::new(), stderr, true);
    assert!(response.needs_password);
    let step = after_cached_attempt(response, false);
    match step {
        NextStep::Finish { response } => {
            assert!(!response.success);
            assert!(response.needs_password);
            assert_eq!(response.error.as_deref(), Some("Password required"));
        }
        _ => panic!("expected a terminal password request"),
    }
}

#[test]
fn genuine_failure_is_terminal() {
    // A cached attempt that fails for reasons unrelated to authentication is
    // returned as-is, never retried with a credential prompt.
    let stderr = "rm: cannot remove 'x': No such file or directory\n".to_string();
    let response = classify_execution(false, "partial".to_string(), stderr.clone(), true);
    assert!(!response.success);
    assert!(!response.needs_password);
    assert_eq!(response.error.as_deref(), Some(stderr.as_str()));
    assert_eq!(response.output, "partial");
    let step = after_cached_attempt(response, true);
    match step {
        NextStep::Finish { response } => {
            assert!(!response.success);
            assert!(!response.needs_password);
            assert_eq!(response.error.as_deref(), Some(stderr.as_str()));
        }
        _ => panic!("expected the failure to be terminal"),
    }
}

#[test]
fn successful_response_is_terminal() {
    let response = classify_execution(true, "ok\n".to_string(), String::new(), true);
    let step = after_cached_attempt(response, false);
    match step {
        NextStep::Finish { response } => {
            assert!(response.success);
            assert!(response.cached);
            assert_eq!(response.output, "ok\n");
        }
        _ => panic!("expected the success to be terminal"),
    }
}

#[test]
fn expired_entry_asks_for_password() {
    let mut cache = SudoCache::new();
    let user_id = 1000;
    cache.authenticate(user_id, 0);
    // 15 minutes later the token has lapsed; with no credential supplied the
    // orchestrator asks for one instead of attempting the cached path.
    let step = begin_request(&mut cache, user_id, 15 * 60, &request(None));
    match step {
        NextStep::Finish { response } => {
            assert!(response.needs_password);
            assert_eq!(response.error.as_deref(), Some("Password required"));
        }
        _ => panic!("expected a terminal password request"),
    }
}
