use sudo_cache::exec::{
    direct_response, invalidate_session_args, probe_args, session_stale, sudo_invocation_args,
    verify_args,
};

#[test]
fn cached_invocation_uses_the_non_interactive_flag() {
    let command = "apt".to_string();
    let args = vec!["update".to_string(), "-y".to_string()];
    let argv = sudo_invocation_args(&command, &args, true);
    assert_eq!(argv, vec!["-n", "apt", "update", "-y"]);
}

#[test]
fn fresh_invocation_has_no_flag() {
    let command = "apt".to_string();
    let args = vec!["update".to_string()];
    let argv = sudo_invocation_args(&command, &args, false);
    assert_eq!(argv, vec!["apt", "update"]);
}

#[test]
fn credential_never_appears_in_argument_lists() {
    let password = "hunter2-s3cret";
    let command = "systemctl".to_string();
    let args = vec!["restart".to_string(), "nginx".to_string()];
    for argv in [
        sudo_invocation_args(&command, &args, true),
        sudo_invocation_args(&command, &args, false),
        verify_args(),
        probe_args(),
        invalidate_session_args(),
    ] {
        assert!(argv.iter().all(|a| a != password));
        assert!(argv.iter().all(|a| !a.contains(password)));
    }
}

#[test]
fn verify_arguments_read_the_credential_from_stdin() {
    assert_eq!(verify_args(), vec!["-S", "-v"]);
}

#[test]
fn probe_arguments_run_a_noop_non_interactively() {
    assert_eq!(probe_args(), vec!["-n", "true"]);
}

#[test]
fn invalidate_arguments_revoke_the_tool_session() {
    assert_eq!(invalidate_session_args(), vec!["-k"]);
}

#[test]
fn stale_signature_detection() {
    assert!(session_stale("sudo: no password entry found"));
    assert!(session_stale("no password entry"));
    assert!(!session_stale("permission denied"));
    assert!(!session_stale(""));
    assert!(!session_stale("no password"));
}

#[test]
fn direct_response_mirrors_the_tool() {
    let ok = direct_response(true, "out\n".to_string(), String::new());
    assert!(ok.success);
    assert_eq!(ok.output, "out\n");
    assert_eq!(ok.error, None);
    assert!(!ok.cached);
    assert!(!ok.needs_password);

    let bad = direct_response(false, String::new(), "boom\n".to_string());
    assert!(!bad.success);
    assert_eq!(bad.error.as_deref(), Some("boom\n"));
    assert!(!bad.needs_password);
}
