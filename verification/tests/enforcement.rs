use focus_session::allowlist::AllowList;
use focus_session::enforce::{enforce, tick_action, Decision};
use focus_session::identity::SampleError;
use focus_session::session::{ConfigError, SessionConfig, SessionState};

fn session_allow_list() -> AllowList {
    AllowList::new(vec![
        "VS Code".to_string(),
        "/Applications/Google Chrome.app/Contents/MacOS/Google Chrome".to_string(),
    ])
}

#[test]
fn allowed_app_takes_no_termination() {
    let al = session_allow_list();
    let sample: Result<String, SampleError> = Ok("VS Code".to_string());
    assert_eq!(tick_action(&al, &sample), Decision::NoTermination);
}

#[test]
fn disallowed_app_is_terminated() {
    let al = session_allow_list();
    let sample: Result<String, SampleError> =
        Ok("/Applications/Safari.app/Contents/MacOS/Safari".to_string());
    assert_eq!(tick_action(&al, &sample), Decision::Terminate);
}

#[test]
fn failed_sample_skips_enforcement() {
    let al = session_allow_list();
    let sample: Result<String, SampleError> = Err(SampleError::NoFrontmostProcess);
    assert_eq!(tick_action(&al, &sample), Decision::NoTermination);
}

#[test]
fn every_sample_error_skips_enforcement() {
    let al = session_allow_list();
    for err in [
        SampleError::NoFrontmostProcess,
        SampleError::UnresolvableIdentity,
        SampleError::QueryFailed,
    ] {
        let sample: Result<String, SampleError> = Err(err);
        assert_eq!(tick_action(&al, &sample), Decision::NoTermination);
    }
}

#[test]
fn membership_is_exact_not_substring() {
    let al = session_allow_list();
    assert_eq!(enforce(&al, "VS Code"), Decision::NoTermination);
    assert_eq!(enforce(&al, "VS Cod"), Decision::Terminate);
    assert_eq!(enforce(&al, "VS Code "), Decision::Terminate);
    assert_eq!(enforce(&al, "vs code"), Decision::Terminate);
    assert_eq!(
        enforce(&al, "/Applications/Google Chrome.app/Contents/MacOS/Google Chrome"),
        Decision::NoTermination
    );
}

#[test]
fn empty_allow_list_terminates_everything() {
    let al = AllowList::new(vec![]);
    assert_eq!(enforce(&al, "VS Code"), Decision::Terminate);
    assert_eq!(enforce(&al, "anything"), Decision::Terminate);
}

#[test]
fn allow_list_is_exposed_for_display() {
    let al = session_allow_list();
    assert_eq!(al.len(), 2);
    assert_eq!(al.name_at(0).as_str(), "VS Code");
    assert_eq!(
        al.name_at(1).as_str(),
        "/Applications/Google Chrome.app/Contents/MacOS/Google Chrome"
    );
}

#[test]
fn session_expires_at_the_boundary() {
    let cfg = SessionConfig::new(60_000, 2_000).unwrap();
    assert_eq!(cfg.state(59_999), SessionState::Running);
    assert_eq!(cfg.state(60_000), SessionState::Expired);
    assert_eq!(cfg.state(61_000), SessionState::Expired);
}

#[test]
fn first_tick_past_duration_is_expired_and_samples_nothing() {
    // A session of 60 s started at t0: the first tick observed at t0 + 61 s
    // is already expired, so the loop performs no sample on it.
    let cfg = SessionConfig::new(60_000, 2_000).unwrap();
    let mut sampled = false;
    if cfg.state(61_000) == SessionState::Running {
        sampled = true;
    }
    assert!(!sampled);
}

#[test]
fn zero_duration_is_rejected_at_construction() {
    assert_eq!(
        SessionConfig::new(0, 2_000).unwrap_err(),
        ConfigError::ZeroDuration
    );
}

#[test]
fn zero_tick_interval_is_rejected_at_construction() {
    assert_eq!(
        SessionConfig::new(60_000, 0).unwrap_err(),
        ConfigError::ZeroTickInterval
    );
}

#[test]
fn accepted_configuration_is_kept_unchanged() {
    let cfg = SessionConfig::new(1_500_000, 2_000).unwrap();
    assert_eq!(cfg.duration_ms, 1_500_000);
    assert_eq!(cfg.tick_ms, 2_000);
}
