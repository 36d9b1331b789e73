use garcard::agent::{
    ActiveRequest, AuthRequest, Details, IdentitySelection, RetentionPolicy, RetentionSelection,
};
use garcard::polkit_helper::HelperOutcome;
use garcard::runtime::{
    auth_flow_step, AuthFlow, FlowEvent,
    attempt_decision, auth_max_attempts_from, authorization_ids_for_action, current_session_id,
    maintenance_action, session_id_from_proc, should_enforce_retention, AttemptDecision,
    AuthRuntime, MaintenanceAction, SubjectResolution,
};
use garcard::state::{AuthPhase, QueueInsert};

fn fake_request(cookie: &str) -> AuthRequest {
    AuthRequest {
        action_id: "org.gardesk.test".to_string(),
        message: "Authenticate".to_string(),
        icon_name: "dialog-password".to_string(),
        details: Details::new(),
        cookie: cookie.to_string(),
        identities: Vec::new(),
    }
}

#[test]
fn runtime_begin_authentication_updates_state_and_counts() {
    let mut runtime = AuthRuntime::new();

    let insert = runtime.begin_authentication(fake_request("cookie-1"));
    assert_eq!(insert, QueueInsert::Activated);
    assert_eq!(runtime.summary().state, "pending_prompt");
    assert_eq!(runtime.summary().active_requests, 1);
    assert_eq!(runtime.summary().queued_requests, 0);
}

#[test]
fn runtime_cancel_authentication_drops_active_request() {
    let mut runtime = AuthRuntime::new();
    runtime.begin_authentication(fake_request("cookie-1"));

    let canceled = runtime.cancel_authentication("cookie-1");
    assert!(canceled);
    assert_eq!(runtime.summary().state, "canceled");
    assert_eq!(runtime.summary().active_requests, 0);
    assert_eq!(runtime.summary().queued_requests, 0);
}

#[test]
fn runtime_cancel_authentication_removes_queued_request() {
    let mut runtime = AuthRuntime::new();
    runtime.begin_authentication(fake_request("cookie-1"));
    runtime.begin_authentication(fake_request("cookie-2"));

    let canceled = runtime.cancel_authentication("cookie-2");
    assert!(canceled);
    assert_eq!(runtime.summary().active_requests, 1);
    assert_eq!(runtime.summary().queued_requests, 0);
}

#[test]
fn runtime_wait_for_completion_returns_recorded_outcome() {
    let mut runtime = AuthRuntime::new();
    runtime.begin_authentication(fake_request("cookie-1"));

    runtime.complete_request("cookie-1", HelperOutcome::Authorized);

    let outcome = runtime.take_outcome("cookie-1");
    assert_eq!(outcome, Some(HelperOutcome::Authorized));
}

#[test]
fn runtime_cancel_records_canceled_outcome() {
    let mut runtime = AuthRuntime::new();
    runtime.begin_authentication(fake_request("cookie-1"));

    let canceled = runtime.cancel_authentication("cookie-1");
    assert!(canceled);

    let outcome = runtime.take_outcome("cookie-1");
    assert_eq!(outcome, Some(HelperOutcome::Canceled));
}

#[test]
fn runtime_wait_for_completion_clears_canceled_marker() {
    let mut runtime = AuthRuntime::new();
    runtime.mark_canceled("cookie-1");
    runtime.record_outcome("cookie-1", HelperOutcome::Canceled);
    assert!(runtime.is_canceled("cookie-1"));

    let outcome = runtime.take_outcome("cookie-1");
    assert_eq!(outcome, Some(HelperOutcome::Canceled));
    assert!(!runtime.is_canceled("cookie-1"));
}

#[test]
fn runtime_complete_request_promotes_next_request_and_records_outcome() {
    let mut runtime = AuthRuntime::new();
    runtime.begin_authentication(fake_request("cookie-1"));
    runtime.begin_authentication(fake_request("cookie-2"));

    runtime.complete_request("cookie-1", HelperOutcome::Denied);

    let outcome = runtime.take_outcome("cookie-1");
    assert_eq!(outcome, Some(HelperOutcome::Denied));
    assert_eq!(runtime.summary().state, "pending_prompt");
    assert_eq!(runtime.summary().active_requests, 1);
    assert_eq!(runtime.summary().queued_requests, 0);
}

#[test]
fn finalize_auth_attempt_records_retention_in_auth_summary() {
    let mut runtime = AuthRuntime::new();
    let request = ActiveRequest {
        action_id: "org.gardesk.test".to_string(),
        message: "Authenticate".to_string(),
        icon_name: "dialog-password".to_string(),
        detail_count: 0,
        details: Details::new(),
        cookie: "cookie-finalize".to_string(),
        username: "operator".to_string(),
        identity_options: vec!["operator".to_string()],
        retention_options: vec![RetentionPolicy::OneShot],
    };

    let enforce = should_enforce_retention(&request, HelperOutcome::Denied, Some(RetentionPolicy::OneShot));
    let outcome = runtime.finalize_auth_attempt(
        &request,
        HelperOutcome::Denied,
        Some(RetentionPolicy::OneShot),
        enforce,
    );
    assert_eq!(outcome, HelperOutcome::Denied);

    let summary = runtime.summary();
    assert_eq!(summary.last_action_id.as_deref(), Some("org.gardesk.test"));
    assert_eq!(summary.last_outcome.as_deref(), Some("failure"));
    assert_eq!(summary.last_retention_policy.as_deref(), Some("one-shot"));
    assert_eq!(summary.last_retention_enforced, Some(false));
}

#[test]
fn runtime_ignores_unknown_cookies_and_resets() {
    let mut runtime = AuthRuntime::new();
    assert!(!runtime.cancel_authentication("nope"));
    assert_eq!(runtime.take_outcome("nope"), None);
    runtime.begin_authentication(fake_request("a"));
    runtime.set_phase(AuthPhase::Verifying);
    runtime.complete_request("other", HelperOutcome::Authorized);
    assert_eq!(runtime.phase(), AuthPhase::Verifying);
    assert!(runtime.has_active_request());
    assert_eq!(runtime.active_request().map(|r| r.cookie.clone()), Some("a".to_string()));
    runtime.complete_request("a", HelperOutcome::Timeout);
    assert_eq!(runtime.phase(), AuthPhase::Timeout);
    assert_eq!(runtime.begin_authentication(fake_request("b")), QueueInsert::Activated);
    assert_eq!(runtime.begin_authentication(fake_request("c")), QueueInsert::Queued { position: 1 });
    assert_eq!(runtime.phase(), AuthPhase::PendingPrompt);
    runtime.reset();
    assert!(!runtime.has_active_request());
    assert_eq!(runtime.summary().state, "idle");
    assert_eq!(runtime.take_outcome("a"), None);
}

#[test]
fn attempt_decisions_retry_until_the_limit() {
    assert_eq!(attempt_decision(1, 3, Some(HelperOutcome::Denied), false), AttemptDecision::Retry);
    assert_eq!(
        attempt_decision(3, 3, Some(HelperOutcome::Denied), false),
        AttemptDecision::Finish(HelperOutcome::Denied)
    );
    assert_eq!(attempt_decision(2, 3, None, false), AttemptDecision::Retry);
    assert_eq!(attempt_decision(3, 3, None, false), AttemptDecision::Finish(HelperOutcome::Denied));
    assert_eq!(
        attempt_decision(1, 3, Some(HelperOutcome::Authorized), true),
        AttemptDecision::Finish(HelperOutcome::Canceled)
    );
    assert_eq!(
        attempt_decision(1, 3, Some(HelperOutcome::Timeout), false),
        AttemptDecision::Finish(HelperOutcome::Timeout)
    );
    assert_eq!(auth_max_attempts_from(None), 3);
    assert_eq!(auth_max_attempts_from(Some(" 5 ")), 5);
    assert_eq!(auth_max_attempts_from(Some("0")), 3);
    assert_eq!(auth_max_attempts_from(Some("x")), 3);
}

#[test]
fn retention_enforcement_and_revocation_targets() {
    let mut request = ActiveRequest {
        action_id: "a".to_string(),
        message: String::new(),
        icon_name: String::new(),
        detail_count: 0,
        details: Details::new(),
        cookie: "c".to_string(),
        username: "u".to_string(),
        identity_options: vec![],
        retention_options: vec![RetentionPolicy::OneShot, RetentionPolicy::Session],
    };
    assert!(should_enforce_retention(&request, HelperOutcome::Authorized, Some(RetentionPolicy::OneShot)));
    assert!(!should_enforce_retention(&request, HelperOutcome::Authorized, Some(RetentionPolicy::Session)));
    assert!(!should_enforce_retention(&request, HelperOutcome::Denied, Some(RetentionPolicy::OneShot)));
    request.retention_options = vec![RetentionPolicy::OneShot];
    assert!(!should_enforce_retention(&request, HelperOutcome::Authorized, Some(RetentionPolicy::OneShot)));
    let auths = vec![
        ("id1".to_string(), "x".to_string()),
        ("id2".to_string(), "y".to_string()),
        ("id3".to_string(), "x".to_string()),
    ];
    assert_eq!(authorization_ids_for_action(&auths, "x"), vec!["id1".to_string(), "id3".to_string()]);
    assert!(authorization_ids_for_action(&auths, "z").is_empty());
}

#[test]
fn session_and_subject_resolution() {
    assert_eq!(current_session_id(Some(" 3 "), Some("4")), Some("3".to_string()));
    assert_eq!(current_session_id(Some("  "), Some("4\n")), Some("4".to_string()));
    assert_eq!(current_session_id(None, Some("0")), None);
    assert_eq!(session_id_from_proc(Some("")), None);
    let session = SubjectResolution::resolve(Some("7".to_string()), 10, 1000, Some(5));
    assert_eq!(session.kind, "unix-session");
    assert_eq!(session.pid, None);
    let process = SubjectResolution::resolve(None, 10, 1000, None);
    assert_eq!(process.kind, "unix-process");
    assert_eq!(process.uid, Some(1000));
    assert!(!process.has_start_time);
    assert_eq!(maintenance_action(false, false), MaintenanceAction::Register);
    assert_eq!(maintenance_action(true, true), MaintenanceAction::Keep);
    assert_eq!(maintenance_action(true, false), MaintenanceAction::Reconnect);
}

#[test]
fn canceling_a_waiting_request_answers_it_and_keeps_the_active_one() {
    let mut runtime = AuthRuntime::new();
    runtime.begin_authentication(fake_request("cookie-1"));
    runtime.begin_authentication(fake_request("cookie-2"));
    runtime.begin_authentication(fake_request("cookie-3"));
    assert!(runtime.cancel_authentication("cookie-2"));
    assert_eq!(runtime.take_outcome("cookie-2"), Some(HelperOutcome::Canceled));
    assert_eq!(runtime.summary().active_requests, 1);
    assert_eq!(runtime.summary().queued_requests, 1);
    assert!(!runtime.cancel_authentication("cookie-9"));
    assert_eq!(runtime.take_outcome("cookie-9"), None);
}

#[test]
fn flow_asks_identity_then_retention_then_runs_attempts() {
    let (flow, retry) = auth_flow_step(
        AuthFlow::ChooseIdentity,
        FlowEvent::IdentityChosen(IdentitySelection::Selected("alice".to_string())),
        3,
    );
    assert!(!retry);
    assert_eq!(flow, AuthFlow::ChooseRetention { username: "alice".to_string() });
    let (same, _) = auth_flow_step(flow.clone(), FlowEvent::BeforeAttempt { canceled: false }, 3);
    assert_eq!(same, flow);
    let (flow, _) = auth_flow_step(
        flow,
        FlowEvent::RetentionChosen(RetentionSelection::Selected(RetentionPolicy::Session)),
        3,
    );
    assert_eq!(
        flow,
        AuthFlow::Attempt { username: "alice".to_string(), retention: RetentionPolicy::Session, attempt: 1 }
    );
    let (flow, retry) = auth_flow_step(
        flow,
        FlowEvent::AttemptEnded { result: Some(HelperOutcome::Denied), canceled: false },
        3,
    );
    assert!(retry);
    assert_eq!(
        flow,
        AuthFlow::Attempt { username: "alice".to_string(), retention: RetentionPolicy::Session, attempt: 2 }
    );
    let (flow, retry) = auth_flow_step(
        flow,
        FlowEvent::AttemptEnded { result: Some(HelperOutcome::Authorized), canceled: false },
        3,
    );
    assert!(!retry);
    assert_eq!(
        flow,
        AuthFlow::Done { outcome: HelperOutcome::Authorized, retention: Some(RetentionPolicy::Session) }
    );
}

#[test]
fn flow_skips_helper_for_canceled_request_and_ends_on_terminal_choice() {
    let attempt = AuthFlow::Attempt {
        username: "bob".to_string(),
        retention: RetentionPolicy::OneShot,
        attempt: 2,
    };
    let (flow, _) = auth_flow_step(attempt.clone(), FlowEvent::BeforeAttempt { canceled: true }, 3);
    assert_eq!(
        flow,
        AuthFlow::Done { outcome: HelperOutcome::Canceled, retention: Some(RetentionPolicy::OneShot) }
    );
    let (flow, _) = auth_flow_step(attempt, FlowEvent::BeforeAttempt { canceled: false }, 3);
    assert!(matches!(flow, AuthFlow::Attempt { attempt: 2, .. }));
    let (flow, _) = auth_flow_step(
        AuthFlow::ChooseIdentity,
        FlowEvent::IdentityChosen(IdentitySelection::Terminal(HelperOutcome::Timeout)),
        3,
    );
    assert_eq!(flow, AuthFlow::Done { outcome: HelperOutcome::Timeout, retention: None });
    let (flow, _) = auth_flow_step(
        AuthFlow::ChooseRetention { username: "bob".to_string() },
        FlowEvent::RetentionChosen(RetentionSelection::Terminal(HelperOutcome::Canceled)),
        3,
    );
    assert_eq!(flow, AuthFlow::Done { outcome: HelperOutcome::Canceled, retention: None });
    let last = AuthFlow::Attempt { username: "bob".to_string(), retention: RetentionPolicy::OneShot, attempt: 3 };
    let (flow, retry) = auth_flow_step(last, FlowEvent::AttemptEnded { result: None, canceled: false }, 3);
    assert!(!retry);
    assert_eq!(flow, AuthFlow::Done { outcome: HelperOutcome::Denied, retention: Some(RetentionPolicy::OneShot) });
}
