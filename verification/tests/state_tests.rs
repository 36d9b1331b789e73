use garcard::state::{AuthPhase, AuthQueue, AuthState, QueueInsert, RuntimeState, can_transition};

#[test]
fn auth_state_defaults_to_idle_phase() {
    let state = AuthState::default();
    let summary = state.summary();
    assert_eq!(summary.state, "idle");
    assert_eq!(summary.active_requests, 0);
    assert_eq!(summary.queued_requests, 0);
    assert!(summary.last_action_id.is_none());
    assert!(summary.last_outcome.is_none());
    assert!(summary.last_retention_policy.is_none());
    assert!(summary.last_retention_enforced.is_none());
}

#[test]
fn auth_state_updates_summary() {
    let mut state = AuthState::default();
    state.set_phase(AuthPhase::Verifying);
    state.set_active_requests(2);
    state.set_queued_requests(3);

    let summary = state.summary();
    assert_eq!(summary.state, "verifying");
    assert_eq!(summary.active_requests, 2);
    assert_eq!(summary.queued_requests, 3);
}

#[test]
fn auth_state_records_last_decision_context() {
    let mut state = AuthState::default();
    state.set_last_decision(
        "com.gardesk.install",
        "success",
        Some("one-shot".to_string()),
        true,
    );

    let summary = state.summary();
    assert_eq!(
        summary.last_action_id.as_deref(),
        Some("com.gardesk.install")
    );
    assert_eq!(summary.last_outcome.as_deref(), Some("success"));
    assert_eq!(summary.last_retention_policy.as_deref(), Some("one-shot"));
    assert_eq!(summary.last_retention_enforced, Some(true));
}

#[test]
fn auth_phase_transition_rules_are_enforced() {
    let mut state = AuthState::default();
    assert!(state.transition(AuthPhase::PendingPrompt));
    assert!(state.transition(AuthPhase::Verifying));
    assert!(state.transition(AuthPhase::Failure));
    assert!(state.transition(AuthPhase::Idle));
    assert!(!state.transition(AuthPhase::Verifying));
    assert_eq!(state.phase(), AuthPhase::Idle);
}

#[test]
fn auth_queue_activates_then_queues() {
    let mut queue = AuthQueue::default();
    assert_eq!(queue.push(10), QueueInsert::Activated);
    assert_eq!(queue.push(20), QueueInsert::Queued { position: 1 });
    assert_eq!(queue.push(30), QueueInsert::Queued { position: 2 });
    assert_eq!(queue.active(), Some(&10));
    assert_eq!(queue.counts(), (1, 2));
}

#[test]
fn auth_queue_completion_promotes_next_request() {
    let mut queue = AuthQueue::default();
    queue.push("first");
    queue.push("second");
    queue.push("third");

    assert_eq!(queue.complete_active(), Some("first"));
    assert_eq!(queue.active(), Some(&"second"));
    assert_eq!(queue.complete_active(), Some("second"));
    assert_eq!(queue.active(), Some(&"third"));
    assert_eq!(queue.complete_active(), Some("third"));
    assert!(queue.is_empty());
}

#[test]
fn auth_queue_take_active_if_promotes_next() {
    let mut queue = AuthQueue::default();
    queue.push("cookie-a");
    queue.push("cookie-b");

    let removed = queue.take_active_if(|value| *value == "cookie-a");
    assert_eq!(removed, Some("cookie-a"));
    assert_eq!(queue.active(), Some(&"cookie-b"));
}

#[test]
fn auth_queue_remove_queued_if_removes_specific_item() {
    let mut queue = AuthQueue::default();
    queue.push("cookie-a");
    queue.push("cookie-b");
    queue.push("cookie-c");

    assert!(queue.remove_queued_if(|value| *value == "cookie-b"));
    assert_eq!(queue.counts(), (1, 1));
    assert!(!queue.remove_queued_if(|value| *value == "missing"));
}

#[test]
fn auth_queue_take_active_if_leaves_other_requests() {
    let mut queue = AuthQueue::default();
    queue.push("cookie-a");
    queue.push("cookie-b");
    assert_eq!(queue.take_active_if(|value| *value == "cookie-b"), None);
    assert_eq!(queue.active(), Some(&"cookie-a"));
    assert_eq!(queue.counts(), (1, 1));
    assert!(!queue.remove_queued_if(|value| *value == "cookie-a"));
}

#[test]
fn auth_queue_is_fifo_and_clear_empties() {
    let mut queue = AuthQueue::new();
    assert!(queue.is_empty());
    assert_eq!(queue.complete_active(), None);
    queue.push(1);
    queue.push(2);
    queue.push(3);
    assert!(queue.remove_queued_if(|value| *value == 2));
    assert_eq!(queue.complete_active(), Some(1));
    assert_eq!(queue.complete_active_if(|value| *value == 3), Some(3));
    assert!(queue.is_empty());
    queue.push(4);
    queue.push(5);
    queue.clear();
    assert_eq!(queue.counts(), (0, 0));
    assert_eq!(queue.active_len(), 0);
    assert_eq!(queue.queued_len(), 0);
}

#[test]
fn can_transition_follows_phase_graph() {
    assert!(can_transition(AuthPhase::Idle, AuthPhase::Idle));
    assert!(can_transition(AuthPhase::Idle, AuthPhase::PendingPrompt));
    assert!(!can_transition(AuthPhase::Idle, AuthPhase::Verifying));
    assert!(can_transition(AuthPhase::PendingPrompt, AuthPhase::Timeout));
    assert!(!can_transition(AuthPhase::PendingPrompt, AuthPhase::Success));
    assert!(can_transition(AuthPhase::Verifying, AuthPhase::Success));
    assert!(can_transition(AuthPhase::Canceled, AuthPhase::PendingPrompt));
    assert!(!can_transition(AuthPhase::Success, AuthPhase::Failure));
    assert_eq!(AuthPhase::PendingPrompt.as_str(), "pending_prompt");
    assert_eq!(AuthPhase::Timeout.as_str(), "timeout");
}

#[test]
fn auth_state_clear_last_decision_forgets_it() {
    let mut state = AuthState::new();
    state.set_last_decision("a", "failure", None, false);
    assert_eq!(state.summary().last_retention_policy, None);
    assert_eq!(state.summary().last_retention_enforced, Some(false));
    state.clear_last_decision();
    assert!(state.summary().last_action_id.is_none());
    state.sync_queue_counts(1, 4);
    assert_eq!(state.summary().active_requests, 1);
    assert_eq!(state.summary().queued_requests, 4);
}

#[test]
fn runtime_state_resets_auth_state() {
    let mut auth = AuthState::new();
    auth.set_phase(AuthPhase::Failure);
    auth.sync_queue_counts(1, 2);
    auth.set_last_decision("x", "failure", None, false);
    let mut state = RuntimeState::with_auth("/tmp/garcard-test.sock".to_string(), "test-backend", 42, auth);
    assert_eq!(state.pid(), 42);
    assert_eq!(state.socket_path(), "/tmp/garcard-test.sock");
    assert_eq!(state.backend_name(), "test-backend");
    let summary = state.auth_summary();
    assert_eq!(summary.state, "idle");
    assert_eq!(summary.active_requests, 0);
    assert!(summary.last_action_id.is_none());
    state.auth_mutation().set_phase(AuthPhase::Verifying);
    assert_eq!(state.auth_summary().state, "verifying");
    let fresh = RuntimeState::new("s".to_string(), "b", 7);
    assert_eq!(fresh.auth_summary().state, "idle");
}

#[test]
fn complete_active_if_agrees_with_take_active_if() {
    for target in [1, 2, 7] {
        let mut taken = AuthQueue::default();
        let mut completed = AuthQueue::default();
        for value in [1, 2, 3] {
            taken.push(value);
            completed.push(value);
        }
        let a = taken.take_active_if(|value| *value == target);
        let b = completed.complete_active_if(|value| *value == target);
        assert_eq!(a, b);
        assert_eq!(taken.active(), completed.active());
        assert_eq!(taken.counts(), completed.counts());
    }
}
