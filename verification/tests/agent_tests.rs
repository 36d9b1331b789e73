use garcard::agent::{
    active_request_from, detail_key_label, first_detail_value, helper_outcome_label,
    identity_options_from_subjects, parse_identity_selection, parse_retention_selection,
    render_identity_selection_prompt, render_prompt_context, render_retention_selection_prompt,
    resolve_identity_username, retention_options_from_details, select_identity_for_request,
    select_retention_for_request, ActiveRequest, AuthRequest, Details, IdentitySelection,
    IdentitySubject, RetentionPolicy, RetentionSelection,
};
use garcard::polkit_helper::{HelperOutcome, PromptError, PromptProvider, PromptResponse};
use garcard::runtime::{AuthRuntime, CancellationAwarePrompt};
use std::collections::VecDeque;

struct SequencedPrompt {
    responses: VecDeque<PromptResponse>,
    success_count: usize,
    failure_messages: Vec<String>,
    error_messages: Vec<String>,
    prompt_count: usize,
}

impl SequencedPrompt {
    fn new(responses: Vec<PromptResponse>) -> Self {
        Self {
            responses: VecDeque::from(responses),
            success_count: 0,
            failure_messages: Vec::new(),
            error_messages: Vec::new(),
            prompt_count: 0,
        }
    }
}

impl PromptProvider for SequencedPrompt {
    fn prompt_secret(&mut self, _prompt: &str) -> Result<PromptResponse, PromptError> {
        self.prompt_count += 1;
        Ok(self
            .responses
            .pop_front()
            .unwrap_or(PromptResponse::Canceled))
    }

    fn prompt_plain(&mut self, _prompt: &str) -> Result<PromptResponse, PromptError> {
        self.prompt_secret(_prompt)
    }

    fn auth_succeeded(&mut self) -> Result<(), PromptError> {
        self.success_count += 1;
        Ok(())
    }

    fn auth_failed(&mut self, message: &str) -> Result<(), PromptError> {
        self.failure_messages.push(message.to_string());
        Ok(())
    }

    fn show_error(&mut self, message: &str) -> Result<(), PromptError> {
        self.error_messages.push(message.to_string());
        Ok(())
    }
}

fn request_with(
    cookie: &str,
    identity_options: Vec<String>,
    retention_options: Vec<RetentionPolicy>,
) -> ActiveRequest {
    ActiveRequest {
        action_id: "org.gardesk.test".to_string(),
        message: "Authenticate".to_string(),
        icon_name: "dialog-password".to_string(),
        detail_count: 0,
        details: Details::new(),
        cookie: cookie.to_string(),
        username: "operator".to_string(),
        identity_options,
        retention_options,
    }
}

#[test]
fn render_prompt_context_includes_policy_details() {
    let mut details = Details::new();
    details.insert("vendor".to_string(), "Gardesk".to_string());
    details.insert("application_name".to_string(), "Meson".to_string());
    details.insert("program".to_string(), "/usr/bin/meson".to_string());
    details.insert(
        "polkit.exec.path".to_string(),
        "/usr/bin/pkexec".to_string(),
    );
    details.insert("command_line".to_string(), "meson install".to_string());
    details.insert(
        "polkit.retains_authorization_after_challenge".to_string(),
        "1".to_string(),
    );
    let request = ActiveRequest {
        action_id: "com.mesonbuild.install.run".to_string(),
        message: "Authentication is required to install this project".to_string(),
        icon_name: "preferences-system".to_string(),
        detail_count: details.len(),
        details,
        cookie: "cookie-ctx".to_string(),
        username: "operator".to_string(),
        identity_options: vec!["operator".to_string()],
        retention_options: vec![RetentionPolicy::OneShot, RetentionPolicy::Session],
    };

    let context = render_prompt_context(&request);
    assert!(context.contains("Authentication is required to install this project"));
    assert!(context.contains("Action: com.mesonbuild.install.run"));
    assert!(context.contains("Icon: preferences-system"));
    assert!(context.contains("Vendor: Gardesk"));
    assert!(context.contains("Application: Meson"));
    assert!(context.contains("Retention options: one-shot, keep-session"));
    assert!(context.contains("Program: /usr/bin/meson"));
    assert!(context.contains("Executable: /usr/bin/pkexec"));
    assert!(context.contains("Command: meson install"));
    assert!(context.contains("Retains authorization: 1"));
}

#[test]
fn render_prompt_context_exact_layout() {
    let mut details = Details::new();
    details.insert("vendor".to_string(), "   ".to_string());
    details.insert("vendor_name".to_string(), " ACME ".to_string());
    details.insert("unit".to_string(), "foo.service".to_string());
    details.insert("verb".to_string(), " ".to_string());
    let request = ActiveRequest {
        action_id: "a.b".to_string(),
        message: "  ".to_string(),
        icon_name: "".to_string(),
        detail_count: details.len(),
        details,
        cookie: "c".to_string(),
        username: "u".to_string(),
        identity_options: vec![],
        retention_options: vec![],
    };
    assert_eq!(
        render_prompt_context(&request),
        "Authentication is required\nAction: a.b\nVendor: ACME\nUnit: foo.service"
    );
}

#[test]
fn parse_identity_selection_accepts_blank_index_and_name() {
    let options = vec!["operator".to_string(), "root".to_string()];
    assert_eq!(
        parse_identity_selection("", &options, "operator"),
        Some("operator".to_string())
    );
    assert_eq!(
        parse_identity_selection("2", &options, "operator"),
        Some("root".to_string())
    );
    assert_eq!(
        parse_identity_selection("ROOT", &options, "operator"),
        Some("root".to_string())
    );
    assert_eq!(parse_identity_selection("99", &options, "operator"), None);
}

#[test]
fn retention_options_from_details_supports_session_and_always() {
    let mut session_details = Details::new();
    session_details.insert(
        "polkit.retains_authorization_after_challenge".to_string(),
        "1".to_string(),
    );
    assert_eq!(
        retention_options_from_details(&session_details),
        vec![RetentionPolicy::OneShot, RetentionPolicy::Session]
    );

    let mut always_details = Details::new();
    always_details.insert("polkit.retention".to_string(), "always".to_string());
    assert_eq!(
        retention_options_from_details(&always_details),
        vec![
            RetentionPolicy::OneShot,
            RetentionPolicy::Session,
            RetentionPolicy::Always
        ]
    );
}

#[test]
fn retention_options_off_values_and_missing_detail() {
    let mut off = Details::new();
    off.insert("retention".to_string(), " NO ".to_string());
    assert_eq!(retention_options_from_details(&off), vec![RetentionPolicy::OneShot]);
    assert_eq!(retention_options_from_details(&Details::new()), vec![RetentionPolicy::OneShot]);
    let mut two = Details::new();
    two.insert("retains_authorization_after_challenge".to_string(), "2".to_string());
    assert_eq!(retention_options_from_details(&two).len(), 3);
}

#[test]
fn parse_retention_selection_accepts_index_and_label() {
    let options = vec![
        RetentionPolicy::OneShot,
        RetentionPolicy::Session,
        RetentionPolicy::Always,
    ];
    assert_eq!(
        parse_retention_selection("", &options),
        Some(RetentionPolicy::OneShot)
    );
    assert_eq!(
        parse_retention_selection("2", &options),
        Some(RetentionPolicy::Session)
    );
    assert_eq!(
        parse_retention_selection("keep always", &options),
        Some(RetentionPolicy::Always)
    );
    assert_eq!(parse_retention_selection("unknown", &options), None);
}

#[test]
fn parse_retention_selection_respects_offered_options() {
    let options = vec![RetentionPolicy::OneShot, RetentionPolicy::Session];
    assert_eq!(parse_retention_selection(" ALWAYS ", &options), None);
    assert_eq!(parse_retention_selection("Session-Only", &options), Some(RetentionPolicy::Session));
    assert_eq!(parse_retention_selection("3", &options), None);
    assert_eq!(parse_retention_selection("default", &options), Some(RetentionPolicy::OneShot));
}

#[test]
fn helper_outcome_label_maps_outcomes() {
    assert_eq!(helper_outcome_label(HelperOutcome::Authorized), "success");
    assert_eq!(helper_outcome_label(HelperOutcome::Denied), "failure");
    assert_eq!(helper_outcome_label(HelperOutcome::Canceled), "canceled");
    assert_eq!(helper_outcome_label(HelperOutcome::Timeout), "timeout");
}

#[test]
fn select_retention_for_request_uses_prompted_choice() {
    let request = request_with(
        "cookie-retention",
        vec!["operator".to_string()],
        vec![RetentionPolicy::OneShot, RetentionPolicy::Session],
    );
    let mut prompts = SequencedPrompt::new(vec![PromptResponse::Submitted("2".to_string())]);

    let selection = select_retention_for_request(&request, &mut prompts);
    assert!(matches!(
        selection,
        RetentionSelection::Selected(RetentionPolicy::Session)
    ));
}

#[test]
fn select_identity_for_request_uses_prompted_choice() {
    let request = request_with(
        "cookie-identity",
        vec!["operator".to_string(), "root".to_string()],
        vec![RetentionPolicy::OneShot],
    );
    let mut prompts = SequencedPrompt::new(vec![PromptResponse::Submitted("2".to_string())]);

    let selection = select_identity_for_request(&request, &mut prompts);
    assert!(matches!(
        selection,
        IdentitySelection::Selected(username) if username == "root"
    ));
    assert_eq!(prompts.prompt_count, 1);
}

#[test]
fn select_identity_for_request_returns_canceled_outcome() {
    let request = request_with(
        "cookie-identity-cancel",
        vec!["operator".to_string(), "root".to_string()],
        vec![RetentionPolicy::OneShot],
    );
    let mut prompts = SequencedPrompt::new(vec![PromptResponse::Canceled]);

    let selection = select_identity_for_request(&request, &mut prompts);
    assert!(matches!(
        selection,
        IdentitySelection::Terminal(HelperOutcome::Canceled)
    ));
}

#[test]
fn selection_retries_then_falls_back_to_default() {
    let request = request_with(
        "cookie",
        vec!["operator".to_string(), "root".to_string()],
        vec![RetentionPolicy::OneShot, RetentionPolicy::Session],
    );
    let mut prompts = SequencedPrompt::new(vec![
        PromptResponse::Submitted("nobody".to_string()),
        PromptResponse::Submitted("7".to_string()),
        PromptResponse::Submitted("x".to_string()),
    ]);
    let selection = select_identity_for_request(&request, &mut prompts);
    assert_eq!(selection, IdentitySelection::Selected("operator".to_string()));
    assert_eq!(prompts.prompt_count, 3);
    assert_eq!(prompts.error_messages.len(), 3);

    let mut prompts = SequencedPrompt::new(vec![
        PromptResponse::Submitted("forever".to_string()),
        PromptResponse::TimedOut,
    ]);
    let selection = select_retention_for_request(&request, &mut prompts);
    assert_eq!(selection, RetentionSelection::Terminal(HelperOutcome::Timeout));
    assert_eq!(prompts.error_messages, vec!["Invalid retention selection"]);

    let single = request_with("c", vec!["operator".to_string()], vec![RetentionPolicy::Session]);
    let mut prompts = SequencedPrompt::new(vec![]);
    assert_eq!(
        select_identity_for_request(&single, &mut prompts),
        IdentitySelection::Selected("operator".to_string())
    );
    assert_eq!(
        select_retention_for_request(&single, &mut prompts),
        RetentionSelection::Selected(RetentionPolicy::Session)
    );
    assert_eq!(prompts.prompt_count, 0);
}

#[test]
fn retention_selection_gives_up_after_three_invalid_answers() {
    let request = request_with(
        "cookie-retention-invalid",
        vec!["operator".to_string()],
        vec![RetentionPolicy::Session, RetentionPolicy::Always],
    );
    let mut prompts = SequencedPrompt::new(vec![
        PromptResponse::Submitted("9".to_string()),
        PromptResponse::Submitted("sometimes".to_string()),
        PromptResponse::Submitted("never".to_string()),
        PromptResponse::Submitted("1".to_string()),
    ]);
    let selection = select_retention_for_request(&request, &mut prompts);
    assert_eq!(selection, RetentionSelection::Selected(RetentionPolicy::OneShot));
    assert_eq!(prompts.prompt_count, 3);
    assert_eq!(
        prompts.error_messages,
        vec![
            "Invalid retention selection",
            "Invalid retention selection",
            "Invalid retention selection"
        ]
    );
    assert_eq!(prompts.responses.len(), 1);
}

#[test]
fn identity_selection_stops_at_first_decisive_answer() {
    let request = request_with(
        "cookie-identity-second",
        vec!["operator".to_string(), "root".to_string()],
        vec![RetentionPolicy::OneShot],
    );
    let mut prompts = SequencedPrompt::new(vec![
        PromptResponse::Submitted("nobody".to_string()),
        PromptResponse::Submitted("ROOT".to_string()),
        PromptResponse::Canceled,
    ]);
    let selection = select_identity_for_request(&request, &mut prompts);
    assert_eq!(selection, IdentitySelection::Selected("root".to_string()));
    assert_eq!(prompts.prompt_count, 2);
    assert_eq!(prompts.error_messages, vec!["Invalid identity selection"]);
}

#[test]
fn selection_prompts_list_options() {
    let request = request_with(
        "c",
        vec!["operator".to_string(), "root".to_string()],
        vec![RetentionPolicy::OneShot, RetentionPolicy::Always],
    );
    assert_eq!(
        render_identity_selection_prompt(&request),
        "Select authentication identity\nAction: org.gardesk.test\n1: operator (default)\n2: root\nEnter number or username (blank for default)"
    );
    assert_eq!(
        render_retention_selection_prompt(&request),
        "Select authorization retention\nAction: org.gardesk.test\n1: One-shot (default)\n2: Keep always\nEnter number or label (blank for default)"
    );
}

#[test]
fn identity_options_dedupe_and_resolution() {
    let ids = vec![
        IdentitySubject { kind: "unix-group".to_string(), name: Some("wheel".to_string()) },
        IdentitySubject { kind: "unix-user".to_string(), name: Some(" Root ".to_string()) },
        IdentitySubject { kind: "unix-user".to_string(), name: None },
        IdentitySubject { kind: "unix-user".to_string(), name: Some("root".to_string()) },
        IdentitySubject { kind: "unix-user".to_string(), name: Some("  ".to_string()) },
        IdentitySubject { kind: "unix-user".to_string(), name: Some("alice".to_string()) },
    ];
    assert_eq!(
        identity_options_from_subjects(&ids),
        vec!["Root".to_string(), "alice".to_string()]
    );
    assert_eq!(resolve_identity_username(&ids, Some("alice")), Some("alice".to_string()));
    assert_eq!(resolve_identity_username(&ids, Some("bob")), Some(" Root ".to_string()));
    assert_eq!(resolve_identity_username(&ids, None), Some(" Root ".to_string()));
    assert_eq!(resolve_identity_username(&ids[..1].to_vec(), Some("bob")), None);
}

#[test]
fn active_request_puts_resolved_user_first() {
    let mut details = Details::new();
    details.insert("polkit.retention".to_string(), "session".to_string());
    let request = AuthRequest {
        action_id: "org.gardesk.test".to_string(),
        message: "Authenticate".to_string(),
        icon_name: "dialog-password".to_string(),
        details,
        cookie: "cookie-1".to_string(),
        identities: vec![IdentitySubject { kind: "unix-user".to_string(), name: Some("root".to_string()) }],
    };
    let active = active_request_from(&request, Some("operator"), Some("env-user"));
    assert_eq!(active.username, "root");
    assert_eq!(active.identity_options, vec!["root".to_string()]);
    assert_eq!(active.retention_options, vec![RetentionPolicy::OneShot, RetentionPolicy::Session]);
    assert_eq!(active.detail_count, 1);
    assert_eq!(active.cookie, "cookie-1");

    let bare = AuthRequest {
        action_id: "a".to_string(),
        message: "m".to_string(),
        icon_name: "i".to_string(),
        details: Details::new(),
        cookie: "c".to_string(),
        identities: vec![],
    };
    let active = active_request_from(&bare, None, Some("env-user"));
    assert_eq!(active.username, "env-user");
    assert_eq!(active.identity_options, vec!["env-user".to_string()]);
    let active = active_request_from(&bare, None, None);
    assert_eq!(active.username, "unknown");
}

#[test]
fn detail_lookup_helpers() {
    let mut details = Details::new();
    details.insert("vendor".to_string(), " ".to_string());
    details.insert("polkit.vendor".to_string(), " X ".to_string());
    details.insert("polkit.vendor".to_string(), " Y ".to_string());
    assert_eq!(details.len(), 2);
    assert_eq!(first_detail_value(&details, &vec!["vendor", "polkit.vendor"]), Some("Y".to_string()));
    assert_eq!(first_detail_value(&details, &vec!["vendor"]), None);
    assert_eq!(detail_key_label("polkit.exec.argv1"), "Executable Arg");
    assert_eq!(detail_key_label("whatever"), "Detail");
    assert_eq!(details.remove("vendor"), Some(" ".to_string()));
    assert!(!details.contains_key("vendor"));
    assert_eq!(details.get("polkit.vendor"), Some(&" Y ".to_string()));
}

#[test]
fn cancellation_aware_prompt_short_circuits_prompt_and_feedback() {
    let mut runtime = AuthRuntime::new();
    runtime.mark_canceled("cookie-1");

    let mut prompts =
        SequencedPrompt::new(vec![PromptResponse::Submitted("correct horse".to_string())]);
    {
        let mut wrapped = CancellationAwarePrompt::new(&mut prompts, &runtime, "cookie-1");
        let response = wrapped
            .prompt_secret("Password:")
            .expect("prompt response should be canceled");
        assert_eq!(response, PromptResponse::Canceled);
        wrapped
            .auth_succeeded()
            .expect("suppressed success callback");
    }

    assert_eq!(prompts.prompt_count, 0);
    assert_eq!(prompts.success_count, 0);
}

#[test]
fn cancellation_aware_prompt_passes_through_when_not_canceled() {
    let runtime = AuthRuntime::new();
    let mut prompts =
        SequencedPrompt::new(vec![PromptResponse::Submitted("correct horse".to_string())]);
    {
        let mut wrapped = CancellationAwarePrompt::new(&mut prompts, &runtime, "cookie-1");
        let response = wrapped.prompt_plain("Code:").expect("prompt");
        assert_eq!(response, PromptResponse::Submitted("correct horse".to_string()));
        wrapped.auth_failed("Authentication failed").expect("feedback");
    }
    assert_eq!(prompts.prompt_count, 1);
    assert_eq!(prompts.failure_messages, vec!["Authentication failed".to_string()]);
}

#[test]
fn cancellation_aware_prompt_forwards_arguments_unchanged() {
    let runtime = AuthRuntime::new();
    let mut prompts = SequencedPrompt::new(vec![
        PromptResponse::Submitted("first".to_string()),
        PromptResponse::TimedOut,
    ]);
    {
        let mut wrapped = CancellationAwarePrompt::new(&mut prompts, &runtime, "cookie-2");
        assert_eq!(
            wrapped.prompt_secret("Password:").expect("prompt"),
            PromptResponse::Submitted("first".to_string())
        );
        assert_eq!(wrapped.prompt_plain("Code:").expect("prompt"), PromptResponse::TimedOut);
        wrapped.show_error("bad code").expect("error shown");
        wrapped.auth_succeeded().expect("success shown");
    }
    assert_eq!(prompts.prompt_count, 2);
    assert_eq!(prompts.error_messages, vec!["bad code".to_string()]);
    assert_eq!(prompts.success_count, 1);
}
