use garcard::polkit_helper::{
    control_lines, direct_helper_candidates, on_prompt_response, parse_helper_line, sanitize_control_line,
    sanitize_response, scrub_string, zero_bytes, HelperAction, HelperConversation, HelperEvent,
    HelperOutcome, HelperSocketClient, HelperTransport, PromptResponse, ResponseAction,
    DEFAULT_HELPER_SOCKET,
};

#[test]
fn parse_helper_prompt_lines() {
    assert_eq!(
        parse_helper_line("PAM_PROMPT_ECHO_OFF Password:").expect("parse hidden"),
        HelperEvent::PromptHidden("Password:".to_string())
    );
    assert_eq!(
        parse_helper_line("PAM_PROMPT_ECHO_ON OTP:").expect("parse visible"),
        HelperEvent::PromptVisible("OTP:".to_string())
    );
}

#[test]
fn parse_helper_info_error_and_status() {
    assert_eq!(
        parse_helper_line("PAM_ERROR_MSG nope").expect("parse error"),
        HelperEvent::Error("nope".to_string())
    );
    assert_eq!(
        parse_helper_line("PAM_TEXT_INFO hint").expect("parse info"),
        HelperEvent::Info("hint".to_string())
    );
    assert_eq!(
        parse_helper_line("SUCCESS").expect("parse success"),
        HelperEvent::Success
    );
    assert_eq!(
        parse_helper_line("FAILURE").expect("parse failure"),
        HelperEvent::Failure
    );
}

#[test]
fn parse_helper_line_rejects_unknown_prefix() {
    let err = parse_helper_line("WAT nope").expect_err("unknown line should fail");
    assert!(err.message().contains("unsupported helper protocol line"));
}

#[test]
fn parse_helper_line_maps_plaintext_failure_diagnostics_to_error() {
    assert_eq!(
        parse_helper_line(
            "polkit-agent-helper-1: pam_authenticate failed: Authentication failure"
        )
        .expect("maps error"),
        HelperEvent::Error(
            "polkit-agent-helper-1: pam_authenticate failed: Authentication failure"
                .to_string()
        )
    );
    assert_eq!(
        parse_helper_line("polkit-agent-helper-1: error response to PolicyKit daemon: GDBus.Error:org.freedesktop.PolicyKit1.Error.Failed: No session for cookie")
            .expect("maps cookie error"),
        HelperEvent::Error("polkit-agent-helper-1: error response to PolicyKit daemon: GDBus.Error:org.freedesktop.PolicyKit1.Error.Failed: No session for cookie".to_string())
    );
}

#[test]
fn parse_helper_line_maps_plaintext_info() {
    assert_eq!(
        parse_helper_line("polkit-agent-helper-1: informational message").expect("maps info"),
        HelperEvent::Info("polkit-agent-helper-1: informational message".to_string())
    );
}

#[test]
fn polkit_helper_scrub_string_clears_input() {
    let mut value = "top-secret".to_string();
    scrub_string(&mut value);
    assert!(value.is_empty());
}

#[test]
fn parse_helper_line_strips_line_endings() {
    assert_eq!(parse_helper_line("SUCCESS\r\n").expect("crlf"), HelperEvent::Success);
    assert_eq!(parse_helper_line("FAILURE\n\n").expect("lf"), HelperEvent::Failure);
    assert_eq!(
        parse_helper_line("PAM_PROMPT_ECHO_OFF Password: \n").expect("trailing space kept"),
        HelperEvent::PromptHidden("Password: ".to_string())
    );
    let err = parse_helper_line("success\n").expect_err("case matters");
    assert_eq!(err.line, "success");
    assert_eq!(err.message(), "unsupported helper protocol line: success");
}

#[test]
fn sanitize_response_joins_lines() {
    assert_eq!(sanitize_response("correct horse"), "correct horse");
    assert_eq!(sanitize_response("a\nb\r\nc\n"), "a b c");
    assert_eq!(sanitize_response("a\n\nb"), "a  b");
    assert_eq!(sanitize_response("a\r"), "a\r");
    assert_eq!(sanitize_response(""), "");
    assert_eq!(sanitize_control_line("  alice\n"), "alice");
    assert_eq!(sanitize_control_line(" al\nice "), "al ice");
    let (user, cookie) = control_lines("alice\n", " cookie-123 ");
    assert_eq!(user, "alice");
    assert_eq!(cookie, "cookie-123");
}

#[test]
fn conversation_decides_per_line() {
    let mut conv = HelperConversation::new(HelperTransport::Socket);
    assert_eq!(
        conv.on_line("PAM_PROMPT_ECHO_OFF Password:\n"),
        HelperAction::PromptSecret("Password:".to_string())
    );
    assert_eq!(conv.on_line("PAM_TEXT_INFO hi"), HelperAction::ShowInfo("hi".to_string()));
    assert_eq!(
        conv.on_line("WAT"),
        HelperAction::ShowError("unsupported helper protocol line: WAT".to_string())
    );
    assert_eq!(conv.on_line("FAILURE"), HelperAction::Fail);
    assert!(!conv.saw_no_session_cookie);
    assert_eq!(
        conv.on_line("PAM_ERROR_MSG No Session For Cookie"),
        HelperAction::ShowError("No Session For Cookie".to_string())
    );
    assert!(conv.saw_no_session_cookie);
    assert_eq!(conv.on_line("FAILURE"), HelperAction::FallBackToHelperProcess);
    assert_eq!(conv.on_line("SUCCESS"), HelperAction::Succeed);

    let mut direct = HelperConversation::new(HelperTransport::DirectProcess);
    assert_eq!(
        direct.on_line("PAM_ERROR_MSG no session for cookie"),
        HelperAction::ShowError("no session for cookie".to_string())
    );
    assert!(!direct.saw_no_session_cookie);
    assert_eq!(direct.on_line("FAILURE"), HelperAction::Fail);
}

#[test]
fn prompt_responses_map_to_actions() {
    assert_eq!(
        on_prompt_response(PromptResponse::Submitted("correct\nhorse".to_string())),
        ResponseAction::Send("correct horse".to_string())
    );
    assert_eq!(
        on_prompt_response(PromptResponse::Canceled),
        ResponseAction::Finish(HelperOutcome::Canceled)
    );
    assert_eq!(
        on_prompt_response(PromptResponse::TimedOut),
        ResponseAction::Finish(HelperOutcome::Timeout)
    );
}

#[test]
fn helper_client_keeps_socket_path() {
    let client = HelperSocketClient::new("/tmp/helper.sock".to_string());
    assert_eq!(client.socket_path(), "/tmp/helper.sock");
    assert_eq!(HelperSocketClient::default().socket_path(), DEFAULT_HELPER_SOCKET);
    let mut bytes = vec![1u8, 2, 3];
    zero_bytes(&mut bytes);
    assert_eq!(bytes, vec![0u8, 0, 0]);
}

#[test]
fn direct_helper_candidates_follow_lookup_order() {
    let roots = vec!["/nix/store/abc-polkit".to_string()];
    let candidates = direct_helper_candidates(Some("/opt/helper"), Some("/usr/bin::/sbin/"), &roots);
    assert_eq!(
        candidates,
        vec![
            "/opt/helper",
            "/run/wrappers/bin/polkit-agent-helper-1",
            "/usr/lib/polkit-1/polkit-agent-helper-1",
            "/usr/lib64/polkit-1/polkit-agent-helper-1",
            "/lib/polkit-1/polkit-agent-helper-1",
            "/usr/bin/polkit-agent-helper-1",
            "polkit-agent-helper-1",
            "/sbin/polkit-agent-helper-1",
            "/nix/store/abc-polkit/lib/polkit-1/polkit-agent-helper-1",
        ]
    );
}

#[test]
fn direct_helper_candidates_without_environment_are_the_fixed_places() {
    let candidates = direct_helper_candidates(None, None, &Vec::new());
    assert_eq!(candidates.len(), 4);
    assert_eq!(candidates[0], "/run/wrappers/bin/polkit-agent-helper-1");
    assert_eq!(candidates[3], "/lib/polkit-1/polkit-agent-helper-1");
}
