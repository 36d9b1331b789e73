use garcard::prompt::{
    ask_password_args, exit_response, extract_response, feedback_request,
    feedback_subcommand_args, map_output_to_prompt_response, prompt_mode_arg, prompt_request,
    prompt_subcommand_args, prompt_timeout_from, response_from_text, scrub_bytes,
    subcommand_unavailable, to_ui_tone, PromptRouter, PromptTone, SessionStep,
};
use garcard::polkit_helper::PromptResponse;
use garcard::prompt_ui::{PromptExit, PromptMode, PromptTone as UiPromptTone};

#[test]
fn extract_response_trims_whitespace() {
    let response = extract_response(b"  hello world \n");
    assert_eq!(response.as_deref(), Some("hello world"));
}

#[test]
fn extract_response_rejects_empty_value() {
    assert_eq!(extract_response(b" \n\t"), None);
}

#[test]
fn map_output_maps_timeout_status_code() {
    // What `sh -c "exit 124"` reports: not a success, exit code 124.
    let mapped = map_output_to_prompt_response(false, Some(124), b"");
    assert_eq!(mapped, PromptResponse::TimedOut);
}

#[test]
fn scrub_bytes_clears_vec() {
    let mut value = b"top-secret".to_vec();
    scrub_bytes(&mut value);
    assert!(value.is_empty());
}

#[test]
fn map_output_covers_success_and_failures() {
    assert_eq!(
        map_output_to_prompt_response(true, Some(0), b"secret\n"),
        PromptResponse::Submitted("secret".to_string())
    );
    assert_eq!(map_output_to_prompt_response(true, Some(0), b"  \n"), PromptResponse::Canceled);
    assert_eq!(map_output_to_prompt_response(false, Some(1), b"x"), PromptResponse::Canceled);
    assert_eq!(map_output_to_prompt_response(false, None, b"x"), PromptResponse::Canceled);
    assert_eq!(response_from_text(" a b "), Some("a b".to_string()));
    assert_eq!(extract_response(&[0x61, 0xff, 0x62]), Some("a\u{fffd}b".to_string()));
}

#[test]
fn prompt_tone_args_and_timeouts() {
    assert_eq!(PromptTone::Default.as_arg(), "default");
    assert_eq!(PromptTone::Success.as_arg(), "success");
    assert_eq!(PromptTone::Error.as_arg(), "error");
    assert_eq!(to_ui_tone(PromptTone::Error), UiPromptTone::Error);
    assert_eq!(to_ui_tone(PromptTone::Success), UiPromptTone::Success);
    assert_eq!(prompt_timeout_from(None), 120);
    assert_eq!(prompt_timeout_from(Some("30")), 30);
    assert_eq!(prompt_timeout_from(Some("0")), 120);
    assert_eq!(prompt_timeout_from(Some(" 30")), 120);
    assert_eq!(prompt_timeout_from(Some("+45")), 45);
    assert_eq!(prompt_timeout_from(Some("99999999999999999999")), 120);
}

#[test]
fn prompt_subcommand_args_carry_mode_message_timeout_and_tone() {
    assert_eq!(
        prompt_subcommand_args("Password:", false, 30),
        vec!["prompt", "--mode", "secret", "--message", "Password:", "--timeout-secs", "30", "--tone", "default"]
    );
    assert_eq!(prompt_subcommand_args("Name?", true, 7)[2], "plain");
}

#[test]
fn feedback_subcommand_args_use_plain_mode_and_tone() {
    assert_eq!(
        feedback_subcommand_args("Authentication failed", PromptTone::Error, 1),
        vec!["prompt", "--mode", "plain", "--message", "Authentication failed", "--timeout-secs", "1", "--tone", "error"]
    );
}

#[test]
fn ask_password_args_echo_only_visible_prompts() {
    assert_eq!(
        ask_password_args("Password:", false, 120),
        vec!["--user", "--no-tty", "--timeout=120", "Password:"]
    );
    assert_eq!(
        ask_password_args("Code:", true, 5),
        vec!["--user", "--no-tty", "--timeout=5", "--echo=yes", "Code:"]
    );
}

#[test]
fn requests_and_exits_map_to_responses() {
    let r = prompt_request("Password:", false, 9, UiPromptTone::Default);
    assert_eq!(r.mode, PromptMode::Secret);
    assert_eq!(r.tone, UiPromptTone::Default);
    assert_eq!(r.timeout_secs, 9);
    assert!(!r.feedback_only);
    let f = feedback_request("done", UiPromptTone::Success, 1);
    assert!(f.feedback_only);
    assert_eq!(f.mode, PromptMode::Plain);
    assert_eq!(exit_response(PromptExit::Submitted("pw".to_string())), PromptResponse::Submitted("pw".to_string()));
    assert_eq!(exit_response(PromptExit::Canceled), PromptResponse::Canceled);
    assert_eq!(exit_response(PromptExit::TimedOut), PromptResponse::TimedOut);
    assert!(subcommand_unavailable(Some(2)));
    assert!(!subcommand_unavailable(Some(1)));
    assert!(!subcommand_unavailable(None));
    assert_eq!(prompt_mode_arg(true), "plain");
    assert_eq!(prompt_mode_arg(false), "secret");
}

#[test]
fn router_uses_session_until_it_fails() {
    let mut router = PromptRouter::from_settings(None, Some("45"));
    assert_eq!(router.prompt_timeout_secs, 45);
    assert_eq!(router.session_step(), SessionStep::Connect);
    router.on_connect(true);
    assert_eq!(router.session_step(), SessionStep::Reuse);
    router.on_session_failure();
    assert_eq!(router.session_step(), SessionStep::Bypass);

    let mut refused = PromptRouter::from_settings(None, None);
    assert_eq!(refused.prompt_timeout_secs, 120);
    refused.on_connect(false);
    assert_eq!(refused.session_step(), SessionStep::Bypass);

    let custom = PromptRouter::from_settings(Some("pinentry".to_string()), Some("0"));
    assert_eq!(custom.prompt_timeout_secs, 120);
    assert_eq!(custom.session_step(), SessionStep::Bypass);
}

#[test]
fn router_marks_one_question_after_a_retry() {
    let mut router = PromptRouter::from_settings(None, None);
    assert_eq!(router.next_tone(), UiPromptTone::Default);
    router.on_retry();
    assert_eq!(router.next_tone(), UiPromptTone::Error);
    assert_eq!(router.next_tone(), UiPromptTone::Default);
}
