use garcard::prompt_ui::{
    centered_position, timeout_text, timers_fit_at, AccentRole, Key, KeyEvent, Modifiers, PromptDialogState, PromptExit, PromptMode,
    PromptRequest, PromptStrings, PromptTone,
};

fn request(mode: PromptMode, tone: PromptTone, timeout_secs: u64, feedback_only: bool) -> PromptRequest {
    PromptRequest {
        message: "Authenticate".to_string(),
        mode,
        timeout_secs,
        tone,
        feedback_only,
    }
}

fn key(key: Key) -> KeyEvent {
    KeyEvent {
        key,
        keycode: 0,
        modifiers: Modifiers::none(),
        pressed: true,
    }
}

#[test]
fn new_dialog_sets_deadline_from_timeout() {
    let state = PromptDialogState::new(request(PromptMode::Secret, PromptTone::Default, 5, false), 1_000);
    assert_eq!(state.deadline, Some(6_000));
    assert_eq!(state.remaining_secs, None);
    assert!(state.exit.is_none());
    assert!(state.error_blink_on);
    assert_eq!(state.error_flash_until, None);

    let no_timeout = PromptDialogState::new(request(PromptMode::Secret, PromptTone::Default, 0, false), 1_000);
    assert_eq!(no_timeout.deadline, None);
}

#[test]
fn refresh_counts_down_whole_seconds_and_times_out() {
    let mut state = PromptDialogState::new(request(PromptMode::Secret, PromptTone::Default, 3, false), 0);
    assert!(state.refresh_timeout(100));
    assert_eq!(state.remaining_secs, Some(2));
    assert!(!state.refresh_timeout(200));
    assert!(state.refresh_timeout(1_100));
    assert_eq!(state.remaining_secs, Some(1));
    assert!(state.refresh_timeout(3_000));
    assert_eq!(state.exit, Some(PromptExit::TimedOut));
}

#[test]
fn retry_prompt_flashes_error_then_returns_to_default_tone() {
    let mut state = PromptDialogState::new(request(PromptMode::Secret, PromptTone::Default, 0, false), 0);
    state.begin_request(request(PromptMode::Secret, PromptTone::Error, 0, false), 10_000);
    assert_eq!(state.error_flash_until, Some(10_900));
    assert!(state.error_blink_on);

    // The error border blinks every interval while the flash lasts.
    assert!(!state.refresh_timeout(10_100));
    assert!(state.refresh_timeout(10_180));
    assert!(!state.error_blink_on);
    assert_eq!(state.last_blink_toggle, 10_180);

    assert!(state.refresh_timeout(10_900));
    assert_eq!(state.request.tone, PromptTone::Default);
    assert_eq!(state.error_flash_until, None);
    assert!(state.error_blink_on);
    assert!(!state.refresh_timeout(20_000));
}

#[test]
fn feedback_error_does_not_flash() {
    let mut state = PromptDialogState::new(request(PromptMode::Plain, PromptTone::Default, 0, false), 0);
    state.begin_request(request(PromptMode::Plain, PromptTone::Error, 1, true), 500);
    assert_eq!(state.error_flash_until, None);
    assert_eq!(state.deadline, Some(1_500));
}

#[test]
fn begin_request_scrubs_previous_input() {
    let mut state = PromptDialogState::new(request(PromptMode::Plain, PromptTone::Default, 0, false), 0);
    state.handle_key(None, &key(Key::Char('a')));
    state.handle_key(None, &key(Key::Char('b')));
    assert_eq!(state.input, "ab");
    assert_eq!(state.cursor, 2);
    state.begin_request(request(PromptMode::Secret, PromptTone::Default, 0, false), 50);
    assert_eq!(state.input, "");
    assert_eq!(state.cursor, 0);
    assert!(state.exit.is_none());
}

#[test]
fn handle_key_submits_input() {
    let mut state = PromptDialogState::new(request(PromptMode::Secret, PromptTone::Default, 0, false), 0);
    state.handle_key(None, &key(Key::Char('p')));
    state.handle_key(None, &key(Key::Char('w')));
    state.handle_key(None, &key(Key::Return));
    assert_eq!(state.exit, Some(PromptExit::Submitted("pw".to_string())));
    assert_eq!(state.input, "");
}

#[test]
fn content_reflects_mode_tone_and_timer() {
    let strings = PromptStrings::for_locale("en_US.UTF-8");
    let mut state = PromptDialogState::new(request(PromptMode::Secret, PromptTone::Default, 10, false), 0);
    state.handle_key(None, &key(Key::Char('x')));
    state.handle_key(None, &key(Key::Char('y')));
    state.handle_key(None, &key(Key::Left));
    state.refresh_timeout(1);

    let content = state.content(&strings);
    assert_eq!(content.title, "Authentication Required");
    assert_eq!(content.input_label, "Password");
    assert_eq!(content.display_input, "**");
    assert_eq!(content.cursor_prefix.as_deref(), Some("*"));
    assert_eq!(content.footer, "Enter submit   Esc cancel");
    assert_eq!(content.timer_text.as_deref(), Some("timeout 9s"));
    assert_eq!(content.accent, AccentRole::Accent);

    let mut feedback = PromptDialogState::new(request(PromptMode::Plain, PromptTone::Error, 0, true), 0);
    let content = feedback.content(&strings);
    assert_eq!(content.input_label, "Response");
    assert_eq!(content.cursor_prefix, None);
    assert_eq!(content.footer, "Please wait");
    assert_eq!(content.timer_text, None);
    assert_eq!(content.accent, AccentRole::Error);
    feedback.refresh_timeout(180);
    assert_eq!(feedback.content(&strings).accent, AccentRole::Border);
}

#[test]
fn timeout_text_formats_label_and_seconds() {
    assert_eq!(timeout_text("tiempo", 42), "tiempo 42s");
    assert_eq!(timeout_text("timeout", 0), "timeout 0s");
}

#[test]
fn timers_fit_the_clock_only_when_deadlines_are_representable() {
    assert!(timers_fit_at(&request(PromptMode::Secret, PromptTone::Default, 120, false), 0));
    assert!(!timers_fit_at(&request(PromptMode::Secret, PromptTone::Default, u64::MAX, false), 0));
    assert!(!timers_fit_at(&request(PromptMode::Secret, PromptTone::Default, 0, false), u64::MAX - 10));
    assert!(timers_fit_at(&request(PromptMode::Secret, PromptTone::Default, 1, false), u64::MAX - 1_000));
}

#[test]
fn dialog_is_centered_across_and_a_third_down() {
    assert_eq!(centered_position(0, 0, 1920, 1080, 560, 240), (680, 280));
    assert_eq!(centered_position(1920, 100, 1280, 1024, 560, 240), (2280, 361));
}

#[test]
fn oversized_dialog_offsets_round_toward_zero() {
    assert_eq!(centered_position(0, 0, 100, 100, 561, 242), (-230, -47));
}
