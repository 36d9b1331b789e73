use garcard::prompt_ui::{
    apply_key_event, char_to_byte_index, display_prefix, display_value, insert_char_at,
    keysym_to_char, locale_bucket, parse_bool_env, prefix_chars, remove_char_at,
    remove_char_before, scrub_string, Key, KeyEvent, Modifiers, PromptExit, PromptMode,
    PromptStrings, X11Keymap,
};

fn key_event(key: Key) -> KeyEvent {
    KeyEvent {
        key,
        keycode: 0,
        modifiers: Modifiers::none(),
        pressed: true,
    }
}

#[test]
fn display_value_masks_secret_text() {
    assert_eq!(display_value("secret", PromptMode::Secret), "******");
    assert_eq!(display_value("plain", PromptMode::Plain), "plain");
}

#[test]
fn insert_and_remove_respect_char_positions() {
    let mut value = String::from("abcd");
    insert_char_at(&mut value, 2, 'X');
    assert_eq!(value, "abXcd");

    let mut cursor = 3;
    remove_char_before(&mut value, &mut cursor);
    assert_eq!(value, "abcd");
    assert_eq!(cursor, 2);

    remove_char_at(&mut value, 1);
    assert_eq!(value, "acd");
}

#[test]
fn display_prefix_uses_cursor_and_mode() {
    assert_eq!(display_prefix("hello", 2, PromptMode::Plain), "he");
    assert_eq!(display_prefix("hello", 2, PromptMode::Secret), "**");
}

#[test]
fn prompt_ui_scrub_string_clears_input() {
    let mut value = "top-secret".to_string();
    scrub_string(&mut value);
    assert!(value.is_empty());
}

#[test]
fn keysym_to_char_maps_ascii_and_unicode() {
    assert_eq!(keysym_to_char('A' as u32), Some('A'));
    assert_eq!(keysym_to_char(0x0100_03B1), Some('α'));
    assert_eq!(keysym_to_char(0), None);
}

#[test]
fn locale_bucket_supports_spanish_and_defaults_to_english() {
    assert_eq!(locale_bucket("es_ES.UTF-8"), "es");
    assert_eq!(locale_bucket("en_US.UTF-8"), "en");
    assert_eq!(locale_bucket("C"), "en");
}

#[test]
fn parse_bool_env_accepts_common_truthy_values() {
    assert!(parse_bool_env(Some("1")));
    assert!(parse_bool_env(Some("TRUE")));
    assert!(parse_bool_env(Some("enabled")));
    assert!(!parse_bool_env(Some("0")));
    assert!(!parse_bool_env(None));
}

#[test]
fn prompt_strings_localize_known_labels() {
    let english = PromptStrings::for_locale("en_US.UTF-8");
    assert_eq!(english.title_auth_required, "Authentication Required");
    assert_eq!(english.footer_controls, "Enter submit   Esc cancel");

    let spanish = PromptStrings::for_locale("es_ES.UTF-8");
    assert_eq!(spanish.label_password, "Contrasena");
    assert_eq!(spanish.footer_wait, "Espere");
}

#[test]
fn apply_key_event_submits_and_clears_input_on_return() {
    let mut input = "secret".to_string();
    let mut cursor = input.chars().count();
    let mut exit = None;

    apply_key_event(
        &mut input,
        &mut cursor,
        &mut exit,
        false,
        &key_event(Key::Return),
        None,
    );

    assert_eq!(cursor, 0);
    assert!(input.is_empty());
    assert_eq!(exit, Some(PromptExit::Submitted("secret".to_string())));
}

#[test]
fn apply_key_event_ignores_keys_for_feedback_only_dialogs() {
    let mut input = "ok".to_string();
    let mut cursor = 1;
    let mut exit = None;

    apply_key_event(
        &mut input,
        &mut cursor,
        &mut exit,
        true,
        &key_event(Key::Escape),
        None,
    );

    assert_eq!(input, "ok");
    assert_eq!(cursor, 1);
    assert!(exit.is_none());
}

#[test]
fn apply_key_event_respects_navigation_and_edit_shortcuts() {
    let mut input = "abcd".to_string();
    let mut cursor = 2;
    let mut exit = None;

    apply_key_event(&mut input, &mut cursor, &mut exit, false, &key_event(Key::Left), None);
    assert_eq!(cursor, 1);

    apply_key_event(&mut input, &mut cursor, &mut exit, false, &key_event(Key::Backspace), None);
    assert_eq!(input, "bcd");
    assert_eq!(cursor, 0);

    apply_key_event(&mut input, &mut cursor, &mut exit, false, &key_event(Key::End), None);
    assert_eq!(cursor, 3);

    apply_key_event(&mut input, &mut cursor, &mut exit, false, &key_event(Key::Delete), None);
    assert_eq!(input, "bcd");

    apply_key_event(&mut input, &mut cursor, &mut exit, false, &key_event(Key::Home), None);
    assert_eq!(cursor, 0);
}

#[test]
fn apply_key_event_ignores_ctrl_shortcuts_and_control_chars() {
    let mut input = String::new();
    let mut cursor = 0;
    let mut exit = None;

    let mut ctrl_event = key_event(Key::Char('x'));
    ctrl_event.modifiers.ctrl = true;
    apply_key_event(&mut input, &mut cursor, &mut exit, false, &ctrl_event, None);
    assert!(input.is_empty());
    assert_eq!(cursor, 0);

    apply_key_event(
        &mut input,
        &mut cursor,
        &mut exit,
        false,
        &key_event(Key::Char('a')),
        Some('\n'),
    );
    assert!(input.is_empty());
    assert_eq!(cursor, 0);
}

#[test]
fn apply_key_event_types_spaces_and_characters() {
    let mut input = String::new();
    let mut cursor = 0;
    let mut exit = None;
    apply_key_event(&mut input, &mut cursor, &mut exit, false, &key_event(Key::Char('b')), None);
    apply_key_event(&mut input, &mut cursor, &mut exit, false, &key_event(Key::Left), None);
    apply_key_event(&mut input, &mut cursor, &mut exit, false, &key_event(Key::Char('x')), Some('é'));
    apply_key_event(&mut input, &mut cursor, &mut exit, false, &key_event(Key::Space), None);
    assert_eq!(input, "é b");
    assert_eq!(cursor, 2);
    let mut alt_space = key_event(Key::Space);
    alt_space.modifiers.alt = true;
    apply_key_event(&mut input, &mut cursor, &mut exit, false, &alt_space, None);
    assert_eq!(input, "é b");
    apply_key_event(&mut input, &mut cursor, &mut exit, false, &key_event(Key::Right), None);
    apply_key_event(&mut input, &mut cursor, &mut exit, false, &key_event(Key::Right), None);
    assert_eq!(cursor, 3);
    apply_key_event(&mut input, &mut cursor, &mut exit, false, &key_event(Key::Escape), None);
    assert_eq!(exit, Some(PromptExit::Canceled));
}

#[test]
fn char_positions_and_byte_offsets() {
    assert_eq!(char_to_byte_index("aé€😀b", 0), 0);
    assert_eq!(char_to_byte_index("aé€😀b", 2), 3);
    assert_eq!(char_to_byte_index("aé€😀b", 4), 10);
    assert_eq!(char_to_byte_index("aé€😀b", 9), 11);
    assert_eq!(prefix_chars("héllo", 2), "hé");
    assert_eq!(prefix_chars("hi", 9), "hi");
    let mut value = String::from("ab");
    insert_char_at(&mut value, 9, 'c');
    assert_eq!(value, "abc");
    let mut cursor = 9;
    remove_char_before(&mut value, &mut cursor);
    assert_eq!(value, "abc");
    assert_eq!(cursor, 8);
    let mut zero = 0;
    remove_char_before(&mut value, &mut zero);
    assert_eq!(value, "abc");
    assert_eq!(zero, 0);
    remove_char_at(&mut value, 3);
    assert_eq!(value, "abc");
}

#[test]
fn keymap_resolves_keycodes_with_case() {
    let keymap = X11Keymap {
        min_keycode: 8,
        max_keycode: 10,
        keysyms_per_keycode: 2,
        keysyms: vec![0x61, 0x41, 0x31, 0, 0x0100_03B1, 0x0100_0391],
    };
    let mut event = key_event(Key::Char('?'));
    event.keycode = 8;
    assert_eq!(keymap.char_for_event(&event), Some('a'));
    event.modifiers.shift = true;
    assert_eq!(keymap.char_for_event(&event), Some('A'));
    event.modifiers.caps_lock = true;
    assert_eq!(keymap.char_for_event(&event), Some('a'));
    event.keycode = 9;
    assert_eq!(keymap.char_for_event(&event), Some('1'));
    event.keycode = 10;
    assert_eq!(keymap.char_for_event(&event), Some('Α'));
    event.keycode = 11;
    assert_eq!(keymap.char_for_event(&event), None);
    event.keycode = 7;
    assert_eq!(keymap.char_for_event(&event), None);
    assert_eq!(keysym_to_char(0xA9), Some('©'));
    assert_eq!(keysym_to_char(0x0100_D800), None);
    assert_eq!(keysym_to_char(0x7f), None);
}
