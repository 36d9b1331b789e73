//! Logic of the prompt dialog: localized labels, input masking, the
//! char-indexed line editor, and the keyboard mapping it relies on.
use crate::text::{
    chars_of, decimal, decimal_string, equals_str, is_control, is_control_char, lower,
    lower_chars, lower_char, lower_seq, push_char, push_str, starts_with, starts_with_str,
    string_of, trim, trim_str, upper, upper_char,
};
use vstd::prelude::*;
use vstd::string::*;
use vstd::utf8::{encode_scalar, encode_utf8, is_scalar};

pub use crate::polkit_helper::scrub_string;

verus! {

// ---------------------------------------------------------------------------
// Localized labels
// ---------------------------------------------------------------------------

/// Whether a locale string selects the Spanish labels.
pub open spec fn is_spanish_locale(locale: Seq<char>) -> bool {
    starts_with(lower_seq(trim(locale)), "es"@)
}

fn spanish_locale(locale: &str) -> (r: bool)
    ensures
        r == is_spanish_locale(locale@),
{
    let t = trim_str(locale);
    let normalized = lower_chars(&t);
    starts_with_str(&normalized, "es")
}

pub fn locale_bucket(locale: &str) -> (r: &'static str)
    ensures
        r@ == (if is_spanish_locale(locale@) {
            "es"@
        } else {
            "en"@
        }),
{
    if spanish_locale(locale) {
        "es"
    } else {
        "en"
    }
}

#[derive(Debug, Clone, Copy)]
pub struct PromptStrings {
    pub title_auth_required: &'static str,
    pub label_password: &'static str,
    pub label_response: &'static str,
    pub footer_wait: &'static str,
    pub footer_controls: &'static str,
    pub timeout_label: &'static str,
}

pub open spec fn spanish_strings(s: PromptStrings) -> bool {
    &&& s.title_auth_required@ == "Autenticacion requerida"@
    &&& s.label_password@ == "Contrasena"@
    &&& s.label_response@ == "Respuesta"@
    &&& s.footer_wait@ == "Espere"@
    &&& s.footer_controls@ == "Enter enviar   Esc cancelar"@
    &&& s.timeout_label@ == "tiempo"@
}

pub open spec fn english_strings(s: PromptStrings) -> bool {
    &&& s.title_auth_required@ == "Authentication Required"@
    &&& s.label_password@ == "Password"@
    &&& s.label_response@ == "Response"@
    &&& s.footer_wait@ == "Please wait"@
    &&& s.footer_controls@ == "Enter submit   Esc cancel"@
    &&& s.timeout_label@ == "timeout"@
}

impl PromptStrings {
    pub fn for_locale(locale: &str) -> (r: Self)
        ensures
            is_spanish_locale(locale@) ==> spanish_strings(r),
            !is_spanish_locale(locale@) ==> english_strings(r),
    {
        if spanish_locale(locale) {
            PromptStrings {
                title_auth_required: "Autenticacion requerida",
                label_password: "Contrasena",
                label_response: "Respuesta",
                footer_wait: "Espere",
                footer_controls: "Enter enviar   Esc cancelar",
                timeout_label: "tiempo",
            }
        } else {
            PromptStrings {
                title_auth_required: "Authentication Required",
                label_password: "Password",
                label_response: "Response",
                footer_wait: "Please wait",
                footer_controls: "Enter submit   Esc cancel",
                timeout_label: "timeout",
            }
        }
    }
}

/// Values that switch a boolean setting on.
pub open spec fn is_truthy(v: Seq<char>) -> bool {
    v == "1"@ || v == "true"@ || v == "yes"@ || v == "on"@ || v == "enabled"@
}

pub fn parse_bool_env(raw: Option<&str>) -> (r: bool)
    ensures
        r == match raw {
            Some(v) => is_truthy(lower_seq(trim(v@))),
            None => false,
        },
{
    match raw {
        Some(value) => {
            let t = trim_str(value);
            let v = lower_chars(&t);
            equals_str(&v, "1") || equals_str(&v, "true") || equals_str(&v, "yes") || equals_str(
                &v,
                "on",
            ) || equals_str(&v, "enabled")
        },
        None => false,
    }
}

// ---------------------------------------------------------------------------
// Requests and results
// ---------------------------------------------------------------------------

#[derive(Debug, Clone, Copy, PartialEq, Eq, Structural)]
pub enum PromptMode {
    Secret,
    Plain,
}

#[derive(Debug, Clone, Copy, PartialEq, Eq, Structural)]
pub enum PromptTone {
    Default,
    Success,
    Error,
}

#[derive(Debug, Clone)]
pub struct PromptRequest {
    pub message: String,
    pub mode: PromptMode,
    pub timeout_secs: u64,
    pub tone: PromptTone,
    pub feedback_only: bool,
}

#[derive(Debug, Clone, PartialEq, Eq)]
pub enum PromptExit {
    Submitted(String),
    Canceled,
    TimedOut,
}

pub ghost enum PromptExitView {
    Submitted(Seq<char>),
    Canceled,
    TimedOut,
}

impl View for PromptExit {
    type V = PromptExitView;

    open spec fn view(&self) -> PromptExitView {
        match self {
            PromptExit::Submitted(s) => PromptExitView::Submitted(s@),
            PromptExit::Canceled => PromptExitView::Canceled,
            PromptExit::TimedOut => PromptExitView::TimedOut,
        }
    }
}

pub open spec fn exit_view(e: Option<PromptExit>) -> Option<PromptExitView> {
    match e {
        Some(x) => Some(x@),
        None => None,
    }
}

// ---------------------------------------------------------------------------
// Keyboard input
// ---------------------------------------------------------------------------

/// Keys the dialog reacts to; every other key is `Other`.
#[derive(Debug, Clone, Copy, PartialEq, Eq, Structural)]
pub enum Key {
    Escape,
    Return,
    Left,
    Right,
    Home,
    End,
    Backspace,
    Delete,
    Space,
    Char(char),
    Other,
}

#[derive(Debug, Clone, Copy, PartialEq, Eq, Structural)]
pub struct Modifiers {
    pub shift: bool,
    pub ctrl: bool,
    pub alt: bool,
    pub super_key: bool,
    pub caps_lock: bool,
}

pub open spec fn no_modifiers(m: Modifiers) -> bool {
    !m.shift && !m.ctrl && !m.alt && !m.super_key && !m.caps_lock
}

impl Modifiers {
    /// No modifier held.
    pub fn none() -> (r: Modifiers)
        ensures
            no_modifiers(r),
    {
        Modifiers { shift: false, ctrl: false, alt: false, super_key: false, caps_lock: false }
    }

    pub fn is_empty(&self) -> (r: bool)
        ensures
            r == no_modifiers(*self),
    {
        !self.shift && !self.ctrl && !self.alt && !self.super_key && !self.caps_lock
    }
}

#[derive(Debug, Clone, Copy, PartialEq, Eq, Structural)]
pub struct KeyEvent {
    pub key: Key,
    pub keycode: u8,
    pub modifiers: Modifiers,
    pub pressed: bool,
}

/// The character an X11 keysym stands for: Latin-1 printable codes map to
/// themselves, `0x0100_0000 + cp` encodes Unicode code point `cp`.
pub open spec fn keysym_char(keysym: u32) -> Option<char> {
    let cp: u32 = if (0x20 <= keysym && keysym <= 0x7e) || (0xA0 <= keysym && keysym <= 0xFF) {
        keysym
    } else if 0x0100_0000 <= keysym && keysym <= 0x0110_FFFF {
        (keysym - 0x0100_0000) as u32
    } else {
        0xD800  // not a scalar value

    };
    if is_scalar(cp) {
        Some(cp as char)
    } else {
        None
    }
}

/// `char::from_u32`: the char with this scalar value, if it is one.
#[verifier::external_body]
fn char_from_u32(v: u32) -> (r: Option<char>)
    ensures
        r is Some <==> is_scalar(v),
        r matches Some(c) ==> c == v as char,
{
    char::from_u32(v)
}

pub fn keysym_to_char(keysym: u32) -> (r: Option<char>)
    ensures
        r == keysym_char(keysym),
{
    if (0x20 <= keysym && keysym <= 0x7e) || (0xA0 <= keysym && keysym <= 0xFF) {
        return char_from_u32(keysym);
    }
    if 0x0100_0000 <= keysym && keysym <= 0x0110_FFFF {
        return char_from_u32(keysym - 0x0100_0000);
    }
    None
}

/// The keyboard mapping reported by the X server.
#[derive(Debug, Clone)]
pub struct X11Keymap {
    pub min_keycode: u8,
    pub max_keycode: u8,
    pub keysyms_per_keycode: u8,
    pub keysyms: Vec<u32>,
}

/// The keysyms bound to `keycode`, one per shift level.
pub open spec fn keycode_symbols(km: X11Keymap, keycode: u8) -> Option<Seq<u32>> {
    let stride = km.keysyms_per_keycode as int;
    let off = (keycode - km.min_keycode) * stride;
    if keycode < km.min_keycode || keycode > km.max_keycode || stride == 0 {
        None
    } else if off + stride <= km.keysyms@.len() {
        Some(km.keysyms@.subrange(off, off + stride))
    } else {
        None
    }
}

/// Level 1 when shifted, else level 0; an empty level falls back to level 0.
pub open spec fn chosen_keysym(symbols: Seq<u32>, shift: bool) -> u32 {
    let level: int = if shift {
        1
    } else {
        0
    };
    if level < symbols.len() && symbols[level] != 0 {
        symbols[level]
    } else if symbols.len() > 0 {
        symbols[0]
    } else {
        0
    }
}

pub open spec fn is_ascii_alpha(c: char) -> bool {
    ('a' <= c && c <= 'z') || ('A' <= c && c <= 'Z')
}

/// Letters are upper case when exactly one of shift and caps lock is on.
pub open spec fn apply_letter_case(c: char, m: Modifiers) -> char {
    if is_ascii_alpha(c) {
        if m.shift != m.caps_lock {
            upper(c)
        } else {
            lower(c)
        }
    } else {
        c
    }
}

pub open spec fn keymap_char(km: X11Keymap, event: KeyEvent) -> Option<char> {
    match keycode_symbols(km, event.keycode) {
        None => None,
        Some(symbols) => {
            let k = chosen_keysym(symbols, event.modifiers.shift);
            if k == 0 {
                None
            } else {
                match keysym_char(k) {
                    Some(c) => Some(apply_letter_case(c, event.modifiers)),
                    None => None,
                }
            }
        },
    }
}

impl X11Keymap {
    pub fn char_for_event(&self, event: &KeyEvent) -> (r: Option<char>)
        ensures
            r == keymap_char(*self, *event),
    {
        if event.keycode < self.min_keycode || event.keycode > self.max_keycode {
            return None;
        }
        let stride = self.keysyms_per_keycode as usize;
        if stride == 0 {
            return None;
        }
        let rel = (event.keycode - self.min_keycode) as usize;
        assert(rel * stride <= 255 * 255) by (nonlinear_arith)
            requires
                rel <= 255,
                stride <= 255,
        ;
        let offset = rel * stride;
        if offset + stride > self.keysyms.len() {
            return None;
        }
        let ghost symbols = self.keysyms@.subrange(offset as int, offset + stride);
        let level: usize = if event.modifiers.shift {
            1
        } else {
            0
        };
        let keysym = if level < stride && self.keysyms[offset + level] != 0 {
            self.keysyms[offset + level]
        } else {
            self.keysyms[offset]
        };
        assert(keysym == chosen_keysym(symbols, event.modifiers.shift));
        if keysym == 0 {
            return None;
        }
        let mut ch = match keysym_to_char(keysym) {
            Some(c) => c,
            None => {
                return None;
            },
        };
        if ('a' <= ch && ch <= 'z') || ('A' <= ch && ch <= 'Z') {
            let upper_case = event.modifiers.shift != event.modifiers.caps_lock;
            ch = if upper_case {
                upper_char(ch)
            } else {
                lower_char(ch)
            };
        }
        Some(ch)
    }
}

// ---------------------------------------------------------------------------
// Masking and the line editor
// ---------------------------------------------------------------------------

pub open spec fn mask(n: nat) -> Seq<char> {
    Seq::new(n, |i: int| '*')
}

/// What the input field shows: one `*` per character for secrets.
pub open spec fn displayed(input: Seq<char>, mode: PromptMode) -> Seq<char> {
    match mode {
        PromptMode::Secret => mask(input.len()),
        PromptMode::Plain => input,
    }
}

pub open spec fn clamp(k: int, len: int) -> int {
    if k < len {
        k
    } else {
        len
    }
}

fn mask_string(n: usize) -> (r: String)
    ensures
        r@ == mask(n as nat),
{
    let mut r = String::new();
    let mut i: usize = 0;
    while i < n
        invariant
            i <= n,
            r@ =~= mask(i as nat),
        decreases n - i,
    {
        push_char(&mut r, '*');
        i += 1;
    }
    r
}

pub fn display_value(input: &str, mode: PromptMode) -> (r: String)
    ensures
        r@ == displayed(input@, mode),
{
    match mode {
        PromptMode::Secret => {
            let n = chars_of(input).len();
            mask_string(n)
        },
        PromptMode::Plain => input.to_owned(),
    }
}

/// The first `char_count` characters of `input`.
pub fn prefix_chars(input: &str, char_count: usize) -> (r: String)
    ensures
        r@ == input@.take(clamp(char_count as int, input@.len() as int)),
{
    let v = chars_of(input);
    let n = if char_count < v.len() {
        char_count
    } else {
        v.len()
    };
    let mut r = String::new();
    let mut i: usize = 0;
    while i < n
        invariant
            n <= v.len(),
            i <= n,
            r@ =~= v@.take(i as int),
        decreases n - i,
    {
        push_char(&mut r, v[i]);
        i += 1;
    }
    r
}

/// What the field shows left of the cursor.
pub fn display_prefix(input: &str, cursor: usize, mode: PromptMode) -> (r: String)
    ensures
        r@ == displayed(input@.take(clamp(cursor as int, input@.len() as int)), mode),
{
    let prefix = prefix_chars(input, cursor);
    match mode {
        PromptMode::Secret => {
            let n = chars_of(prefix.as_str()).len();
            mask_string(n)
        },
        PromptMode::Plain => prefix,
    }
}

/// Number of UTF-8 bytes of a character.
pub open spec fn utf8_width(c: char) -> nat {
    encode_scalar(c as u32).len()
}

fn utf8_width_of(c: char) -> (r: usize)
    ensures
        r == utf8_width(c),
{
    let v = c as u32;
    if v <= 0x7F {
        1
    } else if v <= 0x7FF {
        2
    } else if v <= 0xFFFF {
        proof {
            vstd::utf8::char_is_scalar(c);
        }
        3
    } else {
        proof {
            vstd::utf8::char_is_scalar(c);
        }
        4
    }
}

proof fn lemma_encode_utf8_push(s: Seq<char>, c: char)
    ensures
        encode_utf8(s.push(c)).len() == encode_utf8(s).len() + utf8_width(c),
    decreases s.len(),
{
    if s.len() == 0 {
        assert(s.push(c).drop_first() =~= Seq::<char>::empty());
        assert(encode_utf8(Seq::<char>::empty()) =~= Seq::<u8>::empty());
        assert(s.push(c)[0] == c);
    } else {
        assert(s.push(c)[0] == s[0]);
        assert(s.push(c).drop_first() =~= s.drop_first().push(c));
        lemma_encode_utf8_push(s.drop_first(), c);
    }
}

/// Byte offset of character `char_index` in `input`, or the byte length
/// when the index is past the end.
pub fn char_to_byte_index(input: &str, char_index: usize) -> (r: usize)
    requires
        encode_utf8(input@).len() <= usize::MAX,
    ensures
        r == encode_utf8(input@.take(clamp(char_index as int, input@.len() as int))).len(),
{
    let v = chars_of(input);
    if char_index >= v.len() {
        assert(input@.take(input@.len() as int) =~= input@);
        assert(input.spec_bytes() == encode_utf8(input@));
        return input.len();
    }
    let mut bytes: usize = 0;
    let mut i: usize = 0;
    while i < char_index
        invariant
            v@ == input@,
            char_index < v.len(),
            i <= char_index,
            bytes == encode_utf8(input@.take(i as int)).len(),
            encode_utf8(input@.take(i as int)).len() <= encode_utf8(input@).len(),
            encode_utf8(input@).len() <= usize::MAX,
        decreases char_index - i,
    {
        proof {
            lemma_encode_utf8_push(input@.take(i as int), input@[i as int]);
            assert(input@.take(i + 1) =~= input@.take(i as int).push(input@[i as int]));
            lemma_encode_prefix_le(input@, i + 1);
        }
        bytes = bytes + utf8_width_of(v[i]);
        i += 1;
    }
    bytes
}

proof fn lemma_encode_prefix_le(s: Seq<char>, k: int)
    requires
        0 <= k <= s.len(),
    ensures
        encode_utf8(s.take(k)).len() <= encode_utf8(s).len(),
    decreases s.len() - k,
{
    if k < s.len() {
        lemma_encode_prefix_le(s, k + 1);
        lemma_encode_utf8_push(s.take(k), s[k]);
        assert(s.take(k + 1) =~= s.take(k).push(s[k]));
    } else {
        assert(s.take(k) =~= s);
    }
}

/// `s` with `c` inserted before character `k` (appended when `k` is past
/// the end).
pub open spec fn insert_at(s: Seq<char>, k: int, c: char) -> Seq<char> {
    let j = clamp(k, s.len() as int);
    s.take(j) + seq![c] + s.skip(j)
}

/// `s` without the character before position `k`.
pub open spec fn remove_before(s: Seq<char>, k: int) -> Seq<char> {
    if k == 0 {
        s
    } else {
        s.take(clamp(k - 1, s.len() as int)) + s.skip(clamp(k, s.len() as int))
    }
}

/// `s` without the character at position `k`.
pub open spec fn remove_at(s: Seq<char>, k: int) -> Seq<char> {
    if k >= s.len() {
        s
    } else {
        s.take(k) + s.skip(k + 1)
    }
}

pub fn insert_char_at(input: &mut String, char_index: usize, value: char)
    ensures
        final(input)@ == insert_at(old(input)@, char_index as int, value),
{
    let mut v = chars_of(input.as_str());
    let j = if char_index < v.len() {
        char_index
    } else {
        v.len()
    };
    v.insert(j, value);
    assert(v@ =~= insert_at(old(input)@, char_index as int, value));
    let rebuilt = string_of(&v);
    scrub_string(input);
    *input = rebuilt;
}

pub fn remove_char_before(input: &mut String, cursor: &mut usize)
    ensures
        final(input)@ == remove_before(old(input)@, *old(cursor) as int),
        *final(cursor) == if *old(cursor) == 0 {
            0
        } else {
            *old(cursor) - 1
        },
{
    if *cursor == 0 {
        return;
    }
    let v = chars_of(input.as_str());
    let k = *cursor;
    let start = if k - 1 < v.len() {
        k - 1
    } else {
        v.len()
    };
    let end = if k < v.len() {
        k
    } else {
        v.len()
    };
    let mut out: Vec<char> = Vec::new();
    let mut i: usize = 0;
    while i < start
        invariant
            start <= end <= v.len(),
            i <= start,
            out@ =~= v@.take(i as int),
        decreases start - i,
    {
        out.push(v[i]);
        i += 1;
    }
    let mut j: usize = end;
    while j < v.len()
        invariant
            start <= end <= j <= v.len(),
            out@ =~= v@.take(start as int) + v@.subrange(end as int, j as int),
        decreases v.len() - j,
    {
        out.push(v[j]);
        j += 1;
    }
    assert(out@ =~= remove_before(old(input)@, k as int));
    let rebuilt = string_of(&out);
    scrub_string(input);
    *input = rebuilt;
    *cursor = k - 1;
}

pub fn remove_char_at(input: &mut String, cursor: usize)
    ensures
        final(input)@ == remove_at(old(input)@, cursor as int),
{
    let mut v = chars_of(input.as_str());
    if cursor >= v.len() {
        return;
    }
    let _removed = v.remove(cursor);
    assert(v@ =~= remove_at(old(input)@, cursor as int));
    let rebuilt = string_of(&v);
    scrub_string(input);
    *input = rebuilt;
}

/// Line editor state after one key press: `(input, cursor, exit)`.
pub open spec fn key_step(
    input: Seq<char>,
    cursor: int,
    exit: Option<PromptExitView>,
    feedback_only: bool,
    event: KeyEvent,
    resolved: Option<char>,
) -> (Seq<char>, int, Option<PromptExitView>) {
    if feedback_only {
        (input, cursor, exit)
    } else {
        match event.key {
            Key::Escape => (input, cursor, Some(PromptExitView::Canceled)),
            Key::Return => (Seq::empty(), 0, Some(PromptExitView::Submitted(input))),
            Key::Left => (input, if cursor > 0 {
                cursor - 1
            } else {
                cursor
            }, exit),
            Key::Right => (input, if cursor < input.len() {
                cursor + 1
            } else {
                cursor
            }, exit),
            Key::Home => (input, 0, exit),
            Key::End => (input, input.len() as int, exit),
            Key::Backspace => (remove_before(input, cursor), if cursor == 0 {
                0
            } else {
                cursor - 1
            }, exit),
            Key::Delete => (remove_at(input, cursor), cursor, exit),
            Key::Space => if no_modifiers(event.modifiers) || event.modifiers.shift {
                (insert_at(input, cursor, ' '), cursor + 1, exit)
            } else {
                (input, cursor, exit)
            },
            Key::Char(ch) => {
                let c = match resolved {
                    Some(r) => r,
                    None => ch,
                };
                if event.modifiers.ctrl || event.modifiers.alt || event.modifiers.super_key
                    || is_control(c) {
                    (input, cursor, exit)
                } else {
                    (insert_at(input, cursor, c), cursor + 1, exit)
                }
            },
            Key::Other => (input, cursor, exit),
        }
    }
}

/// Applies one key press to the dialog's input, cursor and exit state.
pub fn apply_key_event(
    input: &mut String,
    cursor: &mut usize,
    exit: &mut Option<PromptExit>,
    feedback_only: bool,
    key_event: &KeyEvent,
    resolved_char: Option<char>,
)
    requires
        *old(cursor) < usize::MAX,
    ensures
        (final(input)@, *final(cursor) as int, exit_view(*final(exit))) == key_step(
            old(input)@,
            *old(cursor) as int,
            exit_view(*old(exit)),
            feedback_only,
            *key_event,
            resolved_char,
        ),
{
    if feedback_only {
        // Feedback dialogs are transient; keys from the previous prompt must
        // not dismiss them early.
        return;
    }
    match key_event.key {
        Key::Escape => {
            *exit = Some(PromptExit::Canceled);
        },
        Key::Return => {
            let mut submitted = String::new();
            std::mem::swap(input, &mut submitted);
            *cursor = 0;
            *exit = Some(PromptExit::Submitted(submitted));
        },
        Key::Left => {
            if *cursor > 0 {
                *cursor = *cursor - 1;
            }
        },
        Key::Right => {
            let n = chars_of(input.as_str()).len();
            if *cursor < n {
                *cursor = *cursor + 1;
            }
        },
        Key::Home => {
            *cursor = 0;
        },
        Key::End => {
            *cursor = chars_of(input.as_str()).len();
        },
        Key::Backspace => {
            remove_char_before(input, cursor);
        },
        Key::Delete => {
            remove_char_at(input, *cursor);
        },
        Key::Space => {
            if key_event.modifiers.is_empty() || key_event.modifiers.shift {
                insert_char_at(input, *cursor, ' ');
                *cursor = *cursor + 1;
            }
        },
        Key::Char(ch) => {
            if key_event.modifiers.ctrl || key_event.modifiers.alt || key_event.modifiers.super_key {
                return;
            }
            let resolved = match resolved_char {
                Some(r) => r,
                None => ch,
            };
            if is_control_char(resolved) {
                return;
            }
            insert_char_at(input, *cursor, resolved);
            *cursor = *cursor + 1;
        },
        Key::Other => {},
    }
}

/// The editor keeps the cursor inside the text: a cursor at most the input
/// length stays so after any key.
pub proof fn law_cursor_stays_in_text(
    input: Seq<char>,
    cursor: int,
    exit: Option<PromptExitView>,
    feedback_only: bool,
    event: KeyEvent,
    resolved: Option<char>,
)
    requires
        0 <= cursor <= input.len(),
    ensures
        ({
            let (s, c, _) = key_step(input, cursor, exit, feedback_only, event, resolved);
            0 <= c <= s.len()
        }),
{
    let (s, c, _) = key_step(input, cursor, exit, feedback_only, event, resolved);
    if !feedback_only {
        match event.key {
            Key::Backspace => {
                if cursor > 0 {
                    assert(remove_before(input, cursor).len() == input.len() - 1);
                }
            },
            Key::Delete => {
                if cursor < input.len() {
                    assert(remove_at(input, cursor).len() == input.len() - 1);
                }
            },
            _ => {},
        }
    }
}

/// Inserting a character and then deleting the character before the
/// advanced cursor restores the text and the cursor.
pub proof fn law_insert_then_backspace(input: Seq<char>, cursor: int, c: char)
    requires
        0 <= cursor <= input.len(),
    ensures
        remove_before(insert_at(input, cursor, c), cursor + 1) == input,
{
    let t = insert_at(input, cursor, c);
    assert(t.len() == input.len() + 1);
    assert(t.take(cursor) + t.skip(cursor + 1) =~= input);
}

/// How the editing keys change the line, for a cursor inside the text and
/// a dialog that takes input: Delete removes the character at the cursor
/// and keeps the cursor; Backspace removes the character before the cursor
/// and moves it back; at the ends of the text they change nothing. Neither
/// ends the prompt.
pub proof fn law_delete_and_backspace(
    input: Seq<char>,
    cursor: int,
    exit: Option<PromptExitView>,
    modifiers: Modifiers,
    keycode: u8,
    pressed: bool,
    resolved: Option<char>,
)
    requires
        0 <= cursor <= input.len(),
    ensures
        ({
            let e = KeyEvent { key: Key::Delete, keycode, modifiers, pressed };
            let (s, c, x) = key_step(input, cursor, exit, false, e, resolved);
            &&& cursor < input.len() ==> s == input.take(cursor) + input.skip(cursor + 1)
                && s.len() == input.len() - 1 && (forall|i: int|
                0 <= i < cursor ==> s[i] == input[i]) && (forall|i: int|
                cursor <= i < s.len() ==> s[i] == input[i + 1])
            &&& cursor == input.len() ==> s == input
            &&& c == cursor
            &&& x == exit
        }),
        ({
            let e = KeyEvent { key: Key::Backspace, keycode, modifiers, pressed };
            let (s, c, x) = key_step(input, cursor, exit, false, e, resolved);
            &&& cursor > 0 ==> s == input.take(cursor - 1) + input.skip(cursor) && c == cursor - 1
                && s.len() == input.len() - 1
            &&& cursor == 0 ==> s == input && c == 0
            &&& x == exit
        }),
{
    let t = input.take(cursor) + input.skip(cursor + 1);
    if cursor < input.len() {
        assert(t.len() == input.len() - 1);
        assert forall|i: int| cursor <= i < t.len() implies t[i] == input[i + 1] by {
            assert(t[i] == input.skip(cursor + 1)[i - cursor]);
        }
    }
    if cursor > 0 {
        assert((input.take(cursor - 1) + input.skip(cursor)).len() == input.len() - 1);
    }
}

/// How the other keys act on a dialog that takes input: Escape cancels and
/// Return submits the whole line (which is then cleared); Left, Right, Home
/// and End move the cursor one step or to an end without touching the
/// text; a printable character typed without Ctrl, Alt or Super is inserted
/// at the cursor, which moves past it. A dialog that only shows feedback
/// ignores every key.
pub proof fn law_keys_on_the_line(
    input: Seq<char>,
    cursor: int,
    exit: Option<PromptExitView>,
    event: KeyEvent,
    resolved: Option<char>,
)
    requires
        0 <= cursor <= input.len(),
    ensures
        key_step(input, cursor, exit, true, event, resolved) == (input, cursor, exit),
        event.key is Escape ==> key_step(input, cursor, exit, false, event, resolved) == (
            input,
            cursor,
            Some(PromptExitView::Canceled),
        ),
        event.key is Return ==> key_step(input, cursor, exit, false, event, resolved) == (
            Seq::<char>::empty(),
            0int,
            Some(PromptExitView::Submitted(input)),
        ),
        event.key is Left ==> key_step(input, cursor, exit, false, event, resolved) == (
            input,
            if cursor == 0 {
                0
            } else {
                cursor - 1
            },
            exit,
        ),
        event.key is Right ==> key_step(input, cursor, exit, false, event, resolved) == (
            input,
            if cursor == input.len() {
                cursor
            } else {
                cursor + 1
            },
            exit,
        ),
        event.key is Home ==> key_step(input, cursor, exit, false, event, resolved) == (
            input,
            0int,
            exit,
        ),
        event.key is End ==> key_step(input, cursor, exit, false, event, resolved) == (
            input,
            input.len() as int,
            exit,
        ),
        event.key is Char && resolved is None && !event.modifiers.ctrl && !event.modifiers.alt
            && !event.modifiers.super_key && !is_control(event.key->0) ==> ({
            let ch = event.key->0;
            let (s, c, x) = key_step(input, cursor, exit, false, event, resolved);
            &&& s == input.take(cursor) + seq![ch] + input.skip(cursor)
            &&& s.len() == input.len() + 1
            &&& s[cursor] == ch
            &&& c == cursor + 1
            &&& x == exit
        }),
        event.key is Other ==> key_step(input, cursor, exit, false, event, resolved) == (
            input,
            cursor,
            exit,
        ),
{
}

/// How a keysym becomes a character: the printable Latin-1 keysyms are
/// their own code points, `0x0100_0000 + cp` is code point `cp`, and the
/// control ranges, the other legacy keysyms and surrogates give nothing.
pub proof fn law_keysym_reading(k: u32)
    ensures
        (0x20 <= k <= 0x7e || 0xa0 <= k <= 0xff) ==> keysym_char(k) == Some(k as char),
        0x0100_0000 <= k <= 0x0110_FFFF && is_scalar((k - 0x0100_0000) as u32) ==> keysym_char(k)
            == Some(((k - 0x0100_0000) as u32) as char),
        0x0100_0000 <= k <= 0x0110_FFFF && !is_scalar((k - 0x0100_0000) as u32) ==> keysym_char(k)
            is None,
        (k < 0x20 || (0x7f <= k <= 0x9f) || (0x100 <= k < 0x0100_0000) || k > 0x0110_FFFF)
            ==> keysym_char(k) is None,
{
}

/// A letter typed is upper case exactly when one of Shift and Caps Lock is
/// on, and lower case otherwise; other characters are left as they are.
/// Shift picks the second keysym of the key when it has one, else the
/// first.
pub proof fn law_letter_case_and_level(c: char, m: Modifiers, symbols: Seq<u32>, shift: bool)
    ensures
        'a' <= c <= 'z' && m.shift != m.caps_lock ==> apply_letter_case(c, m) == ((c as u32) - 32) as char,
        'a' <= c <= 'z' && m.shift == m.caps_lock ==> apply_letter_case(c, m) == c,
        'A' <= c <= 'Z' && m.shift != m.caps_lock ==> apply_letter_case(c, m) == c,
        'A' <= c <= 'Z' && m.shift == m.caps_lock ==> apply_letter_case(c, m) == ((c as u32) + 32) as char,
        !is_ascii_alpha(c) ==> apply_letter_case(c, m) == c,
        shift && symbols.len() > 1 && symbols[1] != 0 ==> chosen_keysym(symbols, shift) == symbols[1],
        shift && symbols.len() > 0 && (symbols.len() == 1 || symbols[1] == 0) ==> chosen_keysym(
            symbols,
            shift,
        ) == symbols[0],
        !shift && symbols.len() > 0 ==> chosen_keysym(symbols, shift) == symbols[0],
        symbols.len() == 0 ==> chosen_keysym(symbols, shift) == 0,
{
}

/// The dialog's timers: a request with a timeout expires that many seconds
/// (in milliseconds) after it opened, and one without never does; the
/// countdown shows whole seconds left, rounded down, until the deadline
/// passes. The error tone blinks between the error color and the border
/// color; the other tones keep their own color.
pub proof fn law_dialog_timers(timeout_secs: u64, now: u64, deadline: Option<u64>, tone: PromptTone, blink_on: bool)
    ensures
        timeout_secs > 0 ==> deadline_for(timeout_secs, now) == Some(now + 1000 * timeout_secs),
        timeout_secs == 0 ==> deadline_for(timeout_secs, now) is None,
        deadline is Some && now < deadline->0 ==> seconds_left(deadline, now) == Some(
            ((deadline->0 - now) / 1000) as u64,
        ) && !deadline_passed(deadline, now),
        deadline is Some && now >= deadline->0 ==> seconds_left(deadline, now) is None
            && deadline_passed(deadline, now),
        deadline is None ==> seconds_left(deadline, now) is None && !deadline_passed(deadline, now),
        accent_for(PromptTone::Error, true) == AccentRole::Error,
        accent_for(PromptTone::Error, false) == AccentRole::Border,
        accent_for(PromptTone::Default, blink_on) == AccentRole::Accent,
        accent_for(PromptTone::Success, blink_on) == AccentRole::Success,
{
}

/// Labels follow the locale: a locale that starts with "es" (ignoring case
/// and surrounding blanks) gets the Spanish labels, any other the English
/// ones. A boolean setting is on for 1, true, yes, on and enabled (ignoring
/// case and surrounding blanks), and off otherwise or when unset.
pub proof fn law_locale_and_switches(locale: Seq<char>, v: Seq<char>)
    ensures
        lower_seq(trim(locale)).len() >= 2 && lower_seq(trim(locale))[0] == 'e' && lower_seq(
            trim(locale),
        )[1] == 's' ==> is_spanish_locale(locale),
        (lower_seq(trim(locale)).len() < 2 || lower_seq(trim(locale))[0] != 'e' || lower_seq(
            trim(locale),
        )[1] != 's') ==> !is_spanish_locale(locale),
        is_truthy(v) <==> (v == "1"@ || v == "true"@ || v == "yes"@ || v == "on"@ || v
            == "enabled"@),
{
    reveal_strlit("es");
    let n = lower_seq(trim(locale));
    if n.len() >= 2 && n[0] == 'e' && n[1] == 's' {
        assert(n.take(2) =~= "es"@);
    }
    if starts_with(n, "es"@) {
        assert(n.take(2)[0] == n[0] && n.take(2)[1] == n[1]);
    }
}

/// A visible answer is shown exactly as typed, and the text before the
/// cursor is what the field shows up to the cursor: the typed prefix, or one
/// `*` per character of it for a secret.
pub proof fn law_plain_is_shown(input: Seq<char>, cursor: int)
    requires
        0 <= cursor <= input.len(),
    ensures
        displayed(input, PromptMode::Plain) == input,
        displayed(input.take(clamp(cursor, input.len() as int)), PromptMode::Plain) == input.take(
            cursor,
        ),
        displayed(input.take(clamp(cursor, input.len() as int)), PromptMode::Secret).len()
            == cursor,
{
}

/// A secret is never shown: the masked field has exactly one `*` per
/// character.
pub proof fn law_secret_is_masked(input: Seq<char>)
    ensures
        displayed(input, PromptMode::Secret).len() == input.len(),
        forall|i: int|
            0 <= i < input.len() ==> #[trigger] displayed(input, PromptMode::Secret)[i] == '*',
{
}

// ---------------------------------------------------------------------------
// Dialog state: timers and what a frame shows
// ---------------------------------------------------------------------------

/// Half period of the blinking border in the error tone, in milliseconds.
pub const ERROR_BLINK_INTERVAL_MS: u64 = 180;

/// How long a retry prompt keeps the error tone, in milliseconds.
pub const RETRY_ERROR_FLASH_MS: u64 = 900;

/// Everything of the prompt dialog that is not drawing. Instants are
/// milliseconds on one monotonic clock, chosen by the caller.
#[derive(Debug)]
pub struct PromptDialogState {
    pub request: PromptRequest,
    pub input: String,
    pub cursor: usize,
    pub exit: Option<PromptExit>,
    pub deadline: Option<u64>,
    pub remaining_secs: Option<u64>,
    pub error_blink_on: bool,
    pub last_blink_toggle: u64,
    pub error_flash_until: Option<u64>,
}

/// The instant at which a request with this timeout expires, if it does.
pub open spec fn deadline_for(timeout_secs: u64, now: u64) -> Option<int> {
    if timeout_secs > 0 {
        Some(now + timeout_secs * 1000)
    } else {
        None
    }
}

/// Whether a request's timers fit the clock: its deadline and error flash.
pub open spec fn timers_fit(request: PromptRequest, now: u64) -> bool {
    &&& now + request.timeout_secs * 1000 <= u64::MAX
    &&& now + RETRY_ERROR_FLASH_MS <= u64::MAX
}

/// Whether a dialog opened at `now` can hold `request`'s timers.
pub fn timers_fit_at(request: &PromptRequest, now: u64) -> (r: bool)
    ensures
        r == timers_fit(*request, now),
{
    let room = u64::MAX - now;
    request.timeout_secs <= room / 1000 && RETRY_ERROR_FLASH_MS <= room
}

pub open spec fn opt_int(o: Option<u64>) -> Option<int> {
    match o {
        Some(v) => Some(v as int),
        None => None,
    }
}

/// A retry prompt (error tone, not feedback) flashes the error for a while.
pub open spec fn flashes_error(request: PromptRequest) -> bool {
    !request.feedback_only && request.tone == PromptTone::Error
}

/// Whether the error flash is over at `now`.
pub open spec fn flash_over(flash: Option<u64>, now: u64) -> bool {
    match flash {
        Some(until) => now >= until,
        None => false,
    }
}

/// Whether the deadline has passed at `now`.
pub open spec fn deadline_passed(deadline: Option<u64>, now: u64) -> bool {
    match deadline {
        Some(d) => now >= d,
        None => false,
    }
}

/// Whole seconds left before the deadline at `now`.
pub open spec fn seconds_left(deadline: Option<u64>, now: u64) -> Option<u64> {
    match deadline {
        Some(d) => if now < d {
            Some(((d - now) / 1000) as u64)
        } else {
            None
        },
        None => None,
    }
}

/// Which color the accent parts of a frame take.
#[derive(Debug, Clone, Copy, PartialEq, Eq, Structural)]
pub enum AccentRole {
    Accent,
    Success,
    Error,
    Border,
}

pub open spec fn accent_for(tone: PromptTone, blink_on: bool) -> AccentRole {
    match tone {
        PromptTone::Default => AccentRole::Accent,
        PromptTone::Success => AccentRole::Success,
        PromptTone::Error => if blink_on {
            AccentRole::Error
        } else {
            AccentRole::Border
        },
    }
}

/// The text and choices of one frame of the dialog; layout and drawing are
/// the caller's.
#[derive(Debug)]
pub struct DialogContent {
    pub title: &'static str,
    pub input_label: &'static str,
    pub display_input: String,
    pub cursor_prefix: Option<String>,
    pub footer: &'static str,
    pub timer_text: Option<String>,
    pub accent: AccentRole,
}

/// `"<label> <n>s"`, the countdown shown in the footer.
pub open spec fn timer_label(label: Seq<char>, remaining: u64) -> Seq<char> {
    label + seq![' '] + decimal(remaining as nat) + seq!['s']
}

pub fn timeout_text(label: &str, remaining_secs: u64) -> (r: String)
    ensures
        r@ == timer_label(label@, remaining_secs),
{
    let mut r = label.to_owned();
    push_char(&mut r, ' ');
    let digits = decimal_string(remaining_secs);
    push_str(&mut r, digits.as_str());
    push_char(&mut r, 's');
    r
}

impl PromptDialogState {
    /// A dialog opened at `now` for `request`.
    pub fn new(request: PromptRequest, now: u64) -> (r: Self)
        requires
            timers_fit(request, now),
        ensures
            r.request == request,
            r.input@ == Seq::<char>::empty(),
            r.cursor == 0,
            r.exit is None,
            opt_int(r.deadline) == deadline_for(request.timeout_secs, now),
            r.remaining_secs is None,
            r.error_blink_on,
            r.last_blink_toggle == now,
            r.error_flash_until is None,
    {
        let deadline = if request.timeout_secs > 0 {
            Some(now + request.timeout_secs * 1000)
        } else {
            None
        };
        PromptDialogState {
            request,
            input: String::new(),
            cursor: 0,
            exit: None,
            deadline,
            remaining_secs: None,
            error_blink_on: true,
            last_blink_toggle: now,
            error_flash_until: None,
        }
    }

    /// Reuses the dialog for the next request at `now`: the previous input
    /// is scrubbed and every timer restarts.
    pub fn begin_request(&mut self, request: PromptRequest, now: u64)
        requires
            timers_fit(request, now),
        ensures
            final(self).request == request,
            final(self).input@ == Seq::<char>::empty(),
            final(self).cursor == 0,
            final(self).exit is None,
            opt_int(final(self).deadline) == deadline_for(request.timeout_secs, now),
            final(self).remaining_secs is None,
            final(self).error_blink_on,
            final(self).last_blink_toggle == now,
            opt_int(final(self).error_flash_until) == (if flashes_error(request) {
                Some(now + RETRY_ERROR_FLASH_MS)
            } else {
                None::<int>
            }),
    {
        scrub_string(&mut self.input);
        self.cursor = 0;
        let flash = !request.feedback_only && request.tone == PromptTone::Error;
        let timeout_secs = request.timeout_secs;
        self.request = request;
        self.exit = None;
        self.remaining_secs = None;
        self.error_blink_on = true;
        self.last_blink_toggle = now;
        self.error_flash_until = if flash {
            Some(now + RETRY_ERROR_FLASH_MS)
        } else {
            None
        };
        self.deadline = if timeout_secs > 0 {
            Some(now + timeout_secs * 1000)
        } else {
            None
        };
    }

    /// Advances the timers to `now`: ends the error flash, expires the
    /// request, updates the countdown and blinks the error border. Returns
    /// whether the frame must be drawn again.
    pub fn refresh_timeout(&mut self, now: u64) -> (changed: bool)
        ensures
            ({
                let old_s = *old(self);
                let new_s = *final(self);
                let flash_done = flash_over(old_s.error_flash_until, now);
                let tone = if flash_done {
                    PromptTone::Default
                } else {
                    old_s.request.tone
                };
                let blink = if flash_done {
                    true
                } else {
                    old_s.error_blink_on
                };
                let expired = deadline_passed(old_s.deadline, now);
                let left = seconds_left(old_s.deadline, now);
                let recount = left is Some && old_s.remaining_secs != left;
                let blink_due = !expired && tone == PromptTone::Error && now
                    - old_s.last_blink_toggle >= ERROR_BLINK_INTERVAL_MS;
                &&& new_s.error_flash_until == (if flash_done {
                    None
                } else {
                    old_s.error_flash_until
                })
                &&& new_s.request.tone == tone
                &&& new_s.request.message == old_s.request.message
                &&& new_s.request.mode == old_s.request.mode
                &&& new_s.request.timeout_secs == old_s.request.timeout_secs
                &&& new_s.request.feedback_only == old_s.request.feedback_only
                &&& new_s.exit == (if expired {
                    Some(PromptExit::TimedOut)
                } else {
                    old_s.exit
                })
                &&& new_s.remaining_secs == (if recount {
                    left
                } else {
                    old_s.remaining_secs
                })
                &&& new_s.error_blink_on == (if blink_due {
                    !blink
                } else {
                    blink
                })
                &&& new_s.last_blink_toggle == (if blink_due {
                    now
                } else {
                    old_s.last_blink_toggle
                })
                &&& new_s.input == old_s.input
                &&& new_s.cursor == old_s.cursor
                &&& new_s.deadline == old_s.deadline
                &&& changed == (flash_done || expired || recount || blink_due)
            }),
    {
        let mut changed = false;
        if let Some(until) = self.error_flash_until {
            if now >= until {
                self.error_flash_until = None;
                self.request.tone = PromptTone::Default;
                self.error_blink_on = true;
                changed = true;
            }
        }
        let deadline = match self.deadline {
            Some(d) => d,
            None => {
                if self.request.tone == PromptTone::Error && now >= self.last_blink_toggle
                    && now - self.last_blink_toggle >= ERROR_BLINK_INTERVAL_MS {
                    self.last_blink_toggle = now;
                    self.error_blink_on = !self.error_blink_on;
                    changed = true;
                }
                return changed;
            },
        };
        if now >= deadline {
            self.exit = Some(PromptExit::TimedOut);
            return true;
        }
        let remaining = (deadline - now) / 1000;
        let same = match self.remaining_secs {
            Some(r) => r == remaining,
            None => false,
        };
        if !same {
            self.remaining_secs = Some(remaining);
            changed = true;
        }
        if self.request.tone == PromptTone::Error && now >= self.last_blink_toggle && now
            - self.last_blink_toggle >= ERROR_BLINK_INTERVAL_MS {
            self.last_blink_toggle = now;
            self.error_blink_on = !self.error_blink_on;
            changed = true;
        }
        changed
    }

    /// Applies a key press, resolving character keys through `keymap`
    /// when one was loaded.
    pub fn handle_key(&mut self, keymap: Option<&X11Keymap>, key_event: &KeyEvent)
        requires
            old(self).cursor < usize::MAX,
        ensures
            ({
                let resolved = match (key_event.key, keymap) {
                    (Key::Char(_), Some(km)) => keymap_char(*km, *key_event),
                    _ => None,
                };
                (final(self).input@, final(self).cursor as int, exit_view(final(self).exit))
                    == key_step(
                    old(self).input@,
                    old(self).cursor as int,
                    exit_view(old(self).exit),
                    old(self).request.feedback_only,
                    *key_event,
                    resolved,
                )
            }),
            final(self).request == old(self).request,
            final(self).deadline == old(self).deadline,
            final(self).remaining_secs == old(self).remaining_secs,
    {
        let resolved_char = match key_event.key {
            Key::Char(_) => match keymap {
                Some(km) => km.char_for_event(key_event),
                None => None,
            },
            _ => None,
        };
        let feedback_only = self.request.feedback_only;
        apply_key_event(
            &mut self.input,
            &mut self.cursor,
            &mut self.exit,
            feedback_only,
            key_event,
            resolved_char,
        );
    }

    /// What the next frame shows, in the labels of `strings`.
    pub fn content(&self, strings: &PromptStrings) -> (r: DialogContent)
        ensures
            r.title == strings.title_auth_required,
            r.input_label == (match self.request.mode {
                PromptMode::Secret => strings.label_password,
                PromptMode::Plain => strings.label_response,
            }),
            r.display_input@ == displayed(self.input@, self.request.mode),
            match r.cursor_prefix {
                Some(p) => self.request.tone == PromptTone::Default && p@ == displayed(
                    self.input@.take(clamp(self.cursor as int, self.input@.len() as int)),
                    self.request.mode,
                ),
                None => self.request.tone != PromptTone::Default,
            },
            r.footer == (if self.request.feedback_only {
                strings.footer_wait
            } else {
                strings.footer_controls
            }),
            match r.timer_text {
                Some(t) => self.remaining_secs matches Some(n) && t@ == timer_label(
                    strings.timeout_label@,
                    n,
                ),
                None => self.remaining_secs is None,
            },
            r.accent == accent_for(self.request.tone, self.error_blink_on),
    {
        let input_label = match self.request.mode {
            PromptMode::Secret => strings.label_password,
            PromptMode::Plain => strings.label_response,
        };
        let cursor_prefix = if self.request.tone == PromptTone::Default {
            Some(display_prefix(self.input.as_str(), self.cursor, self.request.mode))
        } else {
            None
        };
        let timer_text = match self.remaining_secs {
            Some(n) => Some(timeout_text(strings.timeout_label, n)),
            None => None,
        };
        let accent = match self.request.tone {
            PromptTone::Default => AccentRole::Accent,
            PromptTone::Success => AccentRole::Success,
            PromptTone::Error => if self.error_blink_on {
                AccentRole::Error
            } else {
                AccentRole::Border
            },
        };
        DialogContent {
            title: strings.title_auth_required,
            input_label,
            display_input: display_value(self.input.as_str(), self.request.mode),
            cursor_prefix,
            footer: if self.request.feedback_only {
                strings.footer_wait
            } else {
                strings.footer_controls
            },
            timer_text,
            accent,
        }
    }
}

/// Rust's integer division, which rounds toward zero.
pub open spec fn div_toward_zero(a: int, b: int) -> int {
    if a >= 0 {
        a / b
    } else {
        -((-a) / b)
    }
}

/// Where a dialog of `width` × `height` goes in an area (a monitor, or the
/// whole screen): centered across, a third of the way down.
pub fn centered_position(
    area_x: i32,
    area_y: i32,
    area_width: u32,
    area_height: u32,
    width: u32,
    height: u32,
) -> (r: (i32, i32))
    requires
        area_width <= i32::MAX,
        area_height <= i32::MAX,
        width <= i32::MAX,
        height <= i32::MAX,
        i32::MIN <= area_x + div_toward_zero(area_width - width, 2) <= i32::MAX,
        i32::MIN <= area_y + div_toward_zero(area_height - height, 3) <= i32::MAX,
    ensures
        r.0 == area_x + div_toward_zero(area_width - width, 2),
        r.1 == area_y + div_toward_zero(area_height - height, 3),
{
    let dx = (area_width as i32 - width as i32) / 2;
    let dy = (area_height as i32 - height as i32) / 3;
    (area_x + dx, area_y + dy)
}

} // verus!
