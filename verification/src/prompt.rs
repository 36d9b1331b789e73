//! Prompt plumbing decisions: how a prompt program's exit maps to a prompt
//! response, which tone argument a feedback dialog gets, and the timeout
//! setting.
use crate::polkit_helper::{zero_bytes, PromptResponse};
use crate::prompt_ui::{PromptExit, PromptMode, PromptRequest, PromptTone as UiPromptTone};
use crate::text::{
    chars_of, decimal, decimal_string, parse_unsigned, parse_unsigned_chars, push_str, string_of,
    trim, trim_str,
};
use vstd::prelude::*;
use vstd::utf8::{decode_utf8, valid_utf8};

verus! {

pub const DEFAULT_ASK_TIMEOUT_SECS: u64 = 120;

pub const FEEDBACK_TIMEOUT_SECS: u64 = 1;

/// Exit status a prompt program uses to report a timeout.
pub const TIMEOUT_EXIT_CODE: i32 = 124;

#[derive(Debug, Clone, Copy, PartialEq, Eq, Structural)]
pub enum PromptTone {
    Default,
    Success,
    Error,
}

impl PromptTone {
    /// The `--tone` argument of the prompt subcommand.
    pub fn as_arg(self) -> (r: &'static str)
        ensures
            r@ == match self {
                PromptTone::Default => "default"@,
                PromptTone::Success => "success"@,
                PromptTone::Error => "error"@,
            },
    {
        match self {
            PromptTone::Default => "default",
            PromptTone::Success => "success",
            PromptTone::Error => "error",
        }
    }
}

pub fn to_ui_tone(tone: PromptTone) -> (r: UiPromptTone)
    ensures
        r == match tone {
            PromptTone::Default => UiPromptTone::Default,
            PromptTone::Success => UiPromptTone::Success,
            PromptTone::Error => UiPromptTone::Error,
        },
{
    match tone {
        PromptTone::Default => UiPromptTone::Default,
        PromptTone::Success => UiPromptTone::Success,
        PromptTone::Error => UiPromptTone::Error,
    }
}

/// What `String::from_utf8_lossy` decodes from these bytes.
pub uninterp spec fn utf8_lossy(bytes: Seq<u8>) -> Seq<char>;

/// `String::from_utf8_lossy`: the text of the bytes, invalid sequences
/// replaced by U+FFFD. Only its result for valid UTF-8 is stated.
#[verifier::external_body]
fn decode_lossy(bytes: &[u8]) -> (r: String)
    ensures
        r@ == utf8_lossy(bytes@),
        valid_utf8(bytes@) ==> r@ == decode_utf8(bytes@),
{
    String::from_utf8_lossy(bytes).into_owned()
}

/// A submitted answer: the trimmed text, when anything is left.
pub open spec fn response_text(text: Seq<char>) -> Option<Seq<char>> {
    if trim(text).len() == 0 {
        None
    } else {
        Some(trim(text))
    }
}

pub open spec fn opt_view(o: Option<String>) -> Option<Seq<char>> {
    match o {
        Some(s) => Some(s@),
        None => None,
    }
}

/// The answer held in a prompt program's decoded output.
pub fn response_from_text(text: &str) -> (r: Option<String>)
    ensures
        opt_view(r) == response_text(text@),
{
    let t = trim_str(text);
    if t.len() == 0 {
        None
    } else {
        Some(string_of(&t))
    }
}

/// The answer a prompt program printed.
pub fn extract_response(stdout: &[u8]) -> (r: Option<String>)
    ensures
        opt_view(r) == response_text(utf8_lossy(stdout@)),
        valid_utf8(stdout@) ==> opt_view(r) == response_text(decode_utf8(stdout@)),
{
    let mut text = decode_lossy(stdout);
    let r = response_from_text(text.as_str());
    crate::polkit_helper::scrub_string(&mut text);
    r
}

/// How a prompt program's exit maps to a response: success with an answer
/// submits it, success without one cancels, exit code 124 is a timeout and
/// any other failure cancels.
pub open spec fn output_response(success: bool, code: Option<i32>, text: Seq<char>) -> PromptResponseKind {
    if success {
        match response_text(text) {
            Some(t) => PromptResponseKind::Submitted(t),
            None => PromptResponseKind::Canceled,
        }
    } else if code == Some(TIMEOUT_EXIT_CODE) {
        PromptResponseKind::TimedOut
    } else {
        PromptResponseKind::Canceled
    }
}

pub ghost enum PromptResponseKind {
    Submitted(Seq<char>),
    Canceled,
    TimedOut,
}

pub open spec fn response_kind(r: PromptResponse) -> PromptResponseKind {
    match r {
        PromptResponse::Submitted(s) => PromptResponseKind::Submitted(s@),
        PromptResponse::Canceled => PromptResponseKind::Canceled,
        PromptResponse::TimedOut => PromptResponseKind::TimedOut,
    }
}

/// Maps a finished prompt program (its success flag, exit code and
/// standard output) to a prompt response.
pub fn map_output_to_prompt_response(success: bool, code: Option<i32>, stdout: &[u8]) -> (r:
    PromptResponse)
    ensures
        response_kind(r) == output_response(success, code, utf8_lossy(stdout@)),
        valid_utf8(stdout@) ==> response_kind(r) == output_response(
            success,
            code,
            decode_utf8(stdout@),
        ),
{
    if success {
        return match extract_response(stdout) {
            Some(s) => PromptResponse::Submitted(s),
            None => PromptResponse::Canceled,
        };
    }
    match code {
        Some(c) => {
            if c == TIMEOUT_EXIT_CODE {
                PromptResponse::TimedOut
            } else {
                PromptResponse::Canceled
            }
        },
        None => PromptResponse::Canceled,
    }
}

/// Zeroes and empties a buffer that held a secret.
pub fn scrub_bytes(value: &mut Vec<u8>)
    ensures
        final(value)@ == Seq::<u8>::empty(),
{
    if value.len() == 0 {
        return;
    }
    zero_bytes(value);
    value.clear();
}

/// The prompt timeout setting: a positive number of seconds, else the
/// default of 120.
pub open spec fn prompt_timeout_setting(raw: Option<Seq<char>>) -> u64 {
    match raw {
        Some(v) => match parse_unsigned(v, u64::MAX as nat) {
            Some(n) => if n > 0 {
                n as u64
            } else {
                DEFAULT_ASK_TIMEOUT_SECS
            },
            None => DEFAULT_ASK_TIMEOUT_SECS,
        },
        None => DEFAULT_ASK_TIMEOUT_SECS,
    }
}

pub open spec fn opt_str_view(o: Option<&str>) -> Option<Seq<char>> {
    match o {
        Some(s) => Some(s@),
        None => None,
    }
}

/// Reads the prompt timeout from the raw setting (not trimmed).
pub fn prompt_timeout_from(raw: Option<&str>) -> (r: u64)
    ensures
        r == prompt_timeout_setting(opt_str_view(raw)),
        r > 0,
{
    match raw {
        Some(v) => {
            let chars = chars_of(v);
            match parse_unsigned_chars(&chars, u64::MAX) {
                Some(n) => if n > 0 {
                    n
                } else {
                    DEFAULT_ASK_TIMEOUT_SECS
                },
                None => DEFAULT_ASK_TIMEOUT_SECS,
            }
        },
        None => DEFAULT_ASK_TIMEOUT_SECS,
    }
}

// ---------------------------------------------------------------------------
// Which prompt path answers, and what the prompt programs are given
// ---------------------------------------------------------------------------

/// The `--mode` argument and `GARCARD_PROMPT_MODE` value of a prompt.
pub fn prompt_mode_arg(visible: bool) -> (r: &'static str)
    ensures
        r@ == (if visible {
            "plain"@
        } else {
            "secret"@
        }),
{
    if visible {
        "plain"
    } else {
        "secret"
    }
}

/// The dialog request for a question, in `tone` (the error tone on a
/// retry).
pub fn prompt_request(prompt: &str, visible: bool, timeout_secs: u64, tone: UiPromptTone) -> (r:
    PromptRequest)
    ensures
        r.message@ == prompt@,
        r.mode == (if visible {
            PromptMode::Plain
        } else {
            PromptMode::Secret
        }),
        r.timeout_secs == timeout_secs,
        r.tone == tone,
        !r.feedback_only,
{
    PromptRequest {
        message: prompt.to_owned(),
        mode: if visible {
            PromptMode::Plain
        } else {
            PromptMode::Secret
        },
        timeout_secs,
        tone,
        feedback_only: false,
    }
}

/// The dialog request for a feedback message: shown, never answered.
pub fn feedback_request(message: &str, tone: UiPromptTone, timeout_secs: u64) -> (r: PromptRequest)
    ensures
        r.message@ == message@,
        r.mode == PromptMode::Plain,
        r.timeout_secs == timeout_secs,
        r.tone == tone,
        r.feedback_only,
{
    PromptRequest {
        message: message.to_owned(),
        mode: PromptMode::Plain,
        timeout_secs,
        tone,
        feedback_only: true,
    }
}

/// How a closed dialog answers the question.
pub fn exit_response(exit: PromptExit) -> (r: PromptResponse)
    ensures
        match exit {
            PromptExit::Submitted(v) => r == PromptResponse::Submitted(v),
            PromptExit::Canceled => r == PromptResponse::Canceled,
            PromptExit::TimedOut => r == PromptResponse::TimedOut,
        },
{
    match exit {
        PromptExit::Submitted(v) => PromptResponse::Submitted(v),
        PromptExit::Canceled => PromptResponse::Canceled,
        PromptExit::TimedOut => PromptResponse::TimedOut,
    }
}

pub open spec fn views(v: Seq<String>) -> Seq<Seq<char>> {
    v.map_values(|s: String| s@)
}

fn push_arg(args: &mut Vec<String>, a: &str)
    ensures
        views(final(args)@) == views(old(args)@).push(a@),
{
    args.push(a.to_owned());
    proof {
        assert(views(final(args)@) =~= views(old(args)@).push(a@));
    }
}

fn push_owned(args: &mut Vec<String>, a: String)
    ensures
        views(final(args)@) == views(old(args)@).push(a@),
{
    args.push(a);
    proof {
        assert(views(final(args)@) =~= views(old(args)@).push(a@));
    }
}

/// Arguments of the prompt subcommand for a question.
pub fn prompt_subcommand_args(prompt: &str, visible: bool, timeout_secs: u64) -> (r: Vec<String>)
    ensures
        views(r@) == seq![
            "prompt"@,
            "--mode"@,
            (if visible {
                "plain"@
            } else {
                "secret"@
            }),
            "--message"@,
            prompt@,
            "--timeout-secs"@,
            decimal(timeout_secs as nat),
            "--tone"@,
            "default"@,
        ],
{
    let mut args: Vec<String> = Vec::new();
    push_arg(&mut args, "prompt");
    push_arg(&mut args, "--mode");
    push_arg(&mut args, prompt_mode_arg(visible));
    push_arg(&mut args, "--message");
    push_arg(&mut args, prompt);
    push_arg(&mut args, "--timeout-secs");
    push_owned(&mut args, decimal_string(timeout_secs));
    push_arg(&mut args, "--tone");
    push_arg(&mut args, PromptTone::Default.as_arg());
    proof {
        assert(views(args@) =~= seq![
            "prompt"@,
            "--mode"@,
            (if visible {
                "plain"@
            } else {
                "secret"@
            }),
            "--message"@,
            prompt@,
            "--timeout-secs"@,
            decimal(timeout_secs as nat),
            "--tone"@,
            "default"@,
        ]);
    }
    args
}

/// Arguments of the prompt subcommand for a feedback message.
pub fn feedback_subcommand_args(message: &str, tone: PromptTone, timeout_secs: u64) -> (r: Vec<
    String,
>)
    ensures
        views(r@) == seq![
            "prompt"@,
            "--mode"@,
            "plain"@,
            "--message"@,
            message@,
            "--timeout-secs"@,
            decimal(timeout_secs as nat),
            "--tone"@,
            match tone {
                PromptTone::Default => "default"@,
                PromptTone::Success => "success"@,
                PromptTone::Error => "error"@,
            },
        ],
{
    let mut args: Vec<String> = Vec::new();
    push_arg(&mut args, "prompt");
    push_arg(&mut args, "--mode");
    push_arg(&mut args, "plain");
    push_arg(&mut args, "--message");
    push_arg(&mut args, message);
    push_arg(&mut args, "--timeout-secs");
    push_owned(&mut args, decimal_string(timeout_secs));
    push_arg(&mut args, "--tone");
    push_arg(&mut args, tone.as_arg());
    proof {
        assert(views(args@) =~= seq![
            "prompt"@,
            "--mode"@,
            "plain"@,
            "--message"@,
            message@,
            "--timeout-secs"@,
            decimal(timeout_secs as nat),
            "--tone"@,
            match tone {
                PromptTone::Default => "default"@,
                PromptTone::Success => "success"@,
                PromptTone::Error => "error"@,
            },
        ]);
    }
    args
}

/// Arguments of `systemd-ask-password` for a question.
pub fn ask_password_args(prompt: &str, visible: bool, timeout_secs: u64) -> (r: Vec<String>)
    ensures
        views(r@) == seq!["--user"@, "--no-tty"@, "--timeout="@ + decimal(timeout_secs as nat)]
            + (if visible {
            seq!["--echo=yes"@]
        } else {
            Seq::empty()
        }) + seq![prompt@],
{
    let mut args: Vec<String> = Vec::new();
    push_arg(&mut args, "--user");
    push_arg(&mut args, "--no-tty");
    let mut timeout = "--timeout=".to_owned();
    let digits = decimal_string(timeout_secs);
    push_str(&mut timeout, digits.as_str());
    push_owned(&mut args, timeout);
    if visible {
        push_arg(&mut args, "--echo=yes");
    }
    push_arg(&mut args, prompt);
    proof {
        assert(views(args@) =~= seq!["--user"@, "--no-tty"@, "--timeout="@ + decimal(
            timeout_secs as nat,
        )] + (if visible {
            seq!["--echo=yes"@]
        } else {
            Seq::empty()
        }) + seq![prompt@]);
    }
    args
}

/// Exit status of the prompt subcommand when it cannot show a dialog.
pub const UNAVAILABLE_EXIT_CODE: i32 = 2;

/// Whether the prompt subcommand reported that it could not show a dialog;
/// the caller then falls back to `systemd-ask-password`.
pub fn subcommand_unavailable(code: Option<i32>) -> (r: bool)
    ensures
        r == (code == Some(UNAVAILABLE_EXIT_CODE)),
{
    match code {
        Some(c) => c == UNAVAILABLE_EXIT_CODE,
        None => false,
    }
}

/// What to do about the persistent dialog session before prompting.
#[derive(Debug, Clone, Copy, PartialEq, Eq, Structural)]
pub enum SessionStep {
    /// No session: prompt another way.
    Bypass,
    /// Open a session, then use it.
    Connect,
    /// Use the open session.
    Reuse,
}

/// Which way the agent prompts: a custom command when one is configured,
/// else a persistent dialog session until it fails once, else a prompt
/// subprocess.
#[derive(Debug, Clone)]
pub struct PromptRouter {
    pub prompt_command: Option<String>,
    pub prompt_timeout_secs: u64,
    pub session_open: bool,
    pub session_unavailable: bool,
    /// The next question follows a denied attempt.
    pub retry_pending: bool,
}

pub open spec fn session_step_of(r: PromptRouter) -> SessionStep {
    if r.prompt_command is Some || r.session_unavailable {
        SessionStep::Bypass
    } else if r.session_open {
        SessionStep::Reuse
    } else {
        SessionStep::Connect
    }
}

/// The router never has a session when a custom command is configured or
/// after the session failed.
pub open spec fn router_wf(r: PromptRouter) -> bool {
    (r.prompt_command is Some || r.session_unavailable) ==> !r.session_open
}

impl PromptRouter {
    /// From the configured command and the raw timeout setting.
    pub fn from_settings(prompt_command: Option<String>, timeout_raw: Option<&str>) -> (r: Self)
        ensures
            r.prompt_command == prompt_command,
            r.prompt_timeout_secs == prompt_timeout_setting(opt_str_view(timeout_raw)),
            !r.session_open,
            !r.session_unavailable,
            !r.retry_pending,
            router_wf(r),
    {
        PromptRouter {
            prompt_command,
            prompt_timeout_secs: prompt_timeout_from(timeout_raw),
            session_open: false,
            session_unavailable: false,
            retry_pending: false,
        }
    }

    /// Marks the next question as a retry after a denied attempt.
    pub fn on_retry(&mut self)
        ensures
            *final(self) == (PromptRouter { retry_pending: true, ..*old(self) }),
    {
        self.retry_pending = true;
    }

    /// The tone of the next question: the error tone once after a retry.
    pub fn next_tone(&mut self) -> (r: UiPromptTone)
        ensures
            r == (if old(self).retry_pending {
                UiPromptTone::Error
            } else {
                UiPromptTone::Default
            }),
            *final(self) == (PromptRouter { retry_pending: false, ..*old(self) }),
    {
        let tone = if self.retry_pending {
            UiPromptTone::Error
        } else {
            UiPromptTone::Default
        };
        self.retry_pending = false;
        tone
    }

    pub fn session_step(&self) -> (r: SessionStep)
        ensures
            r == session_step_of(*self),
    {
        if self.prompt_command.is_some() || self.session_unavailable {
            SessionStep::Bypass
        } else if self.session_open {
            SessionStep::Reuse
        } else {
            SessionStep::Connect
        }
    }

    /// Records whether opening the session worked; a failed attempt is
    /// never repeated.
    pub fn on_connect(&mut self, connected: bool)
        requires
            session_step_of(*old(self)) == SessionStep::Connect,
        ensures
            final(self).prompt_command == old(self).prompt_command,
            final(self).prompt_timeout_secs == old(self).prompt_timeout_secs,
            final(self).retry_pending == old(self).retry_pending,
            final(self).session_open == connected,
            final(self).session_unavailable == !connected,
            router_wf(*final(self)),
    {
        self.session_open = connected;
        self.session_unavailable = !connected;
    }

    /// Records that the open session failed: it is dropped and not used
    /// again.
    pub fn on_session_failure(&mut self)
        ensures
            final(self).prompt_command == old(self).prompt_command,
            final(self).prompt_timeout_secs == old(self).prompt_timeout_secs,
            final(self).retry_pending == old(self).retry_pending,
            !final(self).session_open,
            final(self).session_unavailable,
            router_wf(*final(self)),
            session_step_of(*final(self)) == SessionStep::Bypass,
    {
        self.session_open = false;
        self.session_unavailable = true;
    }
}

/// How a finished prompt program is read: a successful run submits what it
/// printed, trimmed, and cancels when it printed nothing but blanks; a run
/// that failed with exit code 124 timed out; any other failed run cancels.
pub proof fn law_prompt_program_outcome(code: Option<i32>, text: Seq<char>)
    ensures
        trim(text).len() > 0 ==> output_response(true, code, text) == PromptResponseKind::Submitted(
            trim(text),
        ),
        trim(text).len() == 0 ==> output_response(true, code, text) == PromptResponseKind::Canceled,
        output_response(false, Some(124), text) == PromptResponseKind::TimedOut,
        code != Some(124i32) ==> output_response(false, code, text) == PromptResponseKind::Canceled,
{
}

/// The prompt timeout: a positive whole number of seconds is taken as
/// given; no setting, zero or anything else gives 120 seconds.
pub proof fn law_prompt_timeout(raw: Option<Seq<char>>)
    ensures
        prompt_timeout_setting(raw) > 0,
        raw is None ==> prompt_timeout_setting(raw) == 120,
        raw is Some && parse_unsigned(raw->0, u64::MAX as nat) is Some && parse_unsigned(
            raw->0,
            u64::MAX as nat,
        )->0 > 0 ==> prompt_timeout_setting(raw) == parse_unsigned(raw->0, u64::MAX as nat)->0,
        raw is Some && (parse_unsigned(raw->0, u64::MAX as nat) is None || parse_unsigned(
            raw->0,
            u64::MAX as nat,
        )->0 == 0) ==> prompt_timeout_setting(raw) == 120,
{
}

/// Which way the next question goes: a configured command always runs as
/// a subprocess; otherwise an open dialog session is reused, a session
/// that failed is never tried again, and otherwise a session is opened.
pub proof fn law_prompt_routing(r: PromptRouter)
    ensures
        r.prompt_command is Some ==> session_step_of(r) == SessionStep::Bypass,
        r.prompt_command is None && r.session_unavailable ==> session_step_of(r)
            == SessionStep::Bypass,
        r.prompt_command is None && !r.session_unavailable && r.session_open ==> session_step_of(r)
            == SessionStep::Reuse,
        r.prompt_command is None && !r.session_unavailable && !r.session_open ==> session_step_of(
            r,
        ) == SessionStep::Connect,
{
}

/// A router whose session has failed bypasses the session; since
/// `on_connect` is only taken on a `Connect` step, nothing clears the
/// failure again.
pub proof fn law_failed_session_stays_bypassed(r: PromptRouter)
    requires
        r.session_unavailable,
    ensures
        session_step_of(r) == SessionStep::Bypass,
{
}

/// A configured command always bypasses the session.
pub proof fn law_custom_command_bypasses_session(r: PromptRouter)
    requires
        r.prompt_command is Some,
    ensures
        session_step_of(r) == SessionStep::Bypass,
{
}

} // verus!
