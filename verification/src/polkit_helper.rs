//! The line protocol spoken with `polkit-agent-helper-1`: parsing helper
//! lines, sanitizing what is sent back, and the per-line decisions of an
//! authentication conversation.
use crate::text::{
    chars_of, contains_seq, contains_str, equals_str, is_ws, join_lines,
    lemma_join_lines_no_newline, lemma_strip_trailing_take, lemma_trim_shape, lower_chars,
    lower_seq, occurs_at, push_char, push_str, starts_with, starts_with_str, string_of,
    string_of_range, strip_trailing, trim, trim_chars,
};
use vstd::prelude::*;
use vstd::string::*;
use vstd::utf8::encode_utf8;

verus! {

pub const DEFAULT_HELPER_SOCKET: &'static str = "/run/polkit/agent-helper.socket";

#[derive(Debug, Clone, Copy, PartialEq, Eq, Structural)]
pub enum HelperOutcome {
    Authorized,
    Denied,
    Canceled,
    Timeout,
}

#[derive(Debug, Clone, PartialEq, Eq)]
pub enum HelperEvent {
    PromptHidden(String),
    PromptVisible(String),
    Error(String),
    Info(String),
    Success,
    Failure,
}

pub ghost enum HelperEventView {
    PromptHidden(Seq<char>),
    PromptVisible(Seq<char>),
    Error(Seq<char>),
    Info(Seq<char>),
    Success,
    Failure,
}

impl View for HelperEvent {
    type V = HelperEventView;

    open spec fn view(&self) -> HelperEventView {
        match self {
            HelperEvent::PromptHidden(m) => HelperEventView::PromptHidden(m@),
            HelperEvent::PromptVisible(m) => HelperEventView::PromptVisible(m@),
            HelperEvent::Error(m) => HelperEventView::Error(m@),
            HelperEvent::Info(m) => HelperEventView::Info(m@),
            HelperEvent::Success => HelperEventView::Success,
            HelperEvent::Failure => HelperEventView::Failure,
        }
    }
}

#[derive(Debug, Clone, PartialEq, Eq)]
pub enum PromptResponse {
    Submitted(String),
    Canceled,
    TimedOut,
}

/// Why a prompt could not be shown or answered.
#[derive(Debug, Clone, PartialEq, Eq)]
pub struct PromptError {
    pub message: String,
}

/// Where prompts are shown and answered (a dialog, a command, a test double).
pub trait PromptProvider {
    fn prompt_secret(&mut self, prompt: &str) -> Result<PromptResponse, PromptError>;

    fn prompt_plain(&mut self, prompt: &str) -> Result<PromptResponse, PromptError>;

    fn show_error(&mut self, message: &str) -> (r: Result<(), PromptError>)
        default_ensures
            r is Ok,
    {
        Ok(())
    }

    fn show_info(&mut self, message: &str) -> (r: Result<(), PromptError>)
        default_ensures
            r is Ok,
    {
        Ok(())
    }

    fn auth_succeeded(&mut self) -> (r: Result<(), PromptError>)
        default_ensures
            r is Ok,
    {
        Ok(())
    }

    fn auth_failed(&mut self, message: &str) -> (r: Result<(), PromptError>)
        default_ensures
            r is Ok,
    {
        Ok(())
    }
}

/// A helper line the protocol does not define.
#[derive(Debug, Clone, PartialEq, Eq)]
pub struct HelperLineError {
    pub line: String,
}

pub open spec fn unsupported_line_message(line: Seq<char>) -> Seq<char> {
    "unsupported helper protocol line: "@ + line
}

impl HelperLineError {
    pub fn message(&self) -> (r: String)
        ensures
            r@ == unsupported_line_message(self.line@),
    {
        let mut r = "unsupported helper protocol line: ".to_owned();
        r.append(self.line.as_str());
        r
    }
}

/// A helper line without its line ending (trailing `\n`s, then `\r`s).
pub open spec fn helper_line_body(raw: Seq<char>) -> Seq<char> {
    strip_trailing(strip_trailing(raw, '\n'), '\r')
}

/// Helper diagnostics that report a failed authentication.
pub open spec fn is_failure_diagnostic(line: Seq<char>) -> bool {
    let lo = lower_seq(line);
    contains_seq(lo, "pam_authenticate failed"@) || contains_seq(lo, "authentication failure"@)
        || contains_seq(lo, "no session for cookie"@)
}

/// The event a helper line encodes, or `None` for an unsupported line.
pub open spec fn helper_event_of(raw: Seq<char>) -> Option<HelperEventView> {
    let line = helper_line_body(raw);
    if line == "SUCCESS"@ {
        Some(HelperEventView::Success)
    } else if line == "FAILURE"@ {
        Some(HelperEventView::Failure)
    } else if starts_with(line, "PAM_PROMPT_ECHO_OFF "@) {
        Some(HelperEventView::PromptHidden(line.skip("PAM_PROMPT_ECHO_OFF "@.len() as int)))
    } else if starts_with(line, "PAM_PROMPT_ECHO_ON "@) {
        Some(HelperEventView::PromptVisible(line.skip("PAM_PROMPT_ECHO_ON "@.len() as int)))
    } else if starts_with(line, "PAM_ERROR_MSG "@) {
        Some(HelperEventView::Error(line.skip("PAM_ERROR_MSG "@.len() as int)))
    } else if starts_with(line, "PAM_TEXT_INFO "@) {
        Some(HelperEventView::Info(line.skip("PAM_TEXT_INFO "@.len() as int)))
    } else if starts_with(line, "polkit-agent-helper-1:"@) {
        if is_failure_diagnostic(line) {
            Some(HelperEventView::Error(line))
        } else {
            Some(HelperEventView::Info(line))
        }
    } else {
        None
    }
}

/// Length of `v[..len]` once every trailing `c` is removed.
fn strip_trailing_len(v: &Vec<char>, len: usize, c: char) -> (r: usize)
    requires
        len <= v.len(),
    ensures
        r <= len,
        v@.take(r as int) == strip_trailing(v@.take(len as int), c),
{
    let mut end = len;
    while end > 0 && v[end - 1] == c
        invariant
            end <= len <= v.len(),
            forall|k: int| end <= k < len ==> #[trigger] v@[k] == c,
        decreases end,
    {
        end -= 1;
    }
    proof {
        let s = v@.take(len as int);
        assert forall|k: int| end <= k < s.len() implies #[trigger] s[k] == c by {
            assert(s[k] == v@[k]);
        }
        lemma_strip_trailing_take(s, c, end as int);
        assert(s.take(end as int) =~= v@.take(end as int));
        let t = v@.take(end as int);
        if t.len() > 0 {
            assert(t.last() == v@[end - 1]);
        }
    }
    end
}

fn prefix_vec(v: &Vec<char>, n: usize) -> (r: Vec<char>)
    requires
        n <= v.len(),
    ensures
        r@ == v@.take(n as int),
{
    let mut r: Vec<char> = Vec::new();
    let mut i: usize = 0;
    while i < n
        invariant
            i <= n <= v.len(),
            r@ =~= v@.take(i as int),
        decreases n - i,
    {
        r.push(v[i]);
        i += 1;
    }
    r
}

/// The text after `prefix` in `line` (which starts with it).
fn after_prefix(line: &Vec<char>, prefix: &str) -> (r: String)
    requires
        starts_with(line@, prefix@),
    ensures
        r@ == line@.skip(prefix@.len() as int),
{
    let n = chars_of(prefix).len();
    let r = string_of_range(line, n, line.len());
    assert(line@.subrange(n as int, line@.len() as int) =~= line@.skip(n as int));
    r
}

pub fn parse_helper_line(raw: &str) -> (r: Result<HelperEvent, HelperLineError>)
    ensures
        match r {
            Ok(e) => helper_event_of(raw@) == Some(e@),
            Err(err) => helper_event_of(raw@) is None && err.line@ == helper_line_body(raw@),
        },
{
    let v = chars_of(raw);
    let n1 = strip_trailing_len(&v, v.len(), '\n');
    let n2 = strip_trailing_len(&v, n1, '\r');
    let line = prefix_vec(&v, n2);
    proof {
        assert(v@.take(v@.len() as int) =~= v@);
        assert(v@.take(n2 as int) =~= v@.take(n1 as int).take(n2 as int));
        assert(line@ == helper_line_body(raw@));
    }
    if equals_str(&line, "SUCCESS") {
        return Ok(HelperEvent::Success);
    }
    if equals_str(&line, "FAILURE") {
        return Ok(HelperEvent::Failure);
    }
    if starts_with_str(&line, "PAM_PROMPT_ECHO_OFF ") {
        return Ok(HelperEvent::PromptHidden(after_prefix(&line, "PAM_PROMPT_ECHO_OFF ")));
    }
    if starts_with_str(&line, "PAM_PROMPT_ECHO_ON ") {
        return Ok(HelperEvent::PromptVisible(after_prefix(&line, "PAM_PROMPT_ECHO_ON ")));
    }
    if starts_with_str(&line, "PAM_ERROR_MSG ") {
        return Ok(HelperEvent::Error(after_prefix(&line, "PAM_ERROR_MSG ")));
    }
    if starts_with_str(&line, "PAM_TEXT_INFO ") {
        return Ok(HelperEvent::Info(after_prefix(&line, "PAM_TEXT_INFO ")));
    }
    if starts_with_str(&line, "polkit-agent-helper-1:") {
        let lowered = lower_chars(&line);
        let text = string_of(&line);
        if contains_str(&lowered, "pam_authenticate failed") || contains_str(
            &lowered,
            "authentication failure",
        ) || contains_str(&lowered, "no session for cookie") {
            return Ok(HelperEvent::Error(text));
        }
        return Ok(HelperEvent::Info(text));
    }
    Err(HelperLineError { line: string_of(&line) })
}

/// A helper line announcing a prompt parses to that prompt.
pub proof fn law_prompt_line_parses(message: Seq<char>)
    requires
        !message.contains('\n'),
        !message.contains('\r'),
    ensures
        helper_event_of("PAM_PROMPT_ECHO_OFF "@ + message + seq!['\n']) == Some(
            HelperEventView::PromptHidden(message),
        ),
{
    let p = "PAM_PROMPT_ECHO_OFF "@;
    reveal_strlit("PAM_PROMPT_ECHO_OFF ");
    reveal_strlit("SUCCESS");
    reveal_strlit("FAILURE");
    let raw = p + message + seq!['\n'];
    let body = p + message;
    assert(raw.drop_last() =~= body);
    assert(body.len() > 0 && body.last() != '\n') by {
        if message.len() > 0 {
            assert(body.last() == message.last());
            assert(message.contains(message.last()));
        }
    }
    assert(raw.len() > 0 && raw.last() == '\n');
    assert(strip_trailing(body, '\n') == body);
    assert(strip_trailing(raw, '\n') == body);
    assert(body.last() != '\r') by {
        if message.len() > 0 {
            assert(body.last() == message.last());
            assert(message.contains(message.last()));
        }
    }
    assert(helper_line_body(raw) == body);
    assert(body[0] == 'P');
    assert(body.len() > "SUCCESS"@.len());
    assert(body.take(p.len() as int) =~= p);
    assert(body.skip(p.len() as int) =~= message);
}

proof fn lemma_line_without_ending(line: Seq<char>)
    requires
        !line.contains('\n'),
        !line.contains('\r'),
    ensures
        helper_line_body(line) == line,
{
    if line.len() > 0 {
        assert(line.contains(line.last()));
    }
    assert(strip_trailing(line, '\n') == line);
    assert(strip_trailing(line, '\r') == line);
}

/// What each kind of helper line asks for, for a line without its ending
/// and a message without line breaks: the visible-prompt, error and info
/// prefixes carry the message after the prefix; a diagnostic of the helper
/// binary is an error when it reports a failed authentication or a missing
/// session, and information otherwise, with the whole line as its text.
pub proof fn law_helper_lines(message: Seq<char>)
    requires
        !message.contains('\n'),
        !message.contains('\r'),
    ensures
        helper_event_of("PAM_PROMPT_ECHO_ON "@ + message) == Some(
            HelperEventView::PromptVisible(message),
        ),
        helper_event_of("PAM_ERROR_MSG "@ + message) == Some(HelperEventView::Error(message)),
        helper_event_of("PAM_TEXT_INFO "@ + message) == Some(HelperEventView::Info(message)),
        ({
            let line = "polkit-agent-helper-1:"@ + message;
            let lo = lower_seq(line);
            &&& (contains_seq(lo, "pam_authenticate failed"@) || contains_seq(
                lo,
                "authentication failure"@,
            ) || contains_seq(lo, "no session for cookie"@)) ==> helper_event_of(line) == Some(
                HelperEventView::Error(line),
            )
            &&& !(contains_seq(lo, "pam_authenticate failed"@) || contains_seq(
                lo,
                "authentication failure"@,
            ) || contains_seq(lo, "no session for cookie"@)) ==> helper_event_of(line) == Some(
                HelperEventView::Info(line),
            )
        }),
{
    reveal_strlit("SUCCESS");
    reveal_strlit("FAILURE");
    reveal_strlit("PAM_PROMPT_ECHO_OFF ");
    reveal_strlit("PAM_PROMPT_ECHO_ON ");
    reveal_strlit("PAM_ERROR_MSG ");
    reveal_strlit("PAM_TEXT_INFO ");
    reveal_strlit("polkit-agent-helper-1:");
    let off = "PAM_PROMPT_ECHO_OFF "@;
    let on = "PAM_PROMPT_ECHO_ON "@;
    let err = "PAM_ERROR_MSG "@;
    let info = "PAM_TEXT_INFO "@;
    let diag = "polkit-agent-helper-1:"@;
    assert(off.len() == 20 && on.len() == 19 && err.len() == 14 && info.len() == 14);
    assert(diag.len() == 22);
    assert("SUCCESS"@.len() == 7 && "FAILURE"@.len() == 7);
    let l_on = on + message;
    let l_err = err + message;
    let l_info = info + message;
    let l_diag = diag + message;
    assert forall|l: Seq<char>, pre: Seq<char>|
        (l == pre + message && !pre.contains('\n') && !pre.contains('\r')) implies !l.contains(
        '\n',
    ) && !l.contains('\r') by {
        if l.contains('\n') {
            let k = choose|k: int| 0 <= k < l.len() && l[k] == '\n';
            if k < pre.len() {
                assert(pre.contains(pre[k]));
            } else {
                assert(message.contains(message[k - pre.len()]));
            }
        }
        if l.contains('\r') {
            let k = choose|k: int| 0 <= k < l.len() && l[k] == '\r';
            if k < pre.len() {
                assert(pre.contains(pre[k]));
            } else {
                assert(message.contains(message[k - pre.len()]));
            }
        }
    }
    assert forall|pre: Seq<char>|
        pre == on || pre == err || pre == info || pre == diag implies !pre.contains('\n')
        && !pre.contains('\r') by {
        if pre.contains('\n') {
            let k = choose|k: int| 0 <= k < pre.len() && pre[k] == '\n';
            assert(pre[k] != '\n');
        }
        if pre.contains('\r') {
            let k = choose|k: int| 0 <= k < pre.len() && pre[k] == '\r';
            assert(pre[k] != '\r');
        }
    }
    lemma_line_without_ending(l_on);
    lemma_line_without_ending(l_err);
    lemma_line_without_ending(l_info);
    lemma_line_without_ending(l_diag);
    // Each line is told apart from the earlier cases by one character.
    assert(l_on[0] == 'P' && l_err[0] == 'P' && l_info[0] == 'P' && l_diag[0] == 'p');
    assert(l_on[17] == 'N');
    assert(!starts_with(l_on, off)) by {
        if starts_with(l_on, off) {
            assert(l_on.take(20)[17] == off[17]);
        }
    }
    assert(l_on.take(19) =~= on);
    assert(l_on.skip(19) =~= message);
    assert(l_err[4] == 'E');
    assert(!starts_with(l_err, off)) by {
        if starts_with(l_err, off) {
            assert(l_err.take(20)[4] == off[4]);
        }
    }
    assert(!starts_with(l_err, on)) by {
        if starts_with(l_err, on) {
            assert(l_err.take(19)[4] == on[4]);
        }
    }
    assert(l_err.take(14) =~= err);
    assert(l_err.skip(14) =~= message);
    assert(l_info[4] == 'T');
    assert(!starts_with(l_info, off)) by {
        if starts_with(l_info, off) {
            assert(l_info.take(20)[4] == off[4]);
        }
    }
    assert(!starts_with(l_info, on)) by {
        if starts_with(l_info, on) {
            assert(l_info.take(19)[4] == on[4]);
        }
    }
    assert(!starts_with(l_info, err)) by {
        if starts_with(l_info, err) {
            assert(l_info.take(14)[4] == err[4]);
        }
    }
    assert(l_info.take(14) =~= info);
    assert(l_info.skip(14) =~= message);
    assert(!starts_with(l_diag, off)) by {
        if starts_with(l_diag, off) {
            assert(l_diag.take(20)[0] == off[0]);
        }
    }
    assert(!starts_with(l_diag, on)) by {
        if starts_with(l_diag, on) {
            assert(l_diag.take(19)[0] == on[0]);
        }
    }
    assert(!starts_with(l_diag, err)) by {
        if starts_with(l_diag, err) {
            assert(l_diag.take(14)[0] == err[0]);
        }
    }
    assert(!starts_with(l_diag, info)) by {
        if starts_with(l_diag, info) {
            assert(l_diag.take(14)[0] == info[0]);
        }
    }
    assert(l_diag.take(22) =~= diag);
    assert(l_on != "SUCCESS"@ && l_on != "FAILURE"@);
    assert(l_err != "SUCCESS"@ && l_err != "FAILURE"@);
    assert(l_info != "SUCCESS"@ && l_info != "FAILURE"@);
    assert(l_diag != "SUCCESS"@ && l_diag != "FAILURE"@);
}

/// A failure on the socket helper after it reported no session for the
/// cookie is retried through the helper process; any other failure denies.
/// An error naming the missing session is remembered only on the socket
/// transport.
pub proof fn law_failure_after_missing_session(c: HelperConversation, message: Seq<char>, a: HelperAction, raw: Seq<char>)
    ensures
        line_step(c, raw).1 == Some(HelperEventView::Failure) && action_matches(
            a,
            c,
            line_step(c, raw).1,
            raw,
        ) ==> (if c.transport is Socket && c.saw_no_session_cookie {
            a == HelperAction::FallBackToHelperProcess
        } else {
            a == HelperAction::Fail
        }),
        helper_event_of(raw) == Some(HelperEventView::Error(message)) ==> line_step(c, raw).0
            .saw_no_session_cookie == (c.saw_no_session_cookie || (c.transport is Socket
            && contains_seq(lower_seq(message), "no session for cookie"@))),
        !(helper_event_of(raw) is Some && helper_event_of(raw)->0 is Error) ==> line_step(c, raw).0
            == c,
        line_step(c, raw).0.transport == c.transport,
{
}

/// `raw.lines().collect::<Vec<_>>().join(" ")`: one line, never a newline.
pub fn sanitize_response(raw: &str) -> (r: String)
    ensures
        r@ == join_lines(raw@),
        !r@.contains('\n'),
{
    let v = chars_of(raw);
    let out = join_lines_chars(&v);
    proof {
        lemma_join_lines_no_newline(raw@);
    }
    string_of(&out)
}

/// A sanitized response, trimmed: safe to send as a protocol control line.
pub fn sanitize_control_line(raw: &str) -> (r: String)
    ensures
        r@ == trim(join_lines(raw@)),
        !r@.contains('\n'),
        r@.len() > 0 ==> !is_ws(r@[0]) && !is_ws(r@.last()),
{
    let v = chars_of(raw);
    let out = join_lines_chars(&v);
    let t = trim_chars(&out);
    proof {
        lemma_join_lines_no_newline(raw@);
        lemma_trim_shape(out@);
        let i = choose|i: int| occurs_at(out@, trim(out@), i);
        if t@.contains('\n') {
            let k = choose|k: int| 0 <= k < t@.len() && t@[k] == '\n';
            assert(out@.subrange(i, i + t@.len())[k] == out@[i + k]);
            assert(out@.contains('\n'));
        }
    }
    string_of(&t)
}

fn join_lines_chars(v: &Vec<char>) -> (out: Vec<char>)
    ensures
        out@ == join_lines(v@),
{
    let mut out: Vec<char> = Vec::new();
    let mut i: usize = 0;
    let n = v.len();
    assert(v@.skip(0) =~= v@);
    assert(out@ + join_lines(v@) =~= join_lines(v@));
    while i < n
        invariant
            n == v.len(),
            i <= n,
            join_lines(v@) == out@ + join_lines(v@.skip(i as int)),
        decreases n - i,
    {
        let ghost s = v@.skip(i as int);
        let c = v[i];
        if c == '\n' {
            if i + 1 == n {
                assert(join_lines(s) =~= Seq::<char>::empty());
                assert(v@.skip(n as int) =~= Seq::<char>::empty());
                i = n;
            } else {
                out.push(' ');
                assert(s.skip(1) =~= v@.skip(i + 1));
                i += 1;
            }
        } else if c == '\r' && i + 1 < n && v[i + 1] == '\n' {
            if i + 2 == n {
                assert(join_lines(s) =~= Seq::<char>::empty());
                assert(v@.skip(n as int) =~= Seq::<char>::empty());
                i = n;
            } else {
                out.push(' ');
                assert(s.skip(2) =~= v@.skip(i + 2));
                i += 2;
            }
        } else {
            out.push(c);
            assert(s.skip(1) =~= v@.skip(i + 1));
            i += 1;
        }
    }
    assert(v@.skip(n as int) =~= Seq::<char>::empty());
    assert(join_lines(Seq::<char>::empty()) =~= Seq::<char>::empty());
    assert(out@ + Seq::<char>::empty() =~= out@);
    out
}

/// `String::into_bytes`: the UTF-8 encoding of the text, in the buffer the
/// string held (no copy), so that zeroing it clears that memory.
#[verifier::external_body]
fn string_into_bytes(s: String) -> (b: Vec<u8>)
    ensures
        b@ == encode_utf8(s@),
{
    s.into_bytes()
}

/// Overwrites every byte with zero.
pub fn zero_bytes(bytes: &mut Vec<u8>)
    ensures
        final(bytes)@.len() == old(bytes)@.len(),
        forall|i: int| 0 <= i < final(bytes)@.len() ==> final(bytes)@[i] == 0,
{
    let n = bytes.len();
    let mut i: usize = 0;
    while i < n
        invariant
            n == bytes.len(),
            i <= n,
            forall|k: int| 0 <= k < i ==> bytes@[k] == 0,
        decreases n - i,
    {
        bytes.set(i, 0);
        i += 1;
    }
}

/// Empties `value`, zeroing the bytes it held before releasing them.
pub fn scrub_string(value: &mut String)
    ensures
        final(value)@ == Seq::<char>::empty(),
{
    if value.as_str().is_empty() {
        return;
    }
    let mut taken = String::new();
    std::mem::swap(value, &mut taken);
    let mut bytes = string_into_bytes(taken);
    zero_bytes(&mut bytes);
}

/// Client for the socket-activated polkit helper.
#[derive(Debug, Clone)]
pub struct HelperSocketClient {
    socket_path: String,
}

impl HelperSocketClient {
    pub closed spec fn socket_path_spec(&self) -> Seq<char> {
        self.socket_path@
    }

    pub fn new(path: String) -> (r: Self)
        ensures
            r.socket_path_spec() == path@,
    {
        HelperSocketClient { socket_path: path }
    }

    pub fn socket_path(&self) -> (r: &str)
        ensures
            r@ == self.socket_path_spec(),
    {
        self.socket_path.as_str()
    }
}

impl Default for HelperSocketClient {
    fn default() -> (r: Self)
        ensures
            r.socket_path_spec() == DEFAULT_HELPER_SOCKET@,
    {
        HelperSocketClient::new(DEFAULT_HELPER_SOCKET.to_owned())
    }
}

/// The two control lines that open a socket conversation: username, then
/// cookie, each sanitized.
pub fn control_lines(username: &str, cookie: &str) -> (r: (String, String))
    ensures
        r.0@ == trim(join_lines(username@)),
        r.1@ == trim(join_lines(cookie@)),
        !r.0@.contains('\n'),
        !r.1@.contains('\n'),
{
    (sanitize_control_line(username), sanitize_control_line(cookie))
}

/// How the helper is reached.
#[derive(Debug, Clone, Copy, PartialEq, Eq, Structural)]
pub enum HelperTransport {
    /// The socket-activated helper, with a fallback to the helper process.
    Socket,
    /// A directly spawned helper process.
    DirectProcess,
}

/// What to do after a helper line.
#[derive(Debug, Clone, PartialEq, Eq)]
pub enum HelperAction {
    /// Ask for a secret answer with this prompt.
    PromptSecret(String),
    /// Ask for a visible answer with this prompt.
    PromptPlain(String),
    /// Show this error and keep reading.
    ShowError(String),
    /// Show this information and keep reading.
    ShowInfo(String),
    /// Report success; the outcome is `Authorized`.
    Succeed,
    /// Report "Authentication failed"; the outcome is `Denied`.
    Fail,
    /// The socket helper had no session for the cookie: retry through the
    /// helper process.
    FallBackToHelperProcess,
}

/// What to do with a prompt's answer.
#[derive(Debug, Clone, PartialEq, Eq)]
pub enum ResponseAction {
    /// Send this line to the helper and keep reading.
    Send(String),
    /// The conversation ends with this outcome.
    Finish(HelperOutcome),
}

/// State of one helper conversation.
#[derive(Debug, Clone, Copy, PartialEq, Eq, Structural)]
pub struct HelperConversation {
    pub transport: HelperTransport,
    pub saw_no_session_cookie: bool,
}

pub open spec fn mentions_no_session(message: Seq<char>) -> bool {
    contains_seq(lower_seq(message), "no session for cookie"@)
}

/// The decision for one helper line in conversation state `c`, and the
/// state after it.
pub open spec fn line_step(c: HelperConversation, raw: Seq<char>) -> (HelperConversation, Option<
    HelperEventView,
>) {
    match helper_event_of(raw) {
        Some(HelperEventView::Error(m)) => (
            HelperConversation {
                saw_no_session_cookie: c.saw_no_session_cookie || (c.transport is Socket
                    && mentions_no_session(m)),
                ..c
            },
            Some(HelperEventView::Error(m)),
        ),
        other => (c, other),
    }
}

/// The action taken for a parsed event in conversation state `c`.
pub open spec fn action_matches(a: HelperAction, c: HelperConversation, e: Option<HelperEventView>, raw: Seq<char>) -> bool {
    match e {
        None => a matches HelperAction::ShowError(m) && m@ == unsupported_line_message(
            helper_line_body(raw),
        ),
        Some(HelperEventView::PromptHidden(p)) => a matches HelperAction::PromptSecret(q) && q@
            == p,
        Some(HelperEventView::PromptVisible(p)) => a matches HelperAction::PromptPlain(q) && q@
            == p,
        Some(HelperEventView::Error(m)) => a matches HelperAction::ShowError(q) && q@ == m,
        Some(HelperEventView::Info(m)) => a matches HelperAction::ShowInfo(q) && q@ == m,
        Some(HelperEventView::Success) => a == HelperAction::Succeed,
        Some(HelperEventView::Failure) => if c.transport is Socket && c.saw_no_session_cookie {
            a == HelperAction::FallBackToHelperProcess
        } else {
            a == HelperAction::Fail
        },
    }
}

impl HelperConversation {
    pub fn new(transport: HelperTransport) -> (r: Self)
        ensures
            r.transport == transport,
            !r.saw_no_session_cookie,
    {
        HelperConversation { transport, saw_no_session_cookie: false }
    }

    /// Decides what a helper line asks for.
    pub fn on_line(&mut self, raw: &str) -> (r: HelperAction)
        ensures
            *final(self) == line_step(*old(self), raw@).0,
            action_matches(r, *old(self), line_step(*old(self), raw@).1, raw@),
    {
        match parse_helper_line(raw) {
            Err(err) => HelperAction::ShowError(err.message()),
            Ok(HelperEvent::PromptHidden(p)) => HelperAction::PromptSecret(p),
            Ok(HelperEvent::PromptVisible(p)) => HelperAction::PromptPlain(p),
            Ok(HelperEvent::Error(m)) => {
                if self.transport == HelperTransport::Socket {
                    let v = chars_of(m.as_str());
                    let lowered = lower_chars(&v);
                    if contains_str(&lowered, "no session for cookie") {
                        self.saw_no_session_cookie = true;
                    }
                }
                HelperAction::ShowError(m)
            },
            Ok(HelperEvent::Info(m)) => HelperAction::ShowInfo(m),
            Ok(HelperEvent::Success) => HelperAction::Succeed,
            Ok(HelperEvent::Failure) => {
                if self.transport == HelperTransport::Socket && self.saw_no_session_cookie {
                    HelperAction::FallBackToHelperProcess
                } else {
                    HelperAction::Fail
                }
            },
        }
    }
}

/// What a prompt answer leads to: a submitted answer is sent as one sanitized
/// line; a canceled or timed-out prompt ends the conversation.
pub fn on_prompt_response(response: PromptResponse) -> (r: ResponseAction)
    ensures
        match response {
            PromptResponse::Submitted(s) => r matches ResponseAction::Send(line) && line@
                == join_lines(s@),
            PromptResponse::Canceled => r == ResponseAction::Finish(HelperOutcome::Canceled),
            PromptResponse::TimedOut => r == ResponseAction::Finish(HelperOutcome::Timeout),
        },
{
    match response {
        PromptResponse::Submitted(s) => {
            let mut secret = s;
            let line = sanitize_response(secret.as_str());
            scrub_string(&mut secret);
            ResponseAction::Send(line)
        },
        PromptResponse::Canceled => ResponseAction::Finish(HelperOutcome::Canceled),
        PromptResponse::TimedOut => ResponseAction::Finish(HelperOutcome::Timeout),
    }
}

/// Success and failure lines end a conversation; a failure after the
/// socket helper reported a missing session retries through the helper
/// process instead of denying.
pub proof fn law_conversation_ends(c: HelperConversation)
    ensures
        line_step(c, "SUCCESS"@).1 == Some(HelperEventView::Success),
        line_step(c, "FAILURE"@).1 == Some(HelperEventView::Failure),
{
    reveal_strlit("SUCCESS");
    reveal_strlit("FAILURE");
    assert(strip_trailing("SUCCESS"@, '\n') == "SUCCESS"@);
    assert(strip_trailing("SUCCESS"@, '\r') == "SUCCESS"@);
    assert(strip_trailing("FAILURE"@, '\n') == "FAILURE"@);
    assert(strip_trailing("FAILURE"@, '\r') == "FAILURE"@);
}

// ---------------------------------------------------------------------------
// Where the direct helper binary may be
// ---------------------------------------------------------------------------

/// The helper's file name.
pub const HELPER_BINARY_NAME: &'static str = "polkit-agent-helper-1";

/// Where the helper lives below a package root.
pub const HELPER_PACKAGE_PATH: &'static str = "lib/polkit-1/polkit-agent-helper-1";

/// `PATH`-style list split on `:` (`std::env::split_paths` on Unix): an
/// empty list is one empty entry.
pub open spec fn split_colon(s: Seq<char>) -> Seq<Seq<char>>
    decreases s.len(),
{
    if s.len() == 0 {
        seq![Seq::empty()]
    } else {
        let before = split_colon(s.drop_last());
        if s.last() == ':' {
            before.push(Seq::empty())
        } else {
            before.update(before.len() - 1, before.last().push(s.last()))
        }
    }
}

pub proof fn lemma_split_colon_nonempty(s: Seq<char>)
    ensures
        split_colon(s).len() >= 1,
    decreases s.len(),
{
    if s.len() > 0 {
        lemma_split_colon_nonempty(s.drop_last());
    }
}

/// `Path::join` of a relative name: a `/` goes between unless `dir` is
/// empty or already ends in one.
pub open spec fn join_path(dir: Seq<char>, name: Seq<char>) -> Seq<char> {
    if dir.len() == 0 || dir.last() == '/' {
        dir + name
    } else {
        dir + seq!['/'] + name
    }
}

/// The fixed places the helper is installed in, in the order they are tried.
pub open spec fn static_helper_paths() -> Seq<Seq<char>> {
    seq![
        "/run/wrappers/bin/polkit-agent-helper-1"@,
        "/usr/lib/polkit-1/polkit-agent-helper-1"@,
        "/usr/lib64/polkit-1/polkit-agent-helper-1"@,
        "/lib/polkit-1/polkit-agent-helper-1"@,
    ]
}

/// Every place the helper may be, in the order they are tried: the
/// override, the fixed places, each `PATH` directory, each package root.
pub open spec fn helper_candidates(
    override_path: Option<Seq<char>>,
    path_var: Option<Seq<char>>,
    package_roots: Seq<Seq<char>>,
) -> Seq<Seq<char>> {
    let first = match override_path {
        Some(p) => seq![p],
        None => Seq::empty(),
    };
    let in_path = match path_var {
        Some(v) => split_colon(v).map_values(|d: Seq<char>| join_path(d, HELPER_BINARY_NAME@)),
        None => Seq::empty(),
    };
    first + static_helper_paths() + in_path + package_roots.map_values(
        |r: Seq<char>| join_path(r, HELPER_PACKAGE_PATH@),
    )
}

proof fn lemma_split_colon_append(s: Seq<char>, b: Seq<char>)
    requires
        !b.contains(':'),
    ensures
        split_colon(s + b) == split_colon(s).update(
            split_colon(s).len() - 1,
            split_colon(s).last() + b,
        ),
    decreases b.len(),
{
    lemma_split_colon_nonempty(s);
    if b.len() == 0 {
        assert(s + b =~= s);
        assert(split_colon(s).last() + b =~= split_colon(s).last());
        assert(split_colon(s).update(split_colon(s).len() - 1, split_colon(s).last())
            =~= split_colon(s));
    } else {
        let b0 = b.drop_last();
        assert(!b0.contains(':')) by {
            if b0.contains(':') {
                let k = choose|k: int| 0 <= k < b0.len() && b0[k] == ':';
                assert(b[k] == ':');
                assert(b.contains(b[k]));
            }
        }
        assert(b.contains(b.last()));
        lemma_split_colon_append(s, b0);
        assert((s + b).drop_last() =~= s + b0);
        assert((s + b).last() == b.last());
        lemma_split_colon_nonempty(s + b0);
        assert(split_colon(s).last() + b0 + seq![b.last()] =~= split_colon(s).last() + b);
        let before = split_colon(s + b0);
        let l = split_colon(s).len() - 1;
        assert(before.len() == split_colon(s).len());
        assert(before.last() == split_colon(s).last() + b0);
        assert(b.last() != ':');
        assert(split_colon(s + b) == before.update(l, before.last().push(b.last())));
        assert(before.last().push(b.last()) =~= split_colon(s).last() + b);
        assert(split_colon(s + b) =~= split_colon(s).update(
            split_colon(s).len() - 1,
            split_colon(s).last() + b,
        ));
    }
}

/// How a `PATH` value is split: a value without `:` is one directory, and
/// `a:b` is the directories of `a` followed by `b`.
pub proof fn law_path_list(a: Seq<char>, b: Seq<char>)
    requires
        !b.contains(':'),
    ensures
        split_colon(b) == seq![b],
        split_colon(a + seq![':'] + b) == split_colon(a) + seq![b],
{
    lemma_split_colon_append(Seq::<char>::empty(), b);
    assert(Seq::<char>::empty() + b =~= b);
    assert(seq![Seq::<char>::empty()].update(0, Seq::<char>::empty() + b) =~= seq![b]);
    let s = a + seq![':'];
    lemma_split_colon_append(s, b);
    assert(s.drop_last() =~= a);
    assert(split_colon(s) == split_colon(a).push(Seq::<char>::empty()));
    assert(s + b =~= a + seq![':'] + b);
    assert(Seq::<char>::empty() + b =~= b);
    assert(split_colon(a).push(Seq::<char>::empty()).update(
        split_colon(a).len() as int,
        b,
    ) =~= split_colon(a) + seq![b]);
}

/// Joining a directory and a name puts exactly one `/` between them: none
/// is added when the directory is empty or already ends with `/`.
pub proof fn law_join_path(dir: Seq<char>, name: Seq<char>)
    ensures
        dir.len() == 0 ==> join_path(dir, name) == name,
        dir.len() > 0 && dir.last() == '/' ==> join_path(dir, name) == dir + name,
        dir.len() > 0 && dir.last() != '/' ==> join_path(dir, name) == dir + seq!['/'] + name,
{
    assert(Seq::<char>::empty() + name =~= name);
}

/// The order in which the helper binary is looked for: the override first,
/// then the fixed install places, then each `PATH` directory, then each
/// package root; with nothing configured only the fixed places are tried.
pub proof fn law_helper_search_order(p: Seq<char>, dir: Seq<char>, root: Seq<char>)
    requires
        !dir.contains(':'),
        dir.len() > 0 && dir.last() != '/',
        root.len() > 0 && root.last() != '/',
    ensures
        helper_candidates(None, None, Seq::empty()) == seq![
            "/run/wrappers/bin/polkit-agent-helper-1"@,
            "/usr/lib/polkit-1/polkit-agent-helper-1"@,
            "/usr/lib64/polkit-1/polkit-agent-helper-1"@,
            "/lib/polkit-1/polkit-agent-helper-1"@,
        ],
        helper_candidates(Some(p), Some(dir), seq![root]) == seq![
            p,
            "/run/wrappers/bin/polkit-agent-helper-1"@,
            "/usr/lib/polkit-1/polkit-agent-helper-1"@,
            "/usr/lib64/polkit-1/polkit-agent-helper-1"@,
            "/lib/polkit-1/polkit-agent-helper-1"@,
            dir + "/polkit-agent-helper-1"@,
            root + "/lib/polkit-1/polkit-agent-helper-1"@,
        ],
{
    reveal_strlit("polkit-agent-helper-1");
    reveal_strlit("/polkit-agent-helper-1");
    reveal_strlit("lib/polkit-1/polkit-agent-helper-1");
    reveal_strlit("/lib/polkit-1/polkit-agent-helper-1");
    law_path_list(Seq::<char>::empty(), dir);
    let e: Seq<Seq<char>> = Seq::empty();
    assert(e.map_values(|r: Seq<char>| join_path(r, HELPER_PACKAGE_PATH@)) =~= e);
    assert(Seq::<Seq<char>>::empty() + static_helper_paths() + e + e =~= static_helper_paths());
    assert(dir + seq!['/'] + "polkit-agent-helper-1"@ =~= dir + "/polkit-agent-helper-1"@);
    assert(root + seq!['/'] + "lib/polkit-1/polkit-agent-helper-1"@
        =~= root + "/lib/polkit-1/polkit-agent-helper-1"@);
    assert(seq![dir].map_values(|d: Seq<char>| join_path(d, HELPER_BINARY_NAME@)) =~= seq![
        dir + "/polkit-agent-helper-1"@,
    ]);
    assert(seq![root].map_values(|r: Seq<char>| join_path(r, HELPER_PACKAGE_PATH@)) =~= seq![
        root + "/lib/polkit-1/polkit-agent-helper-1"@,
    ]);
    assert(helper_candidates(Some(p), Some(dir), seq![root]) =~= seq![
        p,
        "/run/wrappers/bin/polkit-agent-helper-1"@,
        "/usr/lib/polkit-1/polkit-agent-helper-1"@,
        "/usr/lib64/polkit-1/polkit-agent-helper-1"@,
        "/lib/polkit-1/polkit-agent-helper-1"@,
        dir + "/polkit-agent-helper-1"@,
        root + "/lib/polkit-1/polkit-agent-helper-1"@,
    ]);
}

fn joined(dir: &Vec<char>, name: &str) -> (r: String)
    ensures
        r@ == join_path(dir@, name@),
{
    let mut r = string_of(dir);
    if dir.len() > 0 && dir[dir.len() - 1] != '/' {
        push_char(&mut r, '/');
    }
    push_str(&mut r, name);
    proof {
        if dir@.len() > 0 {
            assert(dir@.last() == dir@[dir@.len() - 1]);
        }
    }
    r
}

fn push_views(out: &mut Vec<String>, s: String)
    ensures
        final(out)@.map_values(|x: String| x@) == old(out)@.map_values(|x: String| x@).push(s@),
{
    out.push(s);
    proof {
        assert(final(out)@.map_values(|x: String| x@) =~= old(out)@.map_values(|x: String| x@).push(
            s@,
        ));
    }
}

/// Appends `join_path(d, name)` for each `:`-separated entry `d` of `list`.
fn push_joined_entries(out: &mut Vec<String>, list: &str, name: &str)
    ensures
        final(out)@.map_values(|x: String| x@) == old(out)@.map_values(|x: String| x@) + split_colon(
            list@,
        ).map_values(|d: Seq<char>| join_path(d, name@)),
{
    let v = chars_of(list);
    let ghost start = out@.map_values(|x: String| x@);
    let mut done: Vec<String> = Vec::new();
    let mut cur: Vec<char> = Vec::new();
    let mut i: usize = 0;
    proof {
        assert(v@.take(0) =~= Seq::<char>::empty());
    }
    while i < v.len()
        invariant
            i <= v@.len(),
            v@ == list@,
            ({
                let parts = split_colon(v@.take(i as int));
                &&& parts.len() >= 1
                &&& parts.last() == cur@
                &&& done@.map_values(|x: String| x@) == parts.drop_last().map_values(
                    |d: Seq<char>| join_path(d, name@),
                )
            }),
        decreases v.len() - i,
    {
        proof {
            lemma_split_colon_nonempty(v@.take(i as int));
            assert(v@.take(i + 1).drop_last() =~= v@.take(i as int));
            assert(v@.take(i + 1).last() == v@[i as int]);
        }
        let ghost parts = split_colon(v@.take(i as int));
        if v[i] == ':' {
            let piece = joined(&cur, name);
            push_views(&mut done, piece);
            cur = Vec::new();
            proof {
                let next = split_colon(v@.take(i + 1));
                assert(next == parts.push(Seq::empty()));
                assert(next.drop_last() =~= parts);
                assert(parts =~= parts.drop_last().push(parts.last()));
                assert(parts.map_values(|d: Seq<char>| join_path(d, name@)) =~= parts.drop_last().map_values(
                    |d: Seq<char>| join_path(d, name@),
                ).push(join_path(parts.last(), name@)));
                assert(cur@ =~= Seq::<char>::empty());
            }
        } else {
            cur.push(v[i]);
            proof {
                let next = split_colon(v@.take(i + 1));
                assert(next == parts.update(parts.len() - 1, parts.last().push(v@[i as int])));
                assert(next.drop_last() =~= parts.drop_last());
            }
        }
        i += 1;
    }
    let last_piece = joined(&cur, name);
    push_views(&mut done, last_piece);
    proof {
        assert(v@.take(v@.len() as int) =~= v@);
        let parts = split_colon(v@);
        assert(parts =~= parts.drop_last().push(parts.last()));
        assert(parts.map_values(|d: Seq<char>| join_path(d, name@)) =~= parts.drop_last().map_values(
            |d: Seq<char>| join_path(d, name@),
        ).push(join_path(parts.last(), name@)));
    }
    let mut k: usize = 0;
    let ghost before = out@.map_values(|x: String| x@);
    while k < done.len()
        invariant
            k <= done@.len(),
            out@.map_values(|x: String| x@) == before + done@.map_values(|x: String| x@).take(
                k as int,
            ),
        decreases done.len() - k,
    {
        let item = done[k].clone();
        push_views(out, item);
        proof {
            assert(done@.map_values(|x: String| x@).take(k + 1) =~= done@.map_values(
                |x: String| x@,
            ).take(k as int).push(done@[k as int]@));
        }
        k += 1;
    }
    proof {
        assert(done@.map_values(|x: String| x@).take(done@.len() as int) =~= done@.map_values(
            |x: String| x@,
        ));
    }
}

/// Every place the direct helper may be, in the order the agent tries them;
/// the caller takes the first that exists. `package_roots` are the entries
/// of the package store.
pub fn direct_helper_candidates(
    override_path: Option<&str>,
    path_var: Option<&str>,
    package_roots: &Vec<String>,
) -> (r: Vec<String>)
    ensures
        r@.map_values(|x: String| x@) == helper_candidates(
            match override_path {
                Some(p) => Some(p@),
                None => None,
            },
            match path_var {
                Some(v) => Some(v@),
                None => None,
            },
            package_roots@.map_values(|x: String| x@),
        ),
{
    let mut out: Vec<String> = Vec::new();
    if let Some(p) = override_path {
        push_views(&mut out, p.to_owned());
    }
    push_views(&mut out, "/run/wrappers/bin/polkit-agent-helper-1".to_owned());
    push_views(&mut out, "/usr/lib/polkit-1/polkit-agent-helper-1".to_owned());
    push_views(&mut out, "/usr/lib64/polkit-1/polkit-agent-helper-1".to_owned());
    push_views(&mut out, "/lib/polkit-1/polkit-agent-helper-1".to_owned());
    if let Some(v) = path_var {
        push_joined_entries(&mut out, v, HELPER_BINARY_NAME);
    }
    let ghost with_path = out@.map_values(|x: String| x@);
    let mut k: usize = 0;
    while k < package_roots.len()
        invariant
            k <= package_roots@.len(),
            out@.map_values(|x: String| x@) == with_path + package_roots@.map_values(
                |x: String| x@,
            ).take(k as int).map_values(|r: Seq<char>| join_path(r, HELPER_PACKAGE_PATH@)),
        decreases package_roots.len() - k,
    {
        let root = chars_of(package_roots[k].as_str());
        let piece = joined(&root, HELPER_PACKAGE_PATH);
        push_views(&mut out, piece);
        proof {
            assert(package_roots@.map_values(|x: String| x@).take(k + 1) =~= package_roots@.map_values(
                |x: String| x@,
            ).take(k as int).push(package_roots@[k as int]@));
            assert(package_roots@.map_values(|x: String| x@).take(k + 1).map_values(
                |r: Seq<char>| join_path(r, HELPER_PACKAGE_PATH@),
            ) =~= package_roots@.map_values(|x: String| x@).take(k as int).map_values(
                |r: Seq<char>| join_path(r, HELPER_PACKAGE_PATH@),
            ).push(join_path(package_roots@[k as int]@, HELPER_PACKAGE_PATH@)));
        }
        k += 1;
    }
    proof {
        assert(package_roots@.map_values(|x: String| x@).take(package_roots@.len() as int)
            =~= package_roots@.map_values(|x: String| x@));
        assert(out@.map_values(|x: String| x@) =~= helper_candidates(
            match override_path {
                Some(p) => Some(p@),
                None => None,
            },
            match path_var {
                Some(v) => Some(v@),
                None => None,
            },
            package_roots@.map_values(|x: String| x@),
        ));
    }
    out
}

} // verus!
