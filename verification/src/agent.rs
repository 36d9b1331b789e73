//! The authentication agent's request handling: what the user is told about
//! a request, which identity and retention policy are used, and how answers
//! to the selection prompts are read.
use crate::polkit_helper::{HelperOutcome, PromptError, PromptProvider, PromptResponse};
use crate::text::{
    chars_of, decimal, decimal_string, eq_ignore_case, eq_ignore_case_chars, equals_str,
    lower_chars, lower_seq, parse_unsigned, parse_unsigned_chars, string_of, trim,
    trim_str,
};
use crate::text_map::{str_eq, TextMap};
use vstd::prelude::*;
use vstd::string::*;

verus! {

pub const DEFAULT_AUTH_MAX_ATTEMPTS: usize = 3;

pub const DEFAULT_IDENTITY_SELECTION_ATTEMPTS: usize = 3;

pub const DEFAULT_RETENTION_SELECTION_ATTEMPTS: usize = 3;

/// Details polkit attaches to a request, by key.
pub type Details = TextMap<String>;

// ---------------------------------------------------------------------------
// Joining text
// ---------------------------------------------------------------------------

/// `parts.join(sep)`.
pub open spec fn join(parts: Seq<Seq<char>>, sep: Seq<char>) -> Seq<char>
    decreases parts.len(),
{
    if parts.len() == 0 {
        seq![]
    } else if parts.len() == 1 {
        parts[0]
    } else {
        join(parts.drop_last(), sep) + sep + parts.last()
    }
}

pub open spec fn views(v: Seq<String>) -> Seq<Seq<char>> {
    v.map_values(|s: String| s@)
}

pub fn join_strings(parts: &Vec<String>, sep: &str) -> (r: String)
    ensures
        r@ == join(views(parts@), sep@),
{
    let mut r = String::new();
    let mut i: usize = 0;
    while i < parts.len()
        invariant
            i <= parts@.len(),
            r@ == join(views(parts@.take(i as int)), sep@),
        decreases parts.len() - i,
    {
        proof {
            assert(views(parts@.take(i + 1)).drop_last() =~= views(parts@.take(i as int)));
            assert(views(parts@.take(i + 1)).last() == parts@[i as int]@);
        }
        if i == 0 {
            r.append(parts[i].as_str());
            proof {
                assert(views(parts@.take(0)) =~= Seq::<Seq<char>>::empty());
                assert(r@ =~= parts@[0]@);
            }
        } else {
            r.append(sep);
            r.append(parts[i].as_str());
        }
        i += 1;
    }
    assert(parts@.take(parts@.len() as int) =~= parts@);
    r
}

fn concat2(a: &str, b: &str) -> (r: String)
    ensures
        r@ == a@ + b@,
{
    let mut r = a.to_owned();
    r.append(b);
    r
}

// ---------------------------------------------------------------------------
// Retention policies and outcome labels
// ---------------------------------------------------------------------------

/// How long an authorization obtained by a challenge is kept.
#[derive(Debug, Clone, Copy, PartialEq, Eq, Structural)]
pub enum RetentionPolicy {
    OneShot,
    Session,
    Always,
}

pub open spec fn retention_label(p: RetentionPolicy) -> Seq<char> {
    match p {
        RetentionPolicy::OneShot => "one-shot"@,
        RetentionPolicy::Session => "keep-session"@,
        RetentionPolicy::Always => "keep-always"@,
    }
}

pub open spec fn retention_prompt_label(p: RetentionPolicy) -> Seq<char> {
    match p {
        RetentionPolicy::OneShot => "One-shot"@,
        RetentionPolicy::Session => "Keep for session"@,
        RetentionPolicy::Always => "Keep always"@,
    }
}

impl RetentionPolicy {
    pub fn label(self) -> (r: &'static str)
        ensures
            r@ == retention_label(self),
    {
        match self {
            RetentionPolicy::OneShot => "one-shot",
            RetentionPolicy::Session => "keep-session",
            RetentionPolicy::Always => "keep-always",
        }
    }

    pub fn prompt_label(self) -> (r: &'static str)
        ensures
            r@ == retention_prompt_label(self),
    {
        match self {
            RetentionPolicy::OneShot => "One-shot",
            RetentionPolicy::Session => "Keep for session",
            RetentionPolicy::Always => "Keep always",
        }
    }
}

pub open spec fn outcome_label(o: HelperOutcome) -> Seq<char> {
    match o {
        HelperOutcome::Authorized => "success"@,
        HelperOutcome::Denied => "failure"@,
        HelperOutcome::Canceled => "canceled"@,
        HelperOutcome::Timeout => "timeout"@,
    }
}

pub fn helper_outcome_label(outcome: HelperOutcome) -> (r: &'static str)
    ensures
        r@ == outcome_label(outcome),
{
    match outcome {
        HelperOutcome::Authorized => "success",
        HelperOutcome::Denied => "failure",
        HelperOutcome::Canceled => "canceled",
        HelperOutcome::Timeout => "timeout",
    }
}

// ---------------------------------------------------------------------------
// Requests
// ---------------------------------------------------------------------------

/// An identity polkit offers for authentication; `name` is the user name it
/// resolves to (from its `name` detail or its uid), when it resolves.
#[derive(Debug, Clone)]
pub struct IdentitySubject {
    pub kind: String,
    pub name: Option<String>,
}

/// A request as polkit delivered it.
#[derive(Debug)]
pub struct AuthRequest {
    pub action_id: String,
    pub message: String,
    pub icon_name: String,
    pub details: Details,
    pub cookie: String,
    pub identities: Vec<IdentitySubject>,
}

/// The active request as the agent works on it.
#[derive(Debug)]
pub struct ActiveRequest {
    pub action_id: String,
    pub message: String,
    pub icon_name: String,
    pub detail_count: usize,
    pub details: Details,
    pub cookie: String,
    pub username: String,
    pub identity_options: Vec<String>,
    pub retention_options: Vec<RetentionPolicy>,
}

// ---------------------------------------------------------------------------
// Details shown to the user
// ---------------------------------------------------------------------------

pub open spec fn str_views(v: Seq<&str>) -> Seq<Seq<char>> {
    v.map_values(|s: &str| s@)
}

/// The first of `keys` whose value, trimmed, is not empty.
pub open spec fn first_detail(details: Map<Seq<char>, String>, keys: Seq<Seq<char>>) -> Option<
    Seq<char>,
>
    decreases keys.len(),
{
    if keys.len() == 0 {
        None
    } else if details.contains_key(keys[0]) && trim(details[keys[0]]@).len() > 0 {
        Some(trim(details[keys[0]]@))
    } else {
        first_detail(details, keys.skip(1))
    }
}

pub open spec fn vendor_keys() -> Seq<Seq<char>> {
    seq!["vendor"@, "vendor_name"@, "polkit.vendor"@, "polkit.vendor_name"@]
}

pub open spec fn application_keys() -> Seq<Seq<char>> {
    seq!["application"@, "application_name"@, "program_name"@, "polkit.program_name"@]
}

pub open spec fn retention_keys() -> Seq<Seq<char>> {
    seq![
        "polkit.retains_authorization_after_challenge"@,
        "retains_authorization_after_challenge"@,
        "polkit.retention"@,
        "retention"@,
    ]
}

/// The details listed in a prompt's context, in this order.
pub open spec fn context_detail_keys() -> Seq<Seq<char>> {
    seq![
        "program"@,
        "polkit.exec.path"@,
        "polkit.exec.argv1"@,
        "command_line"@,
        "unit"@,
        "verb"@,
        "polkit.message"@,
        "polkit.gettext_domain"@,
        "polkit.retains_authorization_after_challenge"@,
    ]
}

fn vendor_keys_list() -> (r: Vec<&'static str>)
    ensures
        str_views(r@) == vendor_keys(),
{
    let r = vec!["vendor", "vendor_name", "polkit.vendor", "polkit.vendor_name"];
    assert(str_views(r@) =~= vendor_keys());
    r
}

fn application_keys_list() -> (r: Vec<&'static str>)
    ensures
        str_views(r@) == application_keys(),
{
    let r = vec!["application", "application_name", "program_name", "polkit.program_name"];
    assert(str_views(r@) =~= application_keys());
    r
}

fn retention_keys_list() -> (r: Vec<&'static str>)
    ensures
        str_views(r@) == retention_keys(),
{
    let r = vec![
        "polkit.retains_authorization_after_challenge",
        "retains_authorization_after_challenge",
        "polkit.retention",
        "retention",
    ];
    assert(str_views(r@) =~= retention_keys());
    r
}

fn context_detail_keys_list() -> (r: Vec<&'static str>)
    ensures
        str_views(r@) == context_detail_keys(),
{
    let r = vec![
        "program",
        "polkit.exec.path",
        "polkit.exec.argv1",
        "command_line",
        "unit",
        "verb",
        "polkit.message",
        "polkit.gettext_domain",
        "polkit.retains_authorization_after_challenge",
    ];
    assert(str_views(r@) =~= context_detail_keys());
    r
}

pub fn first_detail_value(details: &Details, keys: &Vec<&str>) -> (r: Option<String>)
    ensures
        match r {
            Some(v) => first_detail(details.view(), str_views(keys@)) == Some(v@),
            None => first_detail(details.view(), str_views(keys@)) is None,
        },
{
    let mut i: usize = 0;
    assert(str_views(keys@).skip(0) =~= str_views(keys@));
    while i < keys.len()
        invariant
            i <= keys@.len(),
            first_detail(details.view(), str_views(keys@)) == first_detail(
                details.view(),
                str_views(keys@).skip(i as int),
            ),
        decreases keys.len() - i,
    {
        let ghost rest = str_views(keys@).skip(i as int);
        assert(rest[0] == keys@[i as int]@);
        assert(rest.skip(1) =~= str_views(keys@).skip(i + 1));
        if let Some(value) = details.get(keys[i]) {
            let trimmed = trim_str(value.as_str());
            if trimmed.len() > 0 {
                return Some(string_of(&trimmed));
            }
        }
        i += 1;
    }
    assert(str_views(keys@).skip(i as int) =~= Seq::<Seq<char>>::empty());
    None
}

pub open spec fn key_label(key: Seq<char>) -> Seq<char> {
    if key == "program"@ {
        "Program"@
    } else if key == "polkit.exec.path"@ {
        "Executable"@
    } else if key == "polkit.exec.argv1"@ {
        "Executable Arg"@
    } else if key == "command_line"@ {
        "Command"@
    } else if key == "unit"@ {
        "Unit"@
    } else if key == "verb"@ {
        "Verb"@
    } else if key == "polkit.message"@ {
        "Policy Message"@
    } else if key == "polkit.gettext_domain"@ {
        "Text Domain"@
    } else if key == "polkit.retains_authorization_after_challenge"@ {
        "Retains authorization"@
    } else {
        "Detail"@
    }
}

pub fn detail_key_label(key: &str) -> (r: &'static str)
    ensures
        r@ == key_label(key@),
{
    if str_eq(key, "program") {
        "Program"
    } else if str_eq(key, "polkit.exec.path") {
        "Executable"
    } else if str_eq(key, "polkit.exec.argv1") {
        "Executable Arg"
    } else if str_eq(key, "command_line") {
        "Command"
    } else if str_eq(key, "unit") {
        "Unit"
    } else if str_eq(key, "verb") {
        "Verb"
    } else if str_eq(key, "polkit.message") {
        "Policy Message"
    } else if str_eq(key, "polkit.gettext_domain") {
        "Text Domain"
    } else if str_eq(key, "polkit.retains_authorization_after_challenge") {
        "Retains authorization"
    } else {
        "Detail"
    }
}

/// `"{label}: {value}"` lines for the listed details that have a value.
pub open spec fn detail_lines(details: Map<Seq<char>, String>, keys: Seq<Seq<char>>) -> Seq<
    Seq<char>,
>
    decreases keys.len(),
{
    if keys.len() == 0 {
        seq![]
    } else {
        let here = if details.contains_key(keys[0]) && trim(details[keys[0]]@).len() > 0 {
            seq![key_label(keys[0]) + ": "@ + trim(details[keys[0]]@)]
        } else {
            seq![]
        };
        here + detail_lines(details, keys.skip(1))
    }
}

pub open spec fn optional_line(prefix: Seq<char>, value: Option<Seq<char>>) -> Seq<Seq<char>> {
    match value {
        Some(v) => seq![prefix + v],
        None => seq![],
    }
}

pub open spec fn retention_labels(options: Seq<RetentionPolicy>) -> Seq<Seq<char>> {
    options.map_values(|p: RetentionPolicy| retention_label(p))
}

/// The lines describing a request to the user.
pub open spec fn context_lines(r: ActiveRequest) -> Seq<Seq<char>> {
    let message = trim(r.message@);
    let icon = trim(r.icon_name@);
    seq![
        if message.len() > 0 {
            message
        } else {
            "Authentication is required"@
        },
    ] + seq!["Action: "@ + r.action_id@] + (if icon.len() > 0 {
        seq!["Icon: "@ + icon]
    } else {
        seq![]
    }) + optional_line("Vendor: "@, first_detail(r.details.view(), vendor_keys()))
        + optional_line("Application: "@, first_detail(r.details.view(), application_keys()))
        + (if r.retention_options@.len() > 0 {
        seq!["Retention options: "@ + join(retention_labels(r.retention_options@), ", "@)]
    } else {
        seq![]
    }) + detail_lines(r.details.view(), context_detail_keys())
}

/// How a request is described to the user: first its message (trimmed),
/// or "Authentication is required" when it has none; then the action. The
/// listed details are shown under their labels, an unknown key as
/// "Detail"; a detail that is absent or blank gives no line, one with a
/// value gives the line "label: value" with the value trimmed.
pub proof fn law_request_description(r: ActiveRequest, details: Map<Seq<char>, String>, key: Seq<char>)
    ensures
        trim(r.message@).len() > 0 ==> context_lines(r)[0] == trim(r.message@),
        trim(r.message@).len() == 0 ==> context_lines(r)[0] == "Authentication is required"@,
        context_lines(r)[1] == "Action: "@ + r.action_id@,
        key_label("program"@) == "Program"@,
        key_label("polkit.exec.path"@) == "Executable"@,
        key_label("polkit.exec.argv1"@) == "Executable Arg"@,
        key_label("command_line"@) == "Command"@,
        key_label("unit"@) == "Unit"@,
        key_label("verb"@) == "Verb"@,
        key_label("polkit.message"@) == "Policy Message"@,
        key_label("polkit.gettext_domain"@) == "Text Domain"@,
        key_label("polkit.retains_authorization_after_challenge"@) == "Retains authorization"@,
        key != "program"@ && key != "polkit.exec.path"@ && key != "polkit.exec.argv1"@ && key != "command_line"@ && key != "unit"@ && key != "verb"@ && key != "polkit.message"@ && key != "polkit.gettext_domain"@ && key != "polkit.retains_authorization_after_challenge"@ ==> key_label(key) == "Detail"@,
        !details.contains_key(key) || trim(details[key]@).len() == 0 ==> detail_lines(
            details,
            seq![key],
        ) == Seq::<Seq<char>>::empty(),
        details.contains_key(key) && trim(details[key]@).len() > 0 ==> detail_lines(
            details,
            seq![key],
        ) == seq![key_label(key) + ": "@ + trim(details[key]@)],
{
    reveal_strlit("program");
    assert("program"@.len() == 7);
    reveal_strlit("polkit.exec.path");
    assert("polkit.exec.path"@.len() == 16);
    reveal_strlit("polkit.exec.argv1");
    assert("polkit.exec.argv1"@.len() == 17);
    reveal_strlit("command_line");
    assert("command_line"@.len() == 12);
    reveal_strlit("unit");
    assert("unit"@.len() == 4);
    reveal_strlit("verb");
    assert("verb"@.len() == 4);
    reveal_strlit("polkit.message");
    assert("polkit.message"@.len() == 14);
    reveal_strlit("polkit.gettext_domain");
    assert("polkit.gettext_domain"@.len() == 21);
    reveal_strlit("polkit.retains_authorization_after_challenge");
    assert("polkit.retains_authorization_after_challenge"@.len() == 44);
    assert("unit"@[0] != "verb"@[0]);
    assert(seq![key].skip(1) =~= Seq::<Seq<char>>::empty());
    assert(detail_lines(details, Seq::<Seq<char>>::empty()) == Seq::<Seq<char>>::empty());
}

fn retention_label_strings(options: &Vec<RetentionPolicy>) -> (r: Vec<String>)
    ensures
        views(r@) == retention_labels(options@),
{
    let mut r: Vec<String> = Vec::new();
    let mut i: usize = 0;
    while i < options.len()
        invariant
            i <= options@.len(),
            views(r@) =~= retention_labels(options@.take(i as int)),
        decreases options.len() - i,
    {
        r.push(options[i].label().to_owned());
        i += 1;
        assert(retention_labels(options@.take(i as int)) =~= retention_labels(
            options@.take(i - 1),
        ).push(retention_label(options@[i - 1])));
    }
    assert(options@.take(options@.len() as int) =~= options@);
    r
}

/// Appends `s` to the lines.
fn push_line(lines: &mut Vec<String>, s: String)
    ensures
        views(final(lines)@) == views(old(lines)@).push(s@),
{
    lines.push(s);
    assert(views(lines@) =~= views(old(lines)@).push(s@));
}

/// The context shown while authenticating: message, action, icon, vendor,
/// application, retention options and the notable details, one per line.
pub fn render_prompt_context(request: &ActiveRequest) -> (r: String)
    ensures
        r@ == join(context_lines(*request), "\n"@),
{
    let mut lines: Vec<String> = Vec::new();
    let message = trim_str(request.message.as_str());
    if message.len() > 0 {
        push_line(&mut lines, string_of(&message));
    } else {
        push_line(&mut lines, "Authentication is required".to_owned());
    }
    push_line(&mut lines, concat2("Action: ", request.action_id.as_str()));
    let icon = trim_str(request.icon_name.as_str());
    if icon.len() > 0 {
        let icon_text = string_of(&icon);
        push_line(&mut lines, concat2("Icon: ", icon_text.as_str()));
    }
    let ghost base = views(lines@);
    let vendor_keys = vendor_keys_list();
    if let Some(vendor) = first_detail_value(&request.details, &vendor_keys) {
        push_line(&mut lines, concat2("Vendor: ", vendor.as_str()));
    }
    let application_keys = application_keys_list();
    if let Some(application) = first_detail_value(&request.details, &application_keys) {
        push_line(&mut lines, concat2("Application: ", application.as_str()));
    }
    if request.retention_options.len() > 0 {
        let labels = retention_label_strings(&request.retention_options);
        let supported = join_strings(&labels, ", ");
        push_line(&mut lines, concat2("Retention options: ", supported.as_str()));
    }
    let ghost before_details = views(lines@);
    let keys = context_detail_keys_list();
    let mut i: usize = 0;
    assert(str_views(keys@).skip(0) =~= str_views(keys@));
    while i < keys.len()
        invariant
            i <= keys@.len(),
            str_views(keys@) == context_detail_keys(),
            before_details + detail_lines(request.details.view(), context_detail_keys()) == views(
                lines@,
            ) + detail_lines(request.details.view(), str_views(keys@).skip(i as int)),
        decreases keys.len() - i,
    {
        let ghost rest = str_views(keys@).skip(i as int);
        let ghost before = views(lines@);
        assert(rest[0] == keys@[i as int]@);
        assert(rest.skip(1) =~= str_views(keys@).skip(i + 1));
        if let Some(value) = request.details.get(keys[i]) {
            let trimmed = trim_str(value.as_str());
            if trimmed.len() > 0 {
                let mut line = concat2(detail_key_label(keys[i]), ": ");
                let tv = string_of(&trimmed);
                line.append(tv.as_str());
                push_line(&mut lines, line);
            }
        }
        assert(before + detail_lines(request.details.view(), rest) =~= views(lines@)
            + detail_lines(request.details.view(), str_views(keys@).skip(i + 1)));
        i += 1;
    }
    assert(str_views(keys@).skip(i as int) =~= Seq::<Seq<char>>::empty());
    assert(views(lines@) =~= context_lines(*request));
    join_strings(&lines, "\n")
}

// ---------------------------------------------------------------------------
// Identity selection
// ---------------------------------------------------------------------------

/// The 0-based option a 1-based number names, if it names one.
pub open spec fn numbered_choice(t: Seq<char>, count: int) -> Option<int> {
    match parse_unsigned(t, usize::MAX as nat) {
        Some(k) => if 1 <= k <= count {
            Some(k - 1)
        } else {
            None
        },
        None => None,
    }
}

/// A user's answer to the identity prompt: blank picks the default, a
/// 1-based number picks that option, otherwise an option matching the text
/// case-insensitively.
#[verifier::opaque]
pub open spec fn identity_choice(input: Seq<char>, options: Seq<Seq<char>>, default: Seq<char>) -> Option<
    Seq<char>,
> {
    let t = trim(input);
    if t.len() == 0 {
        Some(default)
    } else if numbered_choice(t, options.len() as int) is Some {
        Some(options[numbered_choice(t, options.len() as int)->0])
    } else if exists|i: int| 0 <= i < options.len() && eq_ignore_case(options[i], t) {
        Some(options[first_case_match(options, t)])
    } else {
        None
    }
}

/// Index of the first option equal to `t` ignoring ASCII case.
pub open spec fn first_case_match(options: Seq<Seq<char>>, t: Seq<char>) -> int {
    choose|i: int|
        0 <= i < options.len() && eq_ignore_case(options[i], t) && forall|j: int|
            0 <= j < i ==> !eq_ignore_case(#[trigger] options[j], t)
}

pub fn parse_identity_selection(input: &str, options: &Vec<String>, default: &str) -> (r: Option<
    String,
>)
    ensures
        match r {
            Some(s) => identity_choice(input@, views(options@), default@) == Some(s@),
            None => identity_choice(input@, views(options@), default@) is None,
        },
{
    proof {
        reveal(identity_choice);
    }
    let trimmed = trim_str(input);
    let ghost opts = views(options@);
    if trimmed.len() == 0 {
        return Some(default.to_owned());
    }
    if let Some(index) = parse_unsigned_chars(&trimmed, usize::MAX as u64) {
        if 1 <= index && index <= options.len() as u64 {
            let k = index as usize;
            return Some(options[k - 1].clone());
        }
    }
    assert(numbered_choice(trimmed@, opts.len() as int) is None);
    let mut i: usize = 0;
    while i < options.len()
        invariant
            i <= options@.len(),
            opts == views(options@),
            trimmed@ == trim(input@),
            trimmed@.len() > 0,
            numbered_choice(trimmed@, opts.len() as int) is None,
            forall|j: int| 0 <= j < i ==> !eq_ignore_case(#[trigger] opts[j], trimmed@),
        decreases options.len() - i,
    {
        let candidate = chars_of(options[i].as_str());
        if eq_ignore_case_chars(&candidate, &trimmed) {
            proof {
                reveal(identity_choice);
                let f = first_case_match(opts, trimmed@);
                assert(0 <= i < opts.len() && eq_ignore_case(opts[i as int], trimmed@) && forall|
                    j: int,
                | 0 <= j < i ==> !eq_ignore_case(#[trigger] opts[j], trimmed@));
                lemma_first_case_match(opts, trimmed@, i as int);
                if f != i {
                    if f < i {
                        assert(!eq_ignore_case(opts[f], trimmed@));
                    } else {
                        assert(!eq_ignore_case(opts[i as int], trimmed@));
                    }
                }
                assert(opts[i as int] == options@[i as int]@);
            }
            return Some(options[i].clone());
        }
        i += 1;
    }
    proof {
        reveal(identity_choice);
    }
    None
}

/// Identity prompt line for the option at 0-based `index`.
pub open spec fn identity_option_line(index: int, option: Seq<char>, default: Seq<char>) -> Seq<
    char,
> {
    decimal((index + 1) as nat) + ": "@ + option + (if option == default {
        " (default)"@
    } else {
        seq![]
    })
}

pub open spec fn identity_prompt_lines(r: ActiveRequest) -> Seq<Seq<char>> {
    seq!["Select authentication identity"@, "Action: "@ + r.action_id@] + Seq::new(
        r.identity_options@.len(),
        |i: int| identity_option_line(i, r.identity_options@[i]@, r.username@),
    ) + seq!["Enter number or username (blank for default)"@]
}

/// The identity question: a title, the action, one numbered line per
/// option (numbered from 1, in order, the default user marked
/// " (default)"), and the hint for the answer, in that order.
pub proof fn law_identity_question(r: ActiveRequest, i: int)
    requires
        0 <= i < r.identity_options@.len(),
    ensures
        identity_prompt_lines(r).len() == r.identity_options@.len() + 3,
        identity_prompt_lines(r)[0] == "Select authentication identity"@,
        identity_prompt_lines(r)[1] == "Action: "@ + r.action_id@,
        identity_prompt_lines(r)[i + 2] == decimal((i + 1) as nat) + ": "@ + r.identity_options@[i]@
            + (if r.identity_options@[i]@ == r.username@ {
            " (default)"@
        } else {
            Seq::<char>::empty()
        }),
        identity_prompt_lines(r).last() == "Enter number or username (blank for default)"@,
{
}

pub fn render_identity_selection_prompt(request: &ActiveRequest) -> (r: String)
    ensures
        r@ == join(identity_prompt_lines(*request), "\n"@),
{
    let mut lines: Vec<String> = Vec::new();
    push_line(&mut lines, "Select authentication identity".to_owned());
    push_line(&mut lines, concat2("Action: ", request.action_id.as_str()));
    let ghost head = views(lines@);
    let options = &request.identity_options;
    let mut i: usize = 0;
    while i < options.len()
        invariant
            i <= options@.len(),
            options@ == request.identity_options@,
            views(lines@) =~= head + Seq::new(
                i as nat,
                |k: int| identity_option_line(k, options@[k]@, request.username@),
            ),
        decreases options.len() - i,
    {
        let mut line = decimal_string((i + 1) as u64);
        line.append(": ");
        line.append(options[i].as_str());
        if options[i] == request.username {
            line.append(" (default)");
        }
        assert(line@ =~= identity_option_line(i as int, options@[i as int]@, request.username@));
        push_line(&mut lines, line);
        i += 1;
    }
    push_line(&mut lines, "Enter number or username (blank for default)".to_owned());
    assert(views(lines@) =~= identity_prompt_lines(*request));
    join_strings(&lines, "\n")
}

/// Identity selection result.
#[derive(Debug, Clone, PartialEq, Eq)]
pub enum IdentitySelection {
    Selected(String),
    Terminal(HelperOutcome),
}

/// One answer to the identity prompt, at 1-based `attempt`: `None` means
/// "say it was invalid and ask again".
pub open spec fn identity_answer(
    r: ActiveRequest,
    attempt: int,
    response: Result<PromptResponse, PromptError>,
) -> Option<IdentityResult> {
    match response {
        Ok(PromptResponse::Submitted(raw)) => match identity_choice(
            raw@,
            views(r.identity_options@),
            r.username@,
        ) {
            Some(s) => Some(IdentityResult::Selected(s)),
            None => if attempt >= DEFAULT_IDENTITY_SELECTION_ATTEMPTS {
                Some(IdentityResult::Selected(r.username@))
            } else {
                None
            },
        },
        Ok(PromptResponse::Canceled) => Some(IdentityResult::Terminal(HelperOutcome::Canceled)),
        Ok(PromptResponse::TimedOut) => Some(IdentityResult::Terminal(HelperOutcome::Timeout)),
        Err(_) => Some(IdentityResult::Selected(r.username@)),
    }
}

pub ghost enum IdentityResult {
    Selected(Seq<char>),
    Terminal(HelperOutcome),
}

pub open spec fn identity_result(s: IdentitySelection) -> IdentityResult {
    match s {
        IdentitySelection::Selected(n) => IdentityResult::Selected(n@),
        IdentitySelection::Terminal(o) => IdentityResult::Terminal(o),
    }
}

/// Whether an answer to the identity prompt is reported as invalid.
pub open spec fn invalid_identity_answer(r: ActiveRequest, response: Result<PromptResponse, PromptError>) -> bool {
    response matches Ok(PromptResponse::Submitted(raw)) && identity_choice(
        raw@,
        views(r.identity_options@),
        r.username@,
    ) is None
}

/// The decision for one answer (`.0`, `None`: ask again) and whether the
/// answer is reported as invalid (`.1`).
pub fn identity_selection_step(
    request: &ActiveRequest,
    attempt: usize,
    response: Result<PromptResponse, PromptError>,
) -> (r: (Option<IdentitySelection>, bool))
    ensures
        match r.0 {
            Some(s) => identity_answer(*request, attempt as int, response) == Some(
                identity_result(s),
            ),
            None => identity_answer(*request, attempt as int, response) is None,
        },
        r.1 == invalid_identity_answer(*request, response),
{
    let invalid = match &response {
        Ok(PromptResponse::Submitted(raw)) => parse_identity_selection(
            raw.as_str(),
            &request.identity_options,
            request.username.as_str(),
        ).is_none(),
        _ => false,
    };
    (identity_decision(request, attempt, response), invalid)
}

fn identity_decision(
    request: &ActiveRequest,
    attempt: usize,
    response: Result<PromptResponse, PromptError>,
) -> (r: Option<IdentitySelection>)
    ensures
        match r {
            Some(s) => identity_answer(*request, attempt as int, response) == Some(
                identity_result(s),
            ),
            None => identity_answer(*request, attempt as int, response) is None,
        },
{
    match response {
        Ok(PromptResponse::Submitted(raw)) => {
            let mut raw = raw;
            let choice = parse_identity_selection(
                raw.as_str(),
                &request.identity_options,
                request.username.as_str(),
            );
            crate::polkit_helper::scrub_string(&mut raw);
            match choice {
                Some(selected) => Some(IdentitySelection::Selected(selected)),
                None => {
                    if attempt >= DEFAULT_IDENTITY_SELECTION_ATTEMPTS {
                        Some(IdentitySelection::Selected(request.username.clone()))
                    } else {
                        None
                    }
                },
            }
        },
        Ok(PromptResponse::Canceled) => Some(IdentitySelection::Terminal(HelperOutcome::Canceled)),
        Ok(PromptResponse::TimedOut) => Some(IdentitySelection::Terminal(HelperOutcome::Timeout)),
        Err(_) => Some(IdentitySelection::Selected(request.username.clone())),
    }
}

/// The text of the identity question.
pub open spec fn identity_prompt_text(request: ActiveRequest) -> Seq<char> {
    join(identity_prompt_lines(request), "\n"@)
}

/// The course of an identity dialogue, apart from what the provider did in
/// each round: one to three answers, the provider states from `before` to
/// `after` around them, every answer but the last asking again, and the
/// last deciding `r`.
pub open spec fn identity_turns<P>(
    request: ActiveRequest,
    answers: Seq<Result<PromptResponse, PromptError>>,
    states: Seq<P>,
    before: P,
    after: P,
    r: IdentityResult,
) -> bool {
    &&& 1 <= answers.len() <= DEFAULT_IDENTITY_SELECTION_ATTEMPTS
    &&& states.len() == answers.len() + 1
    &&& states[0] == before
    &&& states.last() == after
    &&& forall|i: int|
        0 <= i < answers.len() - 1 ==> identity_answer(request, i + 1, #[trigger] answers[i]) is None
    &&& identity_answer(request, answers.len() as int, answers.last()) == Some(r)
}

/// One round of the identity dialogue: ask, and report an invalid answer.
/// Returns the decision and the answer the provider gave.
fn identity_round<P: PromptProvider>(
    request: &ActiveRequest,
    prompts: &mut P,
    prompt: &str,
    attempt: usize,
) -> (r: (Option<IdentitySelection>, Ghost<Result<PromptResponse, PromptError>>))
    ensures
        exists|m1: &mut P|
            {
                &&& *m1 == *old(prompts)
                &&& #[trigger] call_ensures(P::prompt_plain, (m1, prompt), r.1@)
                &&& if invalid_identity_answer(*request, r.1@) {
                    exists|m2: &mut P, s2: &str, e: Result<(), PromptError>|
                        {
                            &&& *m2 == *final(m1)
                            &&& s2@ == "Invalid identity selection"@
                            &&& #[trigger] call_ensures(P::show_error, (m2, s2), e)
                            &&& *final(m2) == *final(prompts)
                        }
                } else {
                    *final(m1) == *final(prompts)
                }
            },
        match r.0 {
            Some(s) => identity_answer(*request, attempt as int, r.1@) == Some(identity_result(s)),
            None => identity_answer(*request, attempt as int, r.1@) is None,
        },
{
    let response = prompts.prompt_plain(prompt);
    let ghost answer = response;
    let (decision, invalid) = identity_selection_step(request, attempt, response);
    if invalid {
        let _ = prompts.show_error("Invalid identity selection");
    }
    (decision, Ghost(answer))
}

/// Picks the identity to authenticate as: the default when there is no
/// choice, otherwise by asking (up to three times). The provider is left
/// alone when there is no choice; otherwise the result is the decision of
/// the first answer that decides, over the answers the provider gave in
/// turn, each invalid one reported with `show_error`.
#[verifier::rlimit(40)]
#[verifier::spinoff_prover]
pub fn select_identity_for_request<P: PromptProvider>(request: &ActiveRequest, prompts: &mut P) -> (r:
    IdentitySelection)
    ensures
        request.identity_options@.len() <= 1 ==> identity_result(r) == IdentityResult::Selected(
            request.username@,
        ),
        request.identity_options@.len() <= 1 ==> *final(prompts) == *old(prompts),
        r matches IdentitySelection::Selected(s) ==> s@ == request.username@ || exists|i: int|
            0 <= i < request.identity_options@.len() && request.identity_options@[i]@ == s@,
        r matches IdentitySelection::Terminal(o) ==> o == HelperOutcome::Canceled || o
            == HelperOutcome::Timeout,
        request.identity_options@.len() > 1 ==> exists|
            answers: Seq<Result<PromptResponse, PromptError>>,
            states: Seq<P>,
        |
            {
                &&& #[trigger] identity_turns(
                    *request,
                    answers,
                    states,
                    *old(prompts),
                    *final(prompts),
                    identity_result(r),
                )
                &&& forall|i: int|
                    #![trigger answers[i]]
                    0 <= i < answers.len() ==> exists|m1: &mut P, s1: &str|
                        {
                            &&& *m1 == states[i]
                            &&& s1@ == identity_prompt_text(*request)
                            &&& #[trigger] call_ensures(P::prompt_plain, (m1, s1), answers[i])
                            &&& if invalid_identity_answer(*request, answers[i]) {
                                exists|m2: &mut P, s2: &str, e: Result<(), PromptError>|
                                    {
                                        &&& *m2 == *final(m1)
                                        &&& s2@ == "Invalid identity selection"@
                                        &&& #[trigger] call_ensures(P::show_error, (m2, s2), e)
                                        &&& *final(m2) == states[i + 1]
                                    }
                            } else {
                                *final(m1) == states[i + 1]
                            }
                        }
            },
{
    if request.identity_options.len() <= 1 {
        return IdentitySelection::Selected(request.username.clone());
    }
    let prompt = render_identity_selection_prompt(request);
    let ps: &str = prompt.as_str();
    let ghost s0 = *prompts;
    let (d1, Ghost(a1)) = identity_round(request, prompts, ps, 1);
    let ghost s1 = *prompts;
    if let Some(selection) = d1 {
        proof {
            lemma_identity_answer_in_options(*request, 1, a1);
            let answers = seq![a1];
            let states = seq![s0, s1];
            assert(answers[0] == a1 && states[0] == s0 && states[1] == s1);
            assert(identity_turns(*request, answers, states, s0, s1, identity_result(selection)));
        }
        return selection;
    }
    let (d2, Ghost(a2)) = identity_round(request, prompts, ps, 2);
    let ghost s2 = *prompts;
    if let Some(selection) = d2 {
        proof {
            lemma_identity_answer_in_options(*request, 2, a2);
            let answers = seq![a1, a2];
            let states = seq![s0, s1, s2];
            assert(answers[0] == a1 && answers[1] == a2);
            assert(states[0] == s0 && states[1] == s1 && states[2] == s2);
            assert(identity_turns(*request, answers, states, s0, s2, identity_result(selection)));
        }
        return selection;
    }
    let (d3, Ghost(a3)) = identity_round(request, prompts, ps, 3);
    let ghost s3 = *prompts;
    match d3 {
        Some(selection) => {
            proof {
                lemma_identity_answer_in_options(*request, 3, a3);
                let answers = seq![a1, a2, a3];
                let states = seq![s0, s1, s2, s3];
                assert(answers[0] == a1 && answers[1] == a2 && answers[2] == a3);
                assert(states[0] == s0 && states[1] == s1 && states[2] == s2 && states[3] == s3);
                assert(identity_turns(*request, answers, states, s0, s3, identity_result(selection)));
            }
            selection
        },
        None => {
            proof {
                assert(identity_answer(*request, 3, a3) is Some);
            }
            IdentitySelection::Selected(request.username.clone())
        },
    }
}

proof fn lemma_identity_choice_in_options(input: Seq<char>, options: Seq<Seq<char>>, default: Seq<char>)
    ensures
        identity_choice(input, options, default) matches Some(s) ==> s == default || exists|i: int|
            0 <= i < options.len() && options[i] == s,
{
    reveal(identity_choice);
    let t = trim(input);
    if t.len() == 0 {
    } else if numbered_choice(t, options.len() as int) is Some {
        let k = numbered_choice(t, options.len() as int)->0;
        assert(options[k] == options[k]);
    } else if exists|i: int| 0 <= i < options.len() && eq_ignore_case(options[i], t) {
        let w = choose|i: int| 0 <= i < options.len() && eq_ignore_case(options[i], t);
        lemma_first_case_match(options, t, w);
    }
}

proof fn lemma_first_case_match(options: Seq<Seq<char>>, t: Seq<char>, w: int)
    requires
        0 <= w < options.len(),
        eq_ignore_case(options[w], t),
    ensures
        ({
            let f = first_case_match(options, t);
            0 <= f < options.len() && eq_ignore_case(options[f], t) && forall|j: int|
                0 <= j < f ==> !eq_ignore_case(#[trigger] options[j], t)
        }),
    decreases w,
{
    if exists|j: int| 0 <= j < w && eq_ignore_case(options[j], t) {
        let j = choose|j: int| 0 <= j < w && eq_ignore_case(options[j], t);
        lemma_first_case_match(options, t, j);
    } else {
        assert(0 <= w < options.len() && eq_ignore_case(options[w], t) && forall|j: int|
            0 <= j < w ==> !eq_ignore_case(#[trigger] options[j], t));
    }
}

proof fn lemma_identity_answer_in_options(
    r: ActiveRequest,
    attempt: int,
    response: Result<PromptResponse, PromptError>,
)
    ensures
        identity_answer(r, attempt, response) matches Some(IdentityResult::Selected(s)) ==> s
            == r.username@ || exists|i: int|
            0 <= i < r.identity_options@.len() && r.identity_options@[i]@ == s,
        identity_answer(r, attempt, response) matches Some(IdentityResult::Terminal(o)) ==> o
            == HelperOutcome::Canceled || o == HelperOutcome::Timeout,
{
    if let Ok(PromptResponse::Submitted(raw)) = response {
        lemma_identity_choice_in_options(raw@, views(r.identity_options@), r.username@);
    }
}

/// An identity answer never names someone who was not offered: it is the
/// default or one of the options.
pub proof fn law_identity_choice_is_offered(input: Seq<char>, options: Seq<Seq<char>>, default: Seq<char>)
    ensures
        identity_choice(input, options, default) matches Some(s) ==> s == default || options.contains(s),
{
    lemma_identity_choice_in_options(input, options, default);
    if let Some(s) = identity_choice(input, options, default) {
        if s != default {
            let i = choose|i: int| 0 <= i < options.len() && options[i] == s;
            assert(options.contains(s));
        }
    }
}

// ---------------------------------------------------------------------------
// Retention selection
// ---------------------------------------------------------------------------

pub open spec fn first_option(options: Seq<RetentionPolicy>, p: RetentionPolicy) -> Option<
    RetentionPolicy,
> {
    if options.contains(p) {
        Some(p)
    } else {
        None
    }
}

/// A user's answer to the retention prompt: blank or a one-shot word picks
/// one-shot, a 1-based number picks that option, and the session/always
/// words pick those policies when offered.
pub open spec fn retention_choice(input: Seq<char>, options: Seq<RetentionPolicy>) -> Option<
    RetentionPolicy,
> {
    let t = trim(input);
    let n = lower_seq(t);
    if t.len() == 0 {
        Some(RetentionPolicy::OneShot)
    } else if numbered_choice(t, options.len() as int) is Some {
        Some(options[numbered_choice(t, options.len() as int)->0])
    } else if n == "default"@ || n == "one-shot"@ || n == "oneshot"@ {
        Some(RetentionPolicy::OneShot)
    } else if n == "session"@ || n == "keep-session"@ || n == "keep for session"@ || n
        == "session-only"@ {
        first_option(options, RetentionPolicy::Session)
    } else if n == "always"@ || n == "keep-always"@ || n == "keep always"@ || n == "persistent"@ {
        first_option(options, RetentionPolicy::Always)
    } else {
        None
    }
}

fn offers(options: &Vec<RetentionPolicy>, p: RetentionPolicy) -> (r: Option<RetentionPolicy>)
    ensures
        r == first_option(options@, p),
{
    let mut i: usize = 0;
    while i < options.len()
        invariant
            i <= options@.len(),
            forall|j: int| 0 <= j < i ==> options@[j] != p,
        decreases options.len() - i,
    {
        if options[i] == p {
            assert(options@.contains(p));
            return Some(p);
        }
        i += 1;
    }
    None
}

pub fn parse_retention_selection(input: &str, options: &Vec<RetentionPolicy>) -> (r: Option<
    RetentionPolicy,
>)
    ensures
        r == retention_choice(input@, options@),
{
    let trimmed = trim_str(input);
    if trimmed.len() == 0 {
        return Some(RetentionPolicy::OneShot);
    }
    if let Some(index) = parse_unsigned_chars(&trimmed, usize::MAX as u64) {
        if 1 <= index && index <= options.len() as u64 {
            let k = index as usize;
            return Some(options[k - 1]);
        }
    }
    let n = lower_chars(&trimmed);
    if equals_str(&n, "default") || equals_str(&n, "one-shot") || equals_str(&n, "oneshot") {
        return Some(RetentionPolicy::OneShot);
    }
    if equals_str(&n, "session") || equals_str(&n, "keep-session") || equals_str(
        &n,
        "keep for session",
    ) || equals_str(&n, "session-only") {
        return offers(options, RetentionPolicy::Session);
    }
    if equals_str(&n, "always") || equals_str(&n, "keep-always") || equals_str(&n, "keep always")
        || equals_str(&n, "persistent") {
        return offers(options, RetentionPolicy::Always);
    }
    None
}

/// A retention answer never picks a policy that was not offered, except
/// the always-available one-shot.
pub proof fn law_retention_choice_is_offered(input: Seq<char>, options: Seq<RetentionPolicy>)
    ensures
        retention_choice(input, options) matches Some(p) ==> p == RetentionPolicy::OneShot
            || options.contains(p),
{
    let t = trim(input);
    if t.len() > 0 {
        if numbered_choice(t, options.len() as int) is Some {
            let k = numbered_choice(t, options.len() as int)->0;
            assert(options.contains(options[k]));
        }
    }
}

/// How an answer to the identity prompt is read. A blank answer picks the
/// default identity whatever the options are; a number from 1 to the
/// number of options picks that option; otherwise the first option equal to
/// the answer ignoring case is picked, and an answer that is none of these
/// picks nothing.
pub proof fn law_identity_answer_reading(input: Seq<char>, options: Seq<Seq<char>>, default: Seq<char>)
    ensures
        trim(input).len() == 0 ==> identity_choice(input, options, default) == Some(default),
        ({
            let k = parse_unsigned(trim(input), usize::MAX as nat);
            trim(input).len() > 0 && k is Some && 1 <= k->0 <= options.len() ==> identity_choice(
                input,
                options,
                default,
            ) == Some(options[k->0 - 1])
        }),
        forall|j: int|
            #![trigger options[j]]
            trim(input).len() > 0 && numbered_choice(trim(input), options.len() as int) is None && 0
                <= j < options.len() && eq_ignore_case(options[j], trim(input)) && (forall|l: int|
                0 <= l < j ==> !eq_ignore_case(#[trigger] options[l], trim(input)))
                ==> identity_choice(input, options, default) == Some(options[j]),
        trim(input).len() > 0 && numbered_choice(trim(input), options.len() as int) is None && (
        forall|j: int| 0 <= j < options.len() ==> !eq_ignore_case(#[trigger] options[j], trim(input)))
            ==> identity_choice(input, options, default) is None,
{
    reveal(identity_choice);
    let t = trim(input);
    assert forall|j: int|
        #![trigger options[j]]
        t.len() > 0 && numbered_choice(t, options.len() as int) is None && 0 <= j < options.len()
            && eq_ignore_case(options[j], t) && (forall|l: int|
            0 <= l < j ==> !eq_ignore_case(#[trigger] options[l], t)) implies identity_choice(
        input,
        options,
        default,
    ) == Some(options[j]) by {
        lemma_first_case_match(options, t, j);
        let f = first_case_match(options, t);
        if f != j {
            if f < j {
                assert(!eq_ignore_case(options[f], t));
            } else {
                assert(!eq_ignore_case(options[j], t));
            }
        }
    }
}

/// How an answer to the retention prompt is read. A blank answer picks
/// one-shot; a number from 1 to the number of options picks that option;
/// the words for one-shot pick it; the words for session or always pick
/// that policy only when it is offered; anything else picks nothing.
pub proof fn law_retention_answer_reading(input: Seq<char>, options: Seq<RetentionPolicy>)
    ensures
        trim(input).len() == 0 ==> retention_choice(input, options) == Some(RetentionPolicy::OneShot),
        ({
            let k = parse_unsigned(trim(input), usize::MAX as nat);
            trim(input).len() > 0 && k is Some && 1 <= k->0 <= options.len() ==> retention_choice(
                input,
                options,
            ) == Some(options[k->0 - 1])
        }),
        ({
            let t = trim(input);
            let n = lower_seq(t);
            t.len() > 0 && numbered_choice(t, options.len() as int) is None ==> {
                &&& (n == "default"@ || n == "one-shot"@ || n == "oneshot"@) ==> retention_choice(
                    input,
                    options,
                ) == Some(RetentionPolicy::OneShot)
                &&& (n == "session"@ || n == "keep-session"@ || n == "keep for session"@ || n
                    == "session-only"@) ==> retention_choice(input, options) == (if options.contains(
                    RetentionPolicy::Session,
                ) {
                    Some(RetentionPolicy::Session)
                } else {
                    None
                })
                &&& (n == "always"@ || n == "keep-always"@ || n == "keep always"@ || n
                    == "persistent"@) ==> retention_choice(input, options) == (if options.contains(
                    RetentionPolicy::Always,
                ) {
                    Some(RetentionPolicy::Always)
                } else {
                    None
                })
                &&& !(n == "default"@ || n == "one-shot"@ || n == "oneshot"@ || n == "session"@ || n
                    == "keep-session"@ || n == "keep for session"@ || n == "session-only"@ || n
                    == "always"@ || n == "keep-always"@ || n == "keep always"@ || n
                    == "persistent"@) ==> retention_choice(input, options) is None
            }
        }),
{
    reveal_strlit("default");
    assert("default"@.len() == 7);
    reveal_strlit("one-shot");
    assert("one-shot"@.len() == 8);
    reveal_strlit("oneshot");
    assert("oneshot"@.len() == 7);
    reveal_strlit("session");
    assert("session"@.len() == 7);
    reveal_strlit("keep-session");
    assert("keep-session"@.len() == 12);
    reveal_strlit("keep for session");
    assert("keep for session"@.len() == 16);
    reveal_strlit("session-only");
    assert("session-only"@.len() == 12);
    reveal_strlit("always");
    assert("always"@.len() == 6);
    reveal_strlit("keep-always");
    assert("keep-always"@.len() == 11);
    reveal_strlit("keep always");
    assert("keep always"@.len() == 11);
    reveal_strlit("persistent");
    assert("persistent"@.len() == 10);
    assert("default"@ != "session"@) by {
        assert("default"@[0] != "session"@[0]);
    }
    assert("oneshot"@ != "session"@) by {
        assert("oneshot"@[0] != "session"@[0]);
    }
}

pub open spec fn retention_option_line(index: int, p: RetentionPolicy) -> Seq<char> {
    decimal((index + 1) as nat) + ": "@ + retention_prompt_label(p) + (if p
        == RetentionPolicy::OneShot {
        " (default)"@
    } else {
        seq![]
    })
}

pub open spec fn retention_prompt_lines(r: ActiveRequest) -> Seq<Seq<char>> {
    seq!["Select authorization retention"@, "Action: "@ + r.action_id@] + Seq::new(
        r.retention_options@.len(),
        |i: int| retention_option_line(i, r.retention_options@[i]),
    ) + seq!["Enter number or label (blank for default)"@]
}

/// The retention question: a title, the action, one numbered line per
/// offered policy (numbered from 1, in order, one-shot marked
/// " (default)"), and the hint for the answer. The policies are called
/// "One-shot", "Keep for session" and "Keep always" there, and
/// "one-shot", "keep-session" and "keep-always" in reports.
pub proof fn law_retention_question(r: ActiveRequest, i: int)
    requires
        0 <= i < r.retention_options@.len(),
    ensures
        retention_prompt_lines(r).len() == r.retention_options@.len() + 3,
        retention_prompt_lines(r)[0] == "Select authorization retention"@,
        retention_prompt_lines(r)[1] == "Action: "@ + r.action_id@,
        retention_prompt_lines(r)[i + 2] == decimal((i + 1) as nat) + ": "@ + retention_prompt_label(
            r.retention_options@[i],
        ) + (if r.retention_options@[i] == RetentionPolicy::OneShot {
            " (default)"@
        } else {
            Seq::<char>::empty()
        }),
        retention_prompt_lines(r).last() == "Enter number or label (blank for default)"@,
        retention_prompt_label(RetentionPolicy::OneShot) == "One-shot"@,
        retention_prompt_label(RetentionPolicy::Session) == "Keep for session"@,
        retention_prompt_label(RetentionPolicy::Always) == "Keep always"@,
        retention_label(RetentionPolicy::OneShot) == "one-shot"@,
        retention_label(RetentionPolicy::Session) == "keep-session"@,
        retention_label(RetentionPolicy::Always) == "keep-always"@,
{
}

/// The outcome names used in reports, one per outcome and all different.
pub proof fn law_outcome_names(a: HelperOutcome, b: HelperOutcome)
    ensures
        outcome_label(HelperOutcome::Authorized) == "success"@,
        outcome_label(HelperOutcome::Denied) == "failure"@,
        outcome_label(HelperOutcome::Canceled) == "canceled"@,
        outcome_label(HelperOutcome::Timeout) == "timeout"@,
        a != b ==> outcome_label(a) != outcome_label(b),
{
    reveal_strlit("success");
    reveal_strlit("failure");
    reveal_strlit("canceled");
    reveal_strlit("timeout");
    assert("success"@.len() == 7 && "failure"@.len() == 7 && "timeout"@.len() == 7);
    assert("canceled"@.len() == 8);
    assert("success"@[0] != "failure"@[0]);
    assert("success"@[0] != "timeout"@[0]);
    assert("failure"@[0] != "timeout"@[0]);
}

pub fn render_retention_selection_prompt(request: &ActiveRequest) -> (r: String)
    ensures
        r@ == join(retention_prompt_lines(*request), "\n"@),
{
    let mut lines: Vec<String> = Vec::new();
    push_line(&mut lines, "Select authorization retention".to_owned());
    push_line(&mut lines, concat2("Action: ", request.action_id.as_str()));
    let ghost head = views(lines@);
    let options = &request.retention_options;
    let mut i: usize = 0;
    while i < options.len()
        invariant
            i <= options@.len(),
            options@ == request.retention_options@,
            views(lines@) =~= head + Seq::new(
                i as nat,
                |k: int| retention_option_line(k, options@[k]),
            ),
        decreases options.len() - i,
    {
        let mut line = decimal_string((i + 1) as u64);
        line.append(": ");
        line.append(options[i].prompt_label());
        if options[i] == RetentionPolicy::OneShot {
            line.append(" (default)");
        }
        assert(line@ =~= retention_option_line(i as int, options@[i as int]));
        push_line(&mut lines, line);
        i += 1;
    }
    push_line(&mut lines, "Enter number or label (blank for default)".to_owned());
    assert(views(lines@) =~= retention_prompt_lines(*request));
    join_strings(&lines, "\n")
}

#[derive(Debug, Clone, Copy, PartialEq, Eq, Structural)]
pub enum RetentionSelection {
    Selected(RetentionPolicy),
    Terminal(HelperOutcome),
}

/// One answer to the retention prompt, at 1-based `attempt`: `None` means
/// "say it was invalid and ask again".
pub open spec fn retention_answer(
    r: ActiveRequest,
    attempt: int,
    response: Result<PromptResponse, PromptError>,
) -> Option<RetentionSelection> {
    match response {
        Ok(PromptResponse::Submitted(raw)) => match retention_choice(raw@, r.retention_options@) {
            Some(p) => Some(RetentionSelection::Selected(p)),
            None => if attempt >= DEFAULT_RETENTION_SELECTION_ATTEMPTS {
                Some(RetentionSelection::Selected(RetentionPolicy::OneShot))
            } else {
                None
            },
        },
        Ok(PromptResponse::Canceled) => Some(RetentionSelection::Terminal(HelperOutcome::Canceled)),
        Ok(PromptResponse::TimedOut) => Some(RetentionSelection::Terminal(HelperOutcome::Timeout)),
        Err(_) => Some(RetentionSelection::Selected(RetentionPolicy::OneShot)),
    }
}

/// Whether an answer to the retention prompt is reported as invalid.
pub open spec fn invalid_retention_answer(r: ActiveRequest, response: Result<PromptResponse, PromptError>) -> bool {
    response matches Ok(PromptResponse::Submitted(raw)) && retention_choice(
        raw@,
        r.retention_options@,
    ) is None
}

/// The decision for one answer (`.0`, `None`: ask again) and whether the
/// answer is reported as invalid (`.1`).
pub fn retention_selection_step(
    request: &ActiveRequest,
    attempt: usize,
    response: Result<PromptResponse, PromptError>,
) -> (r: (Option<RetentionSelection>, bool))
    ensures
        r.0 == retention_answer(*request, attempt as int, response),
        r.1 == invalid_retention_answer(*request, response),
{
    let invalid = match &response {
        Ok(PromptResponse::Submitted(raw)) => parse_retention_selection(
            raw.as_str(),
            &request.retention_options,
        ).is_none(),
        _ => false,
    };
    (retention_decision(request, attempt, response), invalid)
}

fn retention_decision(
    request: &ActiveRequest,
    attempt: usize,
    response: Result<PromptResponse, PromptError>,
) -> (r: Option<RetentionSelection>)
    ensures
        r == retention_answer(*request, attempt as int, response),
{
    match response {
        Ok(PromptResponse::Submitted(raw)) => {
            let mut raw = raw;
            let choice = parse_retention_selection(raw.as_str(), &request.retention_options);
            crate::polkit_helper::scrub_string(&mut raw);
            match choice {
                Some(selected) => Some(RetentionSelection::Selected(selected)),
                None => {
                    if attempt >= DEFAULT_RETENTION_SELECTION_ATTEMPTS {
                        Some(RetentionSelection::Selected(RetentionPolicy::OneShot))
                    } else {
                        None
                    }
                },
            }
        },
        Ok(PromptResponse::Canceled) => Some(RetentionSelection::Terminal(HelperOutcome::Canceled)),
        Ok(PromptResponse::TimedOut) => Some(RetentionSelection::Terminal(HelperOutcome::Timeout)),
        Err(_) => Some(RetentionSelection::Selected(RetentionPolicy::OneShot)),
    }
}

/// The policy used when there is nothing to choose from.
pub open spec fn default_retention(options: Seq<RetentionPolicy>) -> RetentionPolicy {
    if options.len() > 0 {
        options[0]
    } else {
        RetentionPolicy::OneShot
    }
}

/// The text of the retention question.
pub open spec fn retention_prompt_text(request: ActiveRequest) -> Seq<char> {
    join(retention_prompt_lines(request), "\n"@)
}

/// The course of a retention dialogue, apart from what the provider did in
/// each round: one to three answers, the provider states from `before` to
/// `after` around them, every answer but the last asking again, and the
/// last deciding `r`.
pub open spec fn retention_turns<P>(
    request: ActiveRequest,
    answers: Seq<Result<PromptResponse, PromptError>>,
    states: Seq<P>,
    before: P,
    after: P,
    r: RetentionSelection,
) -> bool {
    &&& 1 <= answers.len() <= DEFAULT_RETENTION_SELECTION_ATTEMPTS
    &&& states.len() == answers.len() + 1
    &&& states[0] == before
    &&& states.last() == after
    &&& forall|i: int|
        0 <= i < answers.len() - 1 ==> retention_answer(request, i + 1, #[trigger] answers[i]) is None
    &&& retention_answer(request, answers.len() as int, answers.last()) == Some(r)
}

/// One round of the retention dialogue: ask, and report an invalid answer.
/// Returns the decision and the answer the provider gave.
fn retention_round<P: PromptProvider>(
    request: &ActiveRequest,
    prompts: &mut P,
    prompt: &str,
    attempt: usize,
) -> (r: (Option<RetentionSelection>, Ghost<Result<PromptResponse, PromptError>>))
    ensures
        exists|m1: &mut P|
            {
                &&& *m1 == *old(prompts)
                &&& #[trigger] call_ensures(P::prompt_plain, (m1, prompt), r.1@)
                &&& if invalid_retention_answer(*request, r.1@) {
                    exists|m2: &mut P, s2: &str, e: Result<(), PromptError>|
                        {
                            &&& *m2 == *final(m1)
                            &&& s2@ == "Invalid retention selection"@
                            &&& #[trigger] call_ensures(P::show_error, (m2, s2), e)
                            &&& *final(m2) == *final(prompts)
                        }
                } else {
                    *final(m1) == *final(prompts)
                }
            },
        r.0 == retention_answer(*request, attempt as int, r.1@),
{
    let response = prompts.prompt_plain(prompt);
    let ghost answer = response;
    let (decision, invalid) = retention_selection_step(request, attempt, response);
    if invalid {
        let _ = prompts.show_error("Invalid retention selection");
    }
    (decision, Ghost(answer))
}

proof fn lemma_retention_answer_offered(
    r: ActiveRequest,
    attempt: int,
    response: Result<PromptResponse, PromptError>,
)
    ensures
        retention_answer(r, attempt, response) matches Some(RetentionSelection::Selected(p)) ==> p
            == RetentionPolicy::OneShot || r.retention_options@.contains(p),
        retention_answer(r, attempt, response) matches Some(RetentionSelection::Terminal(o)) ==> o
            == HelperOutcome::Canceled || o == HelperOutcome::Timeout,
{
    if let Ok(PromptResponse::Submitted(raw)) = response {
        law_retention_choice_is_offered(raw@, r.retention_options@);
    }
}

/// Picks the retention policy: the only option (or one-shot) when there is
/// no choice, otherwise by asking (up to three times). The provider is left
/// alone when there is no choice; otherwise the result is the decision of
/// the first answer that decides, over the answers the provider gave in
/// turn, each invalid one reported with `show_error`.
#[verifier::rlimit(40)]
#[verifier::spinoff_prover]
pub fn select_retention_for_request<P: PromptProvider>(request: &ActiveRequest, prompts: &mut P) -> (r:
    RetentionSelection)
    ensures
        request.retention_options@.len() <= 1 ==> r == RetentionSelection::Selected(
            default_retention(request.retention_options@),
        ),
        request.retention_options@.len() <= 1 ==> *final(prompts) == *old(prompts),
        r matches RetentionSelection::Selected(p) ==> p == RetentionPolicy::OneShot
            || request.retention_options@.contains(p),
        r matches RetentionSelection::Terminal(o) ==> o == HelperOutcome::Canceled || o
            == HelperOutcome::Timeout,
        request.retention_options@.len() > 1 ==> exists|
            answers: Seq<Result<PromptResponse, PromptError>>,
            states: Seq<P>,
        |
            {
                &&& #[trigger] retention_turns(
                    *request,
                    answers,
                    states,
                    *old(prompts),
                    *final(prompts),
                    r,
                )
                &&& forall|i: int|
                    #![trigger answers[i]]
                    0 <= i < answers.len() ==> exists|m1: &mut P, s1: &str|
                        {
                            &&& *m1 == states[i]
                            &&& s1@ == retention_prompt_text(*request)
                            &&& #[trigger] call_ensures(P::prompt_plain, (m1, s1), answers[i])
                            &&& if invalid_retention_answer(*request, answers[i]) {
                                exists|m2: &mut P, s2: &str, e: Result<(), PromptError>|
                                    {
                                        &&& *m2 == *final(m1)
                                        &&& s2@ == "Invalid retention selection"@
                                        &&& #[trigger] call_ensures(P::show_error, (m2, s2), e)
                                        &&& *final(m2) == states[i + 1]
                                    }
                            } else {
                                *final(m1) == states[i + 1]
                            }
                        }
            },
{
    if request.retention_options.len() <= 1 {
        let fallback = if request.retention_options.len() == 1 {
            request.retention_options[0]
        } else {
            RetentionPolicy::OneShot
        };
        return RetentionSelection::Selected(fallback);
    }
    let prompt = render_retention_selection_prompt(request);
    let ps: &str = prompt.as_str();
    let ghost s0 = *prompts;
    let (d1, Ghost(a1)) = retention_round(request, prompts, ps, 1);
    let ghost s1 = *prompts;
    if let Some(selection) = d1 {
        proof {
            lemma_retention_answer_offered(*request, 1, a1);
            let answers = seq![a1];
            let states = seq![s0, s1];
            assert(answers[0] == a1 && states[0] == s0 && states[1] == s1);
            assert(retention_turns(*request, answers, states, s0, s1, selection));
        }
        return selection;
    }
    let (d2, Ghost(a2)) = retention_round(request, prompts, ps, 2);
    let ghost s2 = *prompts;
    if let Some(selection) = d2 {
        proof {
            lemma_retention_answer_offered(*request, 2, a2);
            let answers = seq![a1, a2];
            let states = seq![s0, s1, s2];
            assert(answers[0] == a1 && answers[1] == a2);
            assert(states[0] == s0 && states[1] == s1 && states[2] == s2);
            assert(retention_turns(*request, answers, states, s0, s2, selection));
        }
        return selection;
    }
    let (d3, Ghost(a3)) = retention_round(request, prompts, ps, 3);
    let ghost s3 = *prompts;
    match d3 {
        Some(selection) => {
            proof {
                lemma_retention_answer_offered(*request, 3, a3);
                let answers = seq![a1, a2, a3];
                let states = seq![s0, s1, s2, s3];
                assert(answers[0] == a1 && answers[1] == a2 && answers[2] == a3);
                assert(states[0] == s0 && states[1] == s1 && states[2] == s2 && states[3] == s3);
                assert(retention_turns(*request, answers, states, s0, s3, selection));
            }
            selection
        },
        None => {
            proof {
                assert(retention_answer(*request, 3, a3) is Some);
            }
            RetentionSelection::Selected(RetentionPolicy::OneShot)
        },
    }
}

// ---------------------------------------------------------------------------
// Options derived from a request
// ---------------------------------------------------------------------------

/// Values of the retention detail that offer no retention.
pub open spec fn retention_off(v: Seq<char>) -> bool {
    v.len() == 0 || v == "0"@ || v == "false"@ || v == "no"@ || v == "never"@ || v == "none"@
}

/// Values of the retention detail that offer keeping the authorization
/// forever.
pub open spec fn retention_always(v: Seq<char>) -> bool {
    v == "always"@ || v == "persistent"@ || v == "keep-always"@ || v == "2"@
}

/// Retention options a request offers: always one-shot; session when the
/// retention detail is set; always as well for the "always" values.
pub open spec fn retention_options_of(details: Map<Seq<char>, String>) -> Seq<RetentionPolicy> {
    match first_detail(details, retention_keys()) {
        None => seq![RetentionPolicy::OneShot],
        Some(raw) => {
            let n = lower_seq(trim(raw));
            if retention_off(n) {
                seq![RetentionPolicy::OneShot]
            } else if retention_always(n) {
                seq![RetentionPolicy::OneShot, RetentionPolicy::Session, RetentionPolicy::Always]
            } else {
                seq![RetentionPolicy::OneShot, RetentionPolicy::Session]
            }
        },
    }
}

/// The retention detail offers: nothing but one-shot when it is absent or
/// blank, or when its trimmed, lowercased value is one of "0", "false",
/// "no", "never", "none"; one-shot, session and always for "always",
/// "persistent", "keep-always" and "2"; one-shot and session for any other
/// value. The first retention key with a non-blank value is the one read.
pub proof fn law_retention_offers(details: Map<Seq<char>, String>)
    ensures
        first_detail(details, retention_keys()) is None ==> retention_options_of(details) == seq![
            RetentionPolicy::OneShot,
        ],
        first_detail(details, retention_keys()) matches Some(raw) ==> ({
            let n = lower_seq(trim(raw));
            &&& (n == "0"@ || n == "false"@ || n == "no"@ || n == "never"@ || n == "none"@)
                ==> retention_options_of(details) == seq![RetentionPolicy::OneShot]
            &&& (n == "always"@ || n == "persistent"@ || n == "keep-always"@ || n == "2"@)
                ==> retention_options_of(details) == seq![
                RetentionPolicy::OneShot,
                RetentionPolicy::Session,
                RetentionPolicy::Always,
            ]
            &&& !(n.len() == 0 || n == "0"@ || n == "false"@ || n == "no"@ || n == "never"@ || n
                == "none"@ || n == "always"@ || n == "persistent"@ || n == "keep-always"@ || n
                == "2"@) ==> retention_options_of(details) == seq![
                RetentionPolicy::OneShot,
                RetentionPolicy::Session,
            ]
        }),
        details.contains_key(retention_keys()[0]) && trim(details[retention_keys()[0]]@).len() > 0
            ==> first_detail(details, retention_keys()) == Some(
            trim(details[retention_keys()[0]]@),
        ),
        (forall|i: int|
            0 <= i < retention_keys().len() ==> !details.contains_key(#[trigger] retention_keys()[i])
                || trim(details[retention_keys()[i]]@).len() == 0) ==> retention_options_of(details)
            == seq![RetentionPolicy::OneShot],
{
    reveal_strlit("0");
    assert("0"@.len() == 1);
    reveal_strlit("false");
    assert("false"@.len() == 5);
    reveal_strlit("no");
    assert("no"@.len() == 2);
    reveal_strlit("never");
    assert("never"@.len() == 5);
    reveal_strlit("none");
    assert("none"@.len() == 4);
    reveal_strlit("always");
    assert("always"@.len() == 6);
    reveal_strlit("persistent");
    assert("persistent"@.len() == 10);
    reveal_strlit("keep-always");
    assert("keep-always"@.len() == 11);
    reveal_strlit("2");
    assert("2"@.len() == 1);
    assert("2"@ != "0"@) by {
        assert("2"@[0] != "0"@[0]);
    }
    let keys = retention_keys();
    if forall|i: int|
        0 <= i < keys.len() ==> !details.contains_key(#[trigger] keys[i]) || trim(
            details[keys[i]]@,
        ).len() == 0 {
        let k1 = keys.skip(1);
        let k2 = k1.skip(1);
        let k3 = k2.skip(1);
        let k4 = k3.skip(1);
        assert(k4.len() == 0);
        assert(first_detail(details, k4) is None);
        assert(k3[0] == keys[3]);
        assert(!details.contains_key(keys[3]) || trim(details[keys[3]]@).len() == 0);
        assert(first_detail(details, k3) is None);
        assert(k2[0] == keys[2]);
        assert(!details.contains_key(keys[2]) || trim(details[keys[2]]@).len() == 0);
        assert(first_detail(details, k2) is None);
        assert(k1[0] == keys[1]);
        assert(!details.contains_key(keys[1]) || trim(details[keys[1]]@).len() == 0);
        assert(first_detail(details, k1) is None);
        assert(!details.contains_key(keys[0]) || trim(details[keys[0]]@).len() == 0);
        assert(first_detail(details, keys) is None);
    }
}

pub fn retention_options_from_details(details: &Details) -> (r: Vec<RetentionPolicy>)
    ensures
        r@ == retention_options_of(details.view()),
        r@.len() >= 1,
        r@[0] == RetentionPolicy::OneShot,
{
    let mut options = vec![RetentionPolicy::OneShot];
    let keys = retention_keys_list();
    let raw = first_detail_value(details, &keys);
    let raw = match raw {
        Some(raw) => raw,
        None => {
            assert(options@ =~= seq![RetentionPolicy::OneShot]);
            return options;
        },
    };
    let t = trim_str(raw.as_str());
    let n = lower_chars(&t);
    if n.len() == 0 || equals_str(&n, "0") || equals_str(&n, "false") || equals_str(&n, "no")
        || equals_str(&n, "never") || equals_str(&n, "none") {
        assert(options@ =~= seq![RetentionPolicy::OneShot]);
        return options;
    }
    if equals_str(&n, "always") || equals_str(&n, "persistent") || equals_str(&n, "keep-always")
        || equals_str(&n, "2") {
        options.push(RetentionPolicy::Session);
        options.push(RetentionPolicy::Always);
        assert(options@ =~= seq![
            RetentionPolicy::OneShot,
            RetentionPolicy::Session,
            RetentionPolicy::Always,
        ]);
        return options;
    }
    options.push(RetentionPolicy::Session);
    assert(options@ =~= seq![RetentionPolicy::OneShot, RetentionPolicy::Session]);
    options
}

/// Whether an identity is a Unix user with a usable name; the option is the
/// trimmed name.
pub open spec fn eligible_identity(s: IdentitySubject) -> bool {
    s.kind@ == "unix-user"@ && s.name is Some && trim(s.name->0@).len() > 0
}

/// Identity options: the trimmed names of Unix-user identities, in order,
/// skipping names that repeat an earlier one ignoring ASCII case.
pub open spec fn identity_options_of(ids: Seq<IdentitySubject>) -> Seq<Seq<char>>
    decreases ids.len(),
{
    if ids.len() == 0 {
        seq![]
    } else {
        let before = identity_options_of(ids.drop_last());
        let x = ids.last();
        if eligible_identity(x) && !(exists|i: int|
            0 <= i < before.len() && #[trigger] lower_seq(before[i]) == lower_seq(trim(x.name->0@))) {
            before.push(trim(x.name->0@))
        } else {
            before
        }
    }
}

/// The identity options are exactly the Unix users polkit offered, by
/// trimmed name and once each: no two options are the same name ignoring
/// case; each option is the trimmed name of an offered Unix user; and every
/// offered Unix user with a non-blank name is among them, up to case.
#[verifier::spinoff_prover]
#[verifier::rlimit(40)]
pub proof fn law_identity_options_offered_once(ids: Seq<IdentitySubject>)
    ensures
        forall|i: int, j: int|
            0 <= i < j < identity_options_of(ids).len() ==> lower_seq(
                #[trigger] identity_options_of(ids)[i],
            ) != lower_seq(#[trigger] identity_options_of(ids)[j]),
        forall|i: int|
            #![trigger identity_options_of(ids)[i]]
            0 <= i < identity_options_of(ids).len() ==> exists|k: int|
                0 <= k < ids.len() && eligible_identity(#[trigger] ids[k])
                    && identity_options_of(ids)[i] == trim(ids[k].name->0@),
        forall|k: int|
            0 <= k < ids.len() && eligible_identity(#[trigger] ids[k]) ==> exists|i: int|
                0 <= i < identity_options_of(ids).len() && lower_seq(
                    #[trigger] identity_options_of(ids)[i],
                ) == lower_seq(trim(ids[k].name->0@)),
    decreases ids.len(),
{
    if ids.len() > 0 {
        let init = ids.drop_last();
        law_identity_options_offered_once(init);
        let before = identity_options_of(init);
        let x = ids.last();
        let opts = identity_options_of(ids);
        assert forall|i: int, j: int|
            0 <= i < j < opts.len() implies lower_seq(#[trigger] opts[i]) != lower_seq(
                #[trigger] opts[j],
            ) by {
            if j < before.len() {
                assert(opts[i] == before[i] && opts[j] == before[j]);
            } else {
                assert(opts[i] == before[i]);
            }
        }
        assert forall|i: int|
            #![trigger opts[i]]
            0 <= i < opts.len() implies exists|k: int|
                0 <= k < ids.len() && eligible_identity(#[trigger] ids[k]) && opts[i] == trim(
                    ids[k].name->0@,
                ) by {
            if i < before.len() {
                let k = choose|k: int|
                    0 <= k < init.len() && eligible_identity(#[trigger] init[k]) && before[i]
                        == trim(init[k].name->0@);
                assert(ids[k] == init[k]);
            } else {
                assert(ids[ids.len() - 1] == x);
            }
        }
        assert forall|k: int|
            0 <= k < ids.len() && eligible_identity(#[trigger] ids[k]) implies exists|i: int|
                0 <= i < opts.len() && lower_seq(#[trigger] opts[i]) == lower_seq(
                    trim(ids[k].name->0@),
                ) by {
            if k < init.len() {
                assert(init[k] == ids[k]);
                let i = choose|i: int|
                    0 <= i < before.len() && lower_seq(before[i]) == lower_seq(
                        trim(init[k].name->0@),
                    );
                assert(opts[i] == before[i]);
            } else {
                assert(ids[k] == x);
                if exists|i: int|
                    0 <= i < before.len() && #[trigger] lower_seq(before[i]) == lower_seq(
                        trim(x.name->0@),
                    ) {
                    let i = choose|i: int|
                        0 <= i < before.len() && #[trigger] lower_seq(before[i]) == lower_seq(
                            trim(x.name->0@),
                        );
                    assert(opts[i] == before[i]);
                } else {
                    assert(opts[before.len() as int] == trim(x.name->0@));
                }
            }
        }
    }
}

/// Every identity option is a non-blank name, and only Unix users give
/// options: a list without a Unix user with a non-blank name gives none.
#[verifier::spinoff_prover]
pub proof fn law_identity_options_are_named_users(ids: Seq<IdentitySubject>)
    ensures
        forall|i: int|
            0 <= i < identity_options_of(ids).len() ==> (#[trigger] identity_options_of(ids)[i]).len()
                > 0,
        (forall|k: int|
            0 <= k < ids.len() ==> !((#[trigger] ids[k]).kind@ == "unix-user"@ && ids[k].name is Some
                && trim(ids[k].name->0@).len() > 0)) ==> identity_options_of(ids).len() == 0,
{
    law_identity_options_offered_once(ids);
    let opts = identity_options_of(ids);
    assert forall|i: int| 0 <= i < opts.len() implies (#[trigger] opts[i]).len() > 0 by {
        let k = choose|k: int|
            0 <= k < ids.len() && eligible_identity(#[trigger] ids[k]) && opts[i] == trim(
                ids[k].name->0@,
            );
    }
    if opts.len() > 0 {
        let k = choose|k: int|
            0 <= k < ids.len() && eligible_identity(#[trigger] ids[k]) && opts[0] == trim(
                ids[k].name->0@,
            );
    }
}

pub fn identity_options_from_subjects(identities: &Vec<IdentitySubject>) -> (r: Vec<String>)
    ensures
        views(r@) == identity_options_of(identities@),
{
    let mut options: Vec<String> = Vec::new();
    let mut seen: Vec<Vec<char>> = Vec::new();
    let mut i: usize = 0;
    while i < identities.len()
        invariant
            i <= identities@.len(),
            views(options@) == identity_options_of(identities@.take(i as int)),
            seen@.len() == options@.len(),
            forall|k: int| 0 <= k < seen@.len() ==> #[trigger] seen@[k]@ == lower_seq(options@[k]@),
        decreases identities.len() - i,
    {
        let ghost prefix = identities@.take(i as int);
        proof {
            assert(identities@.take(i + 1).drop_last() =~= prefix);
            assert(identities@.take(i + 1).last() == identities@[i as int]);
        }
        let subject = &identities[i];
        if str_eq(subject.kind.as_str(), "unix-user") {
            if let Some(name) = &subject.name {
                let trimmed = trim_str(name.as_str());
                if trimmed.len() > 0 {
                    let key = lower_chars(&trimmed);
                    let mut duplicate = false;
                    let mut k: usize = 0;
                    while k < seen.len()
                        invariant
                            k <= seen@.len(),
                            seen@.len() == options@.len(),
                            !duplicate ==> forall|j: int|
                                0 <= j < k ==> seen@[j]@ != key@,
                            duplicate ==> exists|j: int| 0 <= j < seen@.len() && seen@[j]@ == key@,
                        decreases seen.len() - k,
                    {
                        if crate::text::seq_equal(&seen[k], &key) {
                            duplicate = true;
                        }
                        k += 1;
                    }
                    proof {
                        let before = identity_options_of(prefix);
                        if duplicate {
                            let j = choose|j: int| 0 <= j < seen@.len() && seen@[j]@ == key@;
                            assert(lower_seq(before[j]) == lower_seq(trim(name@)));
                        } else {
                            assert forall|j: int| 0 <= j < before.len() implies !(#[trigger] lower_seq(
                                before[j],
                            ) == lower_seq(trim(name@))) by {
                                assert(seen@[j]@ == lower_seq(options@[j]@));
                            }
                        }
                    }
                    if !duplicate {
                        options.push(string_of(&trimmed));
                        seen.push(key);
                    }
                }
            }
        }
        proof {
            assert(views(options@) =~= identity_options_of(identities@.take(i + 1)));
        }
        i += 1;
    }
    assert(identities@.take(identities@.len() as int) =~= identities@);
    options
}

/// A Unix-user identity that resolved to a name.
pub open spec fn named_user(s: IdentitySubject) -> bool {
    s.kind@ == "unix-user"@ && s.name is Some
}

/// The user to authenticate as: the current user when polkit offers them,
/// else the first Unix-user identity with a name.
pub open spec fn resolved_identity(ids: Seq<IdentitySubject>, current: Option<Seq<char>>) -> Option<
    Seq<char>,
> {
    if current is Some && exists|i: int|
        0 <= i < ids.len() && #[trigger] named_user(ids[i]) && ids[i].name->0@ == current->0 {
        current
    } else if exists|i: int| 0 <= i < ids.len() && #[trigger] named_user(ids[i]) {
        Some(ids[first_named_user(ids)].name->0@)
    } else {
        None
    }
}

/// Index of the first Unix-user identity with a name.
pub open spec fn first_named_user(ids: Seq<IdentitySubject>) -> int {
    choose|i: int|
        0 <= i < ids.len() && named_user(ids[i]) && forall|j: int|
            0 <= j < i ==> !(#[trigger] named_user(ids[j]))
}

/// The user to authenticate as is the current user whenever polkit offers
/// them, else the first Unix user with a name that polkit offers, and
/// nobody when it offers none; it is always a user polkit offered.
pub proof fn law_resolved_identity(ids: Seq<IdentitySubject>, current: Option<Seq<char>>, f: int)
    ensures
        current is Some && (exists|i: int|
            0 <= i < ids.len() && #[trigger] named_user(ids[i]) && ids[i].name->0@ == current->0)
            ==> resolved_identity(ids, current) == current,
        !(current is Some && exists|i: int|
            0 <= i < ids.len() && #[trigger] named_user(ids[i]) && ids[i].name->0@ == current->0)
            && 0 <= f < ids.len() && named_user(ids[f]) && (forall|j: int|
            0 <= j < f ==> !#[trigger] named_user(ids[j])) ==> resolved_identity(ids, current)
            == Some(ids[f].name->0@),
        (forall|i: int| 0 <= i < ids.len() ==> !#[trigger] named_user(ids[i])) ==> resolved_identity(
            ids,
            current,
        ) is None,
        resolved_identity(ids, current) is Some ==> exists|i: int|
            0 <= i < ids.len() && #[trigger] named_user(ids[i]) && ids[i].name->0@ == resolved_identity(
                ids,
                current,
            )->0,
{
    if exists|i: int| 0 <= i < ids.len() && #[trigger] named_user(ids[i]) {
        let w = choose|i: int| 0 <= i < ids.len() && #[trigger] named_user(ids[i]);
        lemma_first_named_user(ids, w);
        let g = first_named_user(ids);
        if 0 <= f < ids.len() && named_user(ids[f]) && (forall|j: int|
            0 <= j < f ==> !#[trigger] named_user(ids[j])) {
            if g < f {
                assert(!named_user(ids[g]));
            } else if f < g {
                assert(!named_user(ids[f]));
            }
        }
    }
}

proof fn lemma_first_named_user(ids: Seq<IdentitySubject>, w: int)
    requires
        0 <= w < ids.len(),
        named_user(ids[w]),
    ensures
        0 <= first_named_user(ids) < ids.len(),
        named_user(ids[first_named_user(ids)]),
        forall|j: int| 0 <= j < first_named_user(ids) ==> !#[trigger] named_user(ids[j]),
    decreases w,
{
    if exists|j: int| 0 <= j < w && #[trigger] named_user(ids[j]) {
        let j = choose|j: int| 0 <= j < w && #[trigger] named_user(ids[j]);
        lemma_first_named_user(ids, j);
    } else {
        assert(exists|i: int|
            0 <= i < ids.len() && named_user(ids[i]) && forall|j: int|
                0 <= j < i ==> !(#[trigger] named_user(ids[j])));
    }
}

pub open spec fn opt_view(o: Option<String>) -> Option<Seq<char>> {
    match o {
        Some(s) => Some(s@),
        None => None,
    }
}

pub open spec fn opt_str_view(o: Option<&str>) -> Option<Seq<char>> {
    match o {
        Some(s) => Some(s@),
        None => None,
    }
}

fn is_named_user(s: &IdentitySubject) -> (r: bool)
    ensures
        r == named_user(*s),
{
    str_eq(s.kind.as_str(), "unix-user") && s.name.is_some()
}

pub fn resolve_identity_username(identities: &Vec<IdentitySubject>, current: Option<&str>) -> (r:
    Option<String>)
    ensures
        opt_view(r) == resolved_identity(identities@, opt_str_view(current)),
{
    let ghost ids = identities@;
    if let Some(current_name) = current {
        let mut i: usize = 0;
        while i < identities.len()
            invariant
                ids == identities@,
                current == Some(current_name),
                i <= identities@.len(),
                forall|j: int|
                    0 <= j < i ==> !(#[trigger] named_user(ids[j]) && ids[j].name->0@
                        == current_name@),
            decreases identities.len() - i,
        {
            if is_named_user(&identities[i]) {
                let name = identities[i].name.as_ref().unwrap();
                if str_eq(name.as_str(), current_name) {
                    assert(named_user(ids[i as int]) && ids[i as int].name->0@ == current_name@);
                    assert(opt_str_view(current) == Some(current_name@));
                    assert(resolved_identity(ids, opt_str_view(current)) == Some(current_name@));
                    let r = name.clone();
                    assert(r@ == current_name@);
                    return Some(r);
                }
            }
            i += 1;
        }
    }
    let mut i: usize = 0;
    while i < identities.len()
        invariant
            ids == identities@,
            i <= identities@.len(),
            current is Some ==> !exists|j: int|
                0 <= j < ids.len() && #[trigger] named_user(ids[j]) && ids[j].name->0@
                    == current->0@,
            forall|j: int| 0 <= j < i ==> !(#[trigger] named_user(ids[j])),
        decreases identities.len() - i,
    {
        if is_named_user(&identities[i]) {
            let name = identities[i].name.as_ref().unwrap();
            proof {
                let f = first_named_user(ids);
                assert(0 <= i < ids.len() && named_user(ids[i as int]) && forall|j: int|
                    0 <= j < i ==> !(#[trigger] named_user(ids[j])));
                if f != i {
                    if f > i {
                        assert(!named_user(ids[i as int]));
                    } else {
                        assert(!named_user(ids[f]));
                    }
                }
            }
            return Some(name.clone());
        }
        i += 1;
    }
    None
}

/// Builds the working view of a request: the resolved user (else the
/// current user, else `$USER`, else "unknown"), the identity options with
/// that user first when missing, and the retention options.
pub fn active_request_from(
    request: &AuthRequest,
    current_user: Option<&str>,
    env_user: Option<&str>,
) -> (r: ActiveRequest)
    ensures
        r.action_id@ == request.action_id@,
        r.message@ == request.message@,
        r.icon_name@ == request.icon_name@,
        r.cookie@ == request.cookie@,
        r.detail_count == request.details.view().len(),
        r.details.view().dom() == request.details.view().dom(),
        forall|k: Seq<char>| #[trigger] r.details.view().contains_key(k) ==> r.details.view()[k]@
            == request.details.view()[k]@,
        r.username@ == match resolved_identity(request.identities@, opt_str_view(current_user)) {
            Some(u) => u,
            None => match current_user {
                Some(c) => c@,
                None => match env_user {
                    Some(e) => e@,
                    None => "unknown"@,
                },
            },
        },
        views(r.identity_options@) == if identity_options_of(request.identities@).contains(
            r.username@,
        ) {
            identity_options_of(request.identities@)
        } else {
            seq![r.username@] + identity_options_of(request.identities@)
        },
        r.retention_options@ == retention_options_of(request.details.view()),
{
    let username = match resolve_identity_username(&request.identities, current_user) {
        Some(u) => u,
        None => match current_user {
            Some(c) => c.to_owned(),
            None => match env_user {
                Some(e) => e.to_owned(),
                None => "unknown".to_owned(),
            },
        },
    };
    let mut identity_options = identity_options_from_subjects(&request.identities);
    let mut present = false;
    let mut i: usize = 0;
    while i < identity_options.len()
        invariant
            i <= identity_options@.len(),
            present == exists|j: int| 0 <= j < i && identity_options@[j]@ == username@,
        decreases identity_options.len() - i,
    {
        if identity_options[i] == username {
            present = true;
        }
        i += 1;
    }
    proof {
        let opts = identity_options_of(request.identities@);
        assert(views(identity_options@) == opts);
        if present {
            let j = choose|j: int| 0 <= j < i && identity_options@[j]@ == username@;
            assert(opts[j] == username@);
        } else {
            assert forall|j: int| 0 <= j < opts.len() implies opts[j] != username@ by {
                assert(opts[j] == identity_options@[j]@);
            }
        }
    }
    if !present {
        identity_options.insert(0, username.clone());
        assert(views(identity_options@) =~= seq![username@] + identity_options_of(
            request.identities@,
        ));
    }
    let retention_options = retention_options_from_details(&request.details);
    let details = request.details.copy();
    proof {
        assert forall|k: Seq<char>| #[trigger] details.view().contains_key(k) implies details.view()[k]@
            == request.details.view()[k]@ by {
            assert(cloned::<String>(request.details.view()[k], details.view()[k]));
        }
    }
    ActiveRequest {
        action_id: request.action_id.clone(),
        message: request.message.clone(),
        icon_name: request.icon_name.clone(),
        detail_count: request.details.len(),
        details,
        cookie: request.cookie.clone(),
        username,
        identity_options,
        retention_options,
    }
}

} // verus!
