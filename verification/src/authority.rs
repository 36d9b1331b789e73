//! What the agent tells and asks the polkit authority: the subject it acts
//! for, the temporary authorizations it lists, and the diagnostics report.
use crate::runtime::SubjectResolution;
use crate::text::{
    lemma_seq_less_asymmetric, lemma_seq_less_irreflexive, lemma_seq_less_total,
    lemma_seq_less_transitive, push_str, seq_less, str_less,
};
use crate::text_map::TextMap;
use vstd::prelude::*;

verus! {

// ---------------------------------------------------------------------------
// Temporary authorizations
// ---------------------------------------------------------------------------

/// One temporary authorization as the authority lists it.
#[derive(Debug, Clone)]
pub struct TemporaryAuthorization {
    pub authorization_id: String,
    pub action_id: String,
    pub obtained_at_unix: u64,
    pub expires_at_unix: u64,
}

/// A temporary authorization as the agent reports it.
#[derive(Debug, Clone)]
pub struct TemporaryAuthorizationRecord {
    pub authorization_id: String,
    pub action_id: String,
    pub obtained_at_unix: u64,
    pub expires_at_unix: u64,
    pub expires_in_secs: u64,
}

/// Seconds from `now` until `expires`, zero once it has passed.
pub open spec fn seconds_until(expires: u64, now: u64) -> u64 {
    if expires > now {
        (expires - now) as u64
    } else {
        0
    }
}

/// `r` reports `a` at `now`.
pub open spec fn reports(r: TemporaryAuthorizationRecord, a: TemporaryAuthorization, now: u64) -> bool {
    &&& r.authorization_id@ == a.authorization_id@
    &&& r.action_id@ == a.action_id@
    &&& r.obtained_at_unix == a.obtained_at_unix
    &&& r.expires_at_unix == a.expires_at_unix
    &&& r.expires_in_secs == seconds_until(a.expires_at_unix, now)
}

/// The time left on an authorization: the seconds from now until it
/// expires, and zero once it has expired.
pub proof fn law_time_left(expires: u64, now: u64)
    ensures
        expires > now ==> seconds_until(expires, now) == expires - now,
        expires <= now ==> seconds_until(expires, now) == 0,
        seconds_until(expires, now) <= expires,
{
}

/// Ordered by action id.
pub open spec fn sorted_by_action(rs: Seq<TemporaryAuthorizationRecord>) -> bool {
    forall|i: int, j: int|
        0 <= i < j < rs.len() ==> !seq_less(#[trigger] rs[j].action_id@, #[trigger] rs[i].action_id@)
}

/// `p` says where each record comes from: record `i` reports listed entry
/// `p[i]`, every entry is reported once, and entries with the same action
/// keep their listed order.
pub open spec fn stable_placement(
    p: Seq<int>,
    rs: Seq<TemporaryAuthorizationRecord>,
    listed: Seq<TemporaryAuthorization>,
    now: u64,
) -> bool {
    &&& p.len() == rs.len() == listed.len()
    &&& forall|i: int|
        0 <= i < p.len() ==> 0 <= #[trigger] p[i] < listed.len() && reports(rs[i], listed[p[i]], now)
    &&& forall|i: int, j: int| 0 <= i < j < p.len() ==> #[trigger] p[i] != #[trigger] p[j]
    &&& forall|i: int, j: int|
        0 <= i < j < p.len() && #[trigger] rs[i].action_id@ == #[trigger] rs[j].action_id@ ==> p[i]
            < p[j]
}

/// Inserting `rec` at `k`, after every record whose action does not sort
/// after it and before those that do, keeps the records sorted and the
/// placement stable.
proof fn lemma_insert_record(
    rs: Seq<TemporaryAuthorizationRecord>,
    p: Seq<int>,
    listed: Seq<TemporaryAuthorization>,
    now: u64,
    k: int,
    rec: TemporaryAuthorizationRecord,
)
    requires
        p.len() == rs.len() < listed.len(),
        0 <= k <= rs.len(),
        forall|i: int|
            0 <= i < p.len() ==> 0 <= #[trigger] p[i] < rs.len() && reports(rs[i], listed[p[i]], now),
        forall|i: int, j: int| 0 <= i < j < p.len() ==> #[trigger] p[i] != #[trigger] p[j],
        forall|i: int, j: int|
            0 <= i < j < p.len() && #[trigger] rs[i].action_id@ == #[trigger] rs[j].action_id@
                ==> p[i] < p[j],
        sorted_by_action(rs),
        reports(rec, listed[rs.len() as int], now),
        k == 0 || !seq_less(rec.action_id@, rs[k - 1].action_id@),
        forall|m: int| k <= m < rs.len() ==> seq_less(rec.action_id@, #[trigger] rs[m].action_id@),
    ensures
        ({
            let rs2 = rs.insert(k, rec);
            let p2 = p.insert(k, rs.len() as int);
            &&& forall|i: int|
                0 <= i < p2.len() ==> 0 <= #[trigger] p2[i] < rs2.len() && reports(
                    rs2[i],
                    listed[p2[i]],
                    now,
                )
            &&& forall|i: int, j: int| 0 <= i < j < p2.len() ==> #[trigger] p2[i] != #[trigger] p2[j]
            &&& forall|i: int, j: int|
                0 <= i < j < p2.len() && #[trigger] rs2[i].action_id@ == #[trigger] rs2[j].action_id@
                    ==> p2[i] < p2[j]
            &&& sorted_by_action(rs2)
        }),
{
    let n = rs.len() as int;
    let rs2 = rs.insert(k, rec);
    let p2 = p.insert(k, n);
    assert forall|m: int| 0 <= m < k implies !seq_less(rec.action_id@, #[trigger] rs[m].action_id@) by {
        let top = rs[k - 1].action_id@;
        if seq_less(rec.action_id@, rs[m].action_id@) && m < k - 1 {
            assert(!seq_less(top, rs[m].action_id@));
            if rs[m].action_id@ == top {
            } else {
                lemma_seq_less_total(rs[m].action_id@, top);
                lemma_seq_less_transitive(rec.action_id@, rs[m].action_id@, top);
            }
        }
    }
    assert forall|i: int| 0 <= i < p2.len() implies 0 <= #[trigger] p2[i] < rs2.len() && reports(
        rs2[i],
        listed[p2[i]],
        now,
    ) by {
        if i > k {
            assert(p2[i] == p[i - 1]);
            assert(rs2[i] == rs[i - 1]);
        } else if i < k {
            assert(p2[i] == p[i]);
            assert(rs2[i] == rs[i]);
        }
    }
    assert forall|i: int, j: int| 0 <= i < j < p2.len() implies #[trigger] p2[i] != #[trigger] p2[j] by {
        if i != k && j != k {
            let a = if i < k { i } else { i - 1 };
            let b = if j < k { j } else { j - 1 };
            assert(p2[i] == p[a]);
            assert(p2[j] == p[b]);
        } else if i == k {
            assert(p2[j] == p[j - 1]);
        } else {
            assert(p2[i] == p[i]);
        }
    }
    assert forall|i: int, j: int|
        0 <= i < j < p2.len() && #[trigger] rs2[i].action_id@ == #[trigger] rs2[j].action_id@ implies p2[i]
        < p2[j] by {
        if i == k {
            assert(rs2[j] == rs[j - 1]);
            lemma_seq_less_irreflexive(rec.action_id@);
            assert(seq_less(rec.action_id@, rs[j - 1].action_id@));
        } else if j == k {
            assert(p2[i] == p[i]);
        } else {
            let a = if i < k { i } else { i - 1 };
            let b = if j < k { j } else { j - 1 };
            assert(p2[i] == p[a] && rs2[i] == rs[a]);
            assert(p2[j] == p[b] && rs2[j] == rs[b]);
        }
    }
    assert forall|i: int, j: int| 0 <= i < j < rs2.len() implies !seq_less(
        #[trigger] rs2[j].action_id@,
        #[trigger] rs2[i].action_id@,
    ) by {
        if i == k {
            assert(rs2[j] == rs[j - 1]);
            lemma_seq_less_asymmetric(rec.action_id@, rs[j - 1].action_id@);
        } else if j == k {
            assert(rs2[i] == rs[i]);
        } else {
            let a = if i < k { i } else { i - 1 };
            let b = if j < k { j } else { j - 1 };
            assert(rs2[i] == rs[a]);
            assert(rs2[j] == rs[b]);
        }
    }
}

/// Reports the listed temporary authorizations at `now_unix`, ordered by
/// action id; entries of one action keep the order in which they were
/// listed.
pub fn temporary_authorization_records(
    authorizations: &Vec<TemporaryAuthorization>,
    now_unix: u64,
) -> (r: Vec<TemporaryAuthorizationRecord>)
    ensures
        sorted_by_action(r@),
        exists|p: Seq<int>| stable_placement(p, r@, authorizations@, now_unix),
{
    let mut out: Vec<TemporaryAuthorizationRecord> = Vec::new();
    let ghost mut p: Seq<int> = seq![];
    let mut i: usize = 0;
    while i < authorizations.len()
        invariant
            i <= authorizations@.len(),
            out@.len() == i,
            p.len() == i,
            forall|m: int|
                0 <= m < p.len() ==> 0 <= #[trigger] p[m] < i && reports(
                    out@[m],
                    authorizations@[p[m]],
                    now_unix,
                ),
            forall|a: int, b: int| 0 <= a < b < p.len() ==> #[trigger] p[a] != #[trigger] p[b],
            forall|a: int, b: int|
                0 <= a < b < p.len() && #[trigger] out@[a].action_id@ == #[trigger] out@[b].action_id@
                    ==> p[a] < p[b],
            sorted_by_action(out@),
        decreases authorizations.len() - i,
    {
        let entry = &authorizations[i];
        let rec = TemporaryAuthorizationRecord {
            authorization_id: entry.authorization_id.clone(),
            action_id: entry.action_id.clone(),
            obtained_at_unix: entry.obtained_at_unix,
            expires_at_unix: entry.expires_at_unix,
            expires_in_secs: if entry.expires_at_unix > now_unix {
                entry.expires_at_unix - now_unix
            } else {
                0
            },
        };
        let mut k = out.len();
        while k > 0 && str_less(rec.action_id.as_str(), out[k - 1].action_id.as_str())
            invariant
                k <= out@.len(),
                forall|m: int| k <= m < out@.len() ==> seq_less(rec.action_id@, #[trigger] out@[m].action_id@),
            decreases k,
        {
            k -= 1;
        }
        proof {
            lemma_insert_record(out@, p, authorizations@, now_unix, k as int, rec);
            p = p.insert(k as int, i as int);
        }
        out.insert(k, rec);
        i += 1;
    }
    assert(stable_placement(p, out@, authorizations@, now_unix));
    out
}

// ---------------------------------------------------------------------------
// The subject the agent acts for
// ---------------------------------------------------------------------------

/// A value in a subject's details.
#[derive(Debug, Clone, PartialEq, Eq)]
pub enum SubjectValue {
    Str(String),
    U32(u32),
    U64(u64),
}

/// A polkit subject: its kind and its details.
#[derive(Debug)]
pub struct PolkitSubject {
    pub kind: String,
    pub details: TextMap<SubjectValue>,
}

/// The agent's own process: what a `unix-process` subject names.
#[derive(Debug, Clone, Copy, PartialEq, Eq)]
pub struct ProcessIdentity {
    pub pid: u32,
    pub uid: u32,
    pub start_time_ticks: Option<u64>,
}

pub open spec fn is_str(v: SubjectValue, s: Seq<char>) -> bool {
    v matches SubjectValue::Str(x) && x@ == s
}

/// The subject is the `unix-process` subject of `process`.
pub open spec fn names_process(s: PolkitSubject, process: ProcessIdentity) -> bool {
    &&& s.kind@ == "unix-process"@
    &&& s.details@.contains_key("pid"@)
    &&& s.details@["pid"@] == SubjectValue::U32(process.pid)
    &&& s.details@.contains_key("uid"@)
    &&& s.details@["uid"@] == SubjectValue::U32(process.uid)
    &&& match process.start_time_ticks {
        Some(t) => s.details@.contains_key("start-time"@) && s.details@["start-time"@]
            == SubjectValue::U64(t),
        None => !s.details@.contains_key("start-time"@),
    }
    &&& forall|k: Seq<char>| #[trigger]
        s.details@.contains_key(k) ==> k == "pid"@ || k == "uid"@ || k == "start-time"@
}

/// The subject is the `unix-session` subject of `session_id`.
pub open spec fn names_session(s: PolkitSubject, session_id: Seq<char>) -> bool {
    &&& s.kind@ == "unix-session"@
    &&& s.details@.contains_key("session-id"@)
    &&& is_str(s.details@["session-id"@], session_id)
    &&& forall|k: Seq<char>| #[trigger] s.details@.contains_key(k) ==> k == "session-id"@
}

/// What the subjects carry: the process subject is of kind
/// `unix-process` with the pid and uid as 32-bit numbers and the start
/// time, when known, as a 64-bit number, and nothing else; the session
/// subject is of kind `unix-session` with the session id as text, and
/// nothing else.
pub proof fn law_subject_contents(s: PolkitSubject, process: ProcessIdentity, session_id: Seq<char>)
    ensures
        names_process(s, process) ==> {
            &&& s.kind@ == "unix-process"@
            &&& s.details@.contains_key("pid"@) && s.details@["pid"@] == SubjectValue::U32(process.pid)
            &&& s.details@.contains_key("uid"@) && s.details@["uid"@] == SubjectValue::U32(process.uid)
            &&& process.start_time_ticks is Some ==> s.details@.contains_key("start-time"@)
                && s.details@["start-time"@] == SubjectValue::U64(process.start_time_ticks->0)
            &&& process.start_time_ticks is None ==> s.details@.dom() =~= set!["pid"@, "uid"@]
        },
        names_session(s, session_id) ==> {
            &&& s.kind@ == "unix-session"@
            &&& s.details@.dom() =~= set!["session-id"@]
            &&& s.details@["session-id"@] matches SubjectValue::Str(x) && x@ == session_id
        },
{
}

/// The `unix-process` subject of the agent's own process.
pub fn unix_process_subject(process: ProcessIdentity) -> (r: PolkitSubject)
    ensures
        names_process(r, process),
{
    proof {
        reveal_strlit("pid");
        reveal_strlit("uid");
        reveal_strlit("start-time");
        assert("pid"@[0] != "uid"@[0] && "pid"@[0] != "start-time"@[0] && "uid"@[0]
            != "start-time"@[0]);
    }
    let mut details: TextMap<SubjectValue> = TextMap::new();
    details.insert("pid".to_owned(), SubjectValue::U32(process.pid));
    details.insert("uid".to_owned(), SubjectValue::U32(process.uid));
    let ghost base = details@;
    if let Some(start_time) = process.start_time_ticks {
        details.insert("start-time".to_owned(), SubjectValue::U64(start_time));
        assert(details@ == base.insert("start-time"@, SubjectValue::U64(start_time)));
    }
    PolkitSubject { kind: "unix-process".to_owned(), details }
}

/// The session subject when a session id is known, else the process
/// subject.
pub fn subject_from_session_id(session_id: Option<String>, process: ProcessIdentity) -> (r:
    PolkitSubject)
    ensures
        match session_id {
            Some(id) => names_session(r, id@),
            None => names_process(r, process),
        },
{
    match session_id {
        Some(id) => {
            let mut details: TextMap<SubjectValue> = TextMap::new();
            details.insert("session-id".to_owned(), SubjectValue::Str(id));
            PolkitSubject { kind: "unix-session".to_owned(), details }
        },
        None => unix_process_subject(process),
    }
}

/// The subject a resolution stands for: its session for a session
/// resolution, else the agent's own process.
pub fn subject_to_polkit_subject(subject: &SubjectResolution, process: ProcessIdentity) -> (r:
    PolkitSubject)
    ensures
        subject.kind@ == "unix-session"@ ==> match subject.session_id {
            Some(id) => names_session(r, id@),
            None => names_process(r, process),
        },
        subject.kind@ != "unix-session"@ ==> names_process(r, process),
{
    if crate::text_map::str_eq(subject.kind.as_str(), "unix-session") {
        subject_from_session_id(subject.session_id.clone(), process)
    } else {
        unix_process_subject(process)
    }
}

// ---------------------------------------------------------------------------
// Diagnostics
// ---------------------------------------------------------------------------

/// How far a probe of the authority got.
#[derive(Debug, Clone, PartialEq, Eq)]
pub enum AuthorityProbe {
    /// The system bus could not be reached.
    BusUnavailable(String),
    /// The bus was reached but the authority did not answer.
    PingFailed(String),
    /// The authority listed this many temporary authorizations.
    Enumerated(usize),
    /// The authority answered but listing failed.
    EnumerationFailed(String),
}

/// The diagnostics report.
#[derive(Debug, Clone)]
pub struct AuthorityDiagnostics {
    pub authority_connected: bool,
    pub authority_error: Option<String>,
    pub subject: SubjectResolution,
    pub temporary_authorization_count: Option<usize>,
    pub temporary_authorization_error: Option<String>,
}

pub open spec fn opt_text(o: Option<String>) -> Option<Seq<char>> {
    match o {
        Some(s) => Some(s@),
        None => None,
    }
}

fn prefixed(prefix: &str, detail: &str) -> (r: String)
    ensures
        r@ == prefix@ + detail@,
{
    let mut r = prefix.to_owned();
    push_str(&mut r, detail);
    r
}

impl AuthorityDiagnostics {
    /// The report for `subject` after a probe that got as far as `probe`.
    pub fn from_probe(subject: SubjectResolution, probe: AuthorityProbe) -> (r: Self)
        ensures
            r.subject == subject,
            match probe {
                AuthorityProbe::BusUnavailable(e) => !r.authority_connected && opt_text(
                    r.authority_error,
                ) == Some("failed to connect to system bus: "@ + e@)
                    && r.temporary_authorization_count is None
                    && r.temporary_authorization_error is None,
                AuthorityProbe::PingFailed(e) => !r.authority_connected && opt_text(
                    r.authority_error,
                ) == Some("polkit authority ping failed: "@ + e@)
                    && r.temporary_authorization_count is None
                    && r.temporary_authorization_error is None,
                AuthorityProbe::Enumerated(n) => r.authority_connected && r.authority_error is None
                    && r.temporary_authorization_count == Some(n)
                    && r.temporary_authorization_error is None,
                AuthorityProbe::EnumerationFailed(e) => r.authority_connected
                    && r.authority_error is None && r.temporary_authorization_count is None
                    && opt_text(r.temporary_authorization_error) == Some(e@),
            },
    {
        match probe {
            AuthorityProbe::BusUnavailable(e) => AuthorityDiagnostics {
                authority_connected: false,
                authority_error: Some(prefixed("failed to connect to system bus: ", e.as_str())),
                subject,
                temporary_authorization_count: None,
                temporary_authorization_error: None,
            },
            AuthorityProbe::PingFailed(e) => AuthorityDiagnostics {
                authority_connected: false,
                authority_error: Some(prefixed("polkit authority ping failed: ", e.as_str())),
                subject,
                temporary_authorization_count: None,
                temporary_authorization_error: None,
            },
            AuthorityProbe::Enumerated(n) => AuthorityDiagnostics {
                authority_connected: true,
                authority_error: None,
                subject,
                temporary_authorization_count: Some(n),
                temporary_authorization_error: None,
            },
            AuthorityProbe::EnumerationFailed(e) => AuthorityDiagnostics {
                authority_connected: true,
                authority_error: None,
                subject,
                temporary_authorization_count: None,
                temporary_authorization_error: Some(e),
            },
        }
    }
}

} // verus!
