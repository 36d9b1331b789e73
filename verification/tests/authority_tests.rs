use garcard::authority::{
    subject_from_session_id, subject_to_polkit_subject, temporary_authorization_records,
    unix_process_subject, AuthorityDiagnostics, AuthorityProbe, ProcessIdentity, SubjectValue,
    TemporaryAuthorization,
};
use garcard::runtime::SubjectResolution;

fn this_process() -> ProcessIdentity {
    ProcessIdentity {
        pid: 4242,
        uid: 1000,
        start_time_ticks: Some(98_765),
    }
}

fn auth(id: &str, action: &str, obtained: u64, expires: u64) -> TemporaryAuthorization {
    TemporaryAuthorization {
        authorization_id: id.to_string(),
        action_id: action.to_string(),
        obtained_at_unix: obtained,
        expires_at_unix: expires,
    }
}

#[test]
fn subject_from_session_id_prefers_unix_session_kind() {
    let subject = subject_from_session_id(Some("1".to_string()), this_process());
    assert_eq!(subject.kind.as_str(), "unix-session");
    let session_id = match subject.details.get("session-id") {
        Some(SubjectValue::Str(value)) => Some(value.as_str()),
        _ => None,
    };
    assert_eq!(session_id, Some("1"));
}

#[test]
fn subject_from_session_id_falls_back_to_unix_process_kind() {
    let subject = subject_from_session_id(None, this_process());
    assert_eq!(subject.kind.as_str(), "unix-process");
    assert!(subject.details.contains_key("pid"));
    assert!(subject.details.contains_key("uid"));
    assert!(subject.details.contains_key("start-time"));
}

#[test]
fn subject_to_polkit_subject_uses_session_resolution() {
    let resolution = SubjectResolution {
        kind: "unix-session".to_string(),
        session_id: Some("42".to_string()),
        pid: None,
        uid: None,
        start_time_ticks: None,
        has_start_time: false,
    };

    let subject = subject_to_polkit_subject(&resolution, this_process());
    assert_eq!(subject.kind.as_str(), "unix-session");
    let session_id = match subject.details.get("session-id") {
        Some(SubjectValue::Str(value)) => Some(value.as_str()),
        _ => None,
    };
    assert_eq!(session_id, Some("42"));
}

#[test]
fn subject_to_polkit_subject_falls_back_to_unix_process_resolution() {
    let process = this_process();
    let resolution = SubjectResolution {
        kind: "unix-process".to_string(),
        session_id: None,
        pid: Some(process.pid),
        uid: Some(process.uid),
        start_time_ticks: process.start_time_ticks,
        has_start_time: true,
    };

    let subject = subject_to_polkit_subject(&resolution, process);
    assert_eq!(subject.kind.as_str(), "unix-process");
    assert!(subject.details.contains_key("pid"));
    assert!(subject.details.contains_key("uid"));
}

#[test]
fn process_subject_carries_pid_uid_and_start_time() {
    let subject = unix_process_subject(this_process());
    assert_eq!(subject.details.get("pid"), Some(&SubjectValue::U32(4242)));
    assert_eq!(subject.details.get("uid"), Some(&SubjectValue::U32(1000)));
    assert_eq!(subject.details.get("start-time"), Some(&SubjectValue::U64(98_765)));
    assert_eq!(subject.details.len(), 3);

    let without_start = unix_process_subject(ProcessIdentity {
        pid: 7,
        uid: 0,
        start_time_ticks: None,
    });
    assert!(!without_start.details.contains_key("start-time"));
    assert_eq!(without_start.details.len(), 2);
}

#[test]
fn temporary_records_sort_by_action_and_keep_listing_order() {
    let listed = vec![
        auth("a1", "org.zeta.run", 10, 500),
        auth("a2", "org.alpha.mount", 20, 90),
        auth("a3", "org.zeta.run", 30, 700),
        auth("a4", "org.alpha.mount", 40, 1_000),
        auth("a5", "org.beta", 50, 100),
    ];
    let records = temporary_authorization_records(&listed, 100);
    let order: Vec<&str> = records.iter().map(|r| r.authorization_id.as_str()).collect();
    assert_eq!(order, vec!["a2", "a4", "a5", "a1", "a3"]);
    let left: Vec<u64> = records.iter().map(|r| r.expires_in_secs).collect();
    assert_eq!(left, vec![0, 900, 0, 400, 600]);
    assert_eq!(records[0].obtained_at_unix, 20);
    assert_eq!(records[0].expires_at_unix, 90);
    assert_eq!(records[0].action_id, "org.alpha.mount");
}

#[test]
fn temporary_records_of_nothing_is_empty() {
    assert!(temporary_authorization_records(&Vec::new(), 5).is_empty());
}

#[test]
fn temporary_records_order_prefixes_first() {
    let listed = vec![auth("x", "org.a.b", 0, 0), auth("y", "org.a", 0, 0)];
    let records = temporary_authorization_records(&listed, 0);
    assert_eq!(records[0].authorization_id, "y");
    assert_eq!(records[1].authorization_id, "x");
}

fn session_resolution() -> SubjectResolution {
    SubjectResolution {
        kind: "unix-session".to_string(),
        session_id: Some("3".to_string()),
        pid: None,
        uid: None,
        start_time_ticks: None,
        has_start_time: false,
    }
}

#[test]
fn diagnostics_report_each_probe_stage() {
    let d = AuthorityDiagnostics::from_probe(
        session_resolution(),
        AuthorityProbe::BusUnavailable("no bus".to_string()),
    );
    assert!(!d.authority_connected);
    assert_eq!(d.authority_error.as_deref(), Some("failed to connect to system bus: no bus"));
    assert_eq!(d.temporary_authorization_count, None);

    let d = AuthorityDiagnostics::from_probe(
        session_resolution(),
        AuthorityProbe::PingFailed("timeout".to_string()),
    );
    assert!(!d.authority_connected);
    assert_eq!(d.authority_error.as_deref(), Some("polkit authority ping failed: timeout"));

    let d = AuthorityDiagnostics::from_probe(session_resolution(), AuthorityProbe::Enumerated(4));
    assert!(d.authority_connected);
    assert_eq!(d.authority_error, None);
    assert_eq!(d.temporary_authorization_count, Some(4));
    assert_eq!(d.temporary_authorization_error, None);
    assert_eq!(d.subject.session_id.as_deref(), Some("3"));

    let d = AuthorityDiagnostics::from_probe(
        session_resolution(),
        AuthorityProbe::EnumerationFailed("denied".to_string()),
    );
    assert!(d.authority_connected);
    assert_eq!(d.temporary_authorization_count, None);
    assert_eq!(d.temporary_authorization_error.as_deref(), Some("denied"));
}
