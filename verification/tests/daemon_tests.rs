use garcard::daemon::{
    init_backend, reconnect_backend, validate_ipc_peer_uid, validate_polkit_config,
    AgentBackend, AgentBackendMode, AuthAgentBackend, BackendError, Config, PolkitBackendConfig,
    StubPolkitAgent,
};
use std::sync::atomic::{AtomicUsize, Ordering};
use std::sync::Arc;

#[derive(Debug)]
struct TrackingBackend {
    unregister_calls: Arc<AtomicUsize>,
    register_calls: Arc<AtomicUsize>,
    active_auth: bool,
}

impl AuthAgentBackend for TrackingBackend {
    fn name(&self) -> &'static str {
        "tracking-backend"
    }

    fn register(&mut self) -> Result<(), BackendError> {
        self.register_calls.fetch_add(1, Ordering::Relaxed);
        Ok(())
    }

    fn unregister(&mut self) -> Result<(), BackendError> {
        self.unregister_calls.fetch_add(1, Ordering::Relaxed);
        Ok(())
    }

    fn has_active_auth(&self) -> bool {
        self.active_auth
    }
}

#[test]
fn reconnect_backend_calls_unregister_then_register() {
    let unregister_calls = Arc::new(AtomicUsize::new(0));
    let register_calls = Arc::new(AtomicUsize::new(0));
    let mut backend = TrackingBackend {
        unregister_calls: Arc::clone(&unregister_calls),
        register_calls: Arc::clone(&register_calls),
        active_auth: false,
    };

    reconnect_backend(&mut backend).expect("reconnect");
    assert_eq!(unregister_calls.load(Ordering::Relaxed), 1);
    assert_eq!(register_calls.load(Ordering::Relaxed), 1);
}

#[test]
fn reconnect_backend_skips_when_authentication_is_active() {
    let unregister_calls = Arc::new(AtomicUsize::new(0));
    let register_calls = Arc::new(AtomicUsize::new(0));
    let mut backend = TrackingBackend {
        unregister_calls: Arc::clone(&unregister_calls),
        register_calls: Arc::clone(&register_calls),
        active_auth: true,
    };

    reconnect_backend(&mut backend).expect("reconnect should be skipped");
    assert_eq!(unregister_calls.load(Ordering::Relaxed), 0);
    assert_eq!(register_calls.load(Ordering::Relaxed), 0);
}

#[test]
fn validate_ipc_peer_uid_allows_daemon_owner() {
    assert!(validate_ipc_peer_uid(1000, 1000).is_ok());
}

#[test]
fn validate_ipc_peer_uid_rejects_other_user() {
    let err = validate_ipc_peer_uid(1001, 1000).expect_err("must fail");
    assert!(err.message().contains("does not match daemon uid"));
    assert_eq!(err.message(), "IPC peer uid 1001 does not match daemon uid 1000");
}

#[test]
fn stub_backend_always_registers() {
    let mut stub = StubPolkitAgent;
    assert_eq!(stub.name(), "stub-polkit-agent");
    assert!(stub.register().is_ok());
    assert!(stub.unregister().is_ok());
    assert!(!stub.has_active_auth());
    assert!(stub.maintain().is_ok());
    assert!(reconnect_backend(&mut stub).is_ok());
}

fn tracking_backend(register_calls: &Arc<AtomicUsize>) -> TrackingBackend {
    TrackingBackend {
        unregister_calls: Arc::new(AtomicUsize::new(0)),
        register_calls: Arc::clone(register_calls),
        active_auth: false,
    }
}

fn config(mode: AgentBackendMode, object_path: &str) -> Config {
    Config {
        socket_path: "/tmp/garcard-test.sock".to_string(),
        socket_mode: 0o600,
        agent_backend: mode,
        polkit_object_path: object_path.to_string(),
        locale: "C".to_string(),
        backend_healthcheck_secs: 5,
    }
}

#[test]
fn auto_backend_falls_back_to_stub_for_bad_object_path() {
    let register_calls = Arc::new(AtomicUsize::new(0));
    let config = config(AgentBackendMode::Auto, "invalid path");

    let backend = init_backend(&config, |_settings| Ok(tracking_backend(&register_calls)))
        .expect("auto mode should fall back");
    assert_eq!(backend.name(), "stub-polkit-agent");
    assert_eq!(register_calls.load(Ordering::Relaxed), 0);
}

#[test]
fn polkit_agent_rejects_invalid_object_path() {
    let result = validate_polkit_config(PolkitBackendConfig {
        object_path: "invalid path".to_string(),
        locale: "C".to_string(),
    });
    assert!(result.is_err());
}

#[test]
fn invalid_object_path_error_message_mentions_path() {
    let err = match validate_polkit_config(PolkitBackendConfig {
        object_path: "invalid path".to_string(),
        locale: "C".to_string(),
    }) {
        Ok(_) => panic!("invalid object path should fail"),
        Err(err) => err,
    };
    assert!(err.message.contains("invalid polkit object path"));
    assert_eq!(err.message, "invalid polkit object path: Invalid object path");
}

#[test]
fn object_paths_follow_dbus_rules() {
    for path in ["/", "/org/gardesk/PolkitAgent", "/a_1/B2"] {
        let ok = validate_polkit_config(PolkitBackendConfig {
            object_path: path.to_string(),
            locale: "C".to_string(),
        });
        assert!(ok.is_ok(), "{path}");
    }
    for path in ["", "org", "//", "/a/", "/ha.d", "/a//b", "/é"] {
        let bad = validate_polkit_config(PolkitBackendConfig {
            object_path: path.to_string(),
            locale: "C".to_string(),
        });
        assert!(bad.is_err(), "{path}");
    }
}

#[test]
fn polkit_backend_is_created_and_registered_for_a_valid_path() {
    let register_calls = Arc::new(AtomicUsize::new(0));
    let config = config(AgentBackendMode::Polkit, "/org/gardesk/PolkitAgent");
    let backend = init_backend(&config, |settings| {
        assert_eq!(settings.object_path, "/org/gardesk/PolkitAgent");
        Ok(tracking_backend(&register_calls))
    })
    .expect("polkit backend");
    assert!(matches!(backend, AgentBackend::Polkit(_)));
    assert_eq!(backend.name(), "tracking-backend");
    assert_eq!(register_calls.load(Ordering::Relaxed), 1);
}

#[test]
fn polkit_mode_reports_start_failure_and_auto_falls_back() {
    let failing = |_settings: PolkitBackendConfig| -> Result<TrackingBackend, BackendError> {
        Err(BackendError { message: "no system bus".to_string() })
    };
    let err = init_backend(&config(AgentBackendMode::Polkit, "/org/x"), failing)
        .expect_err("polkit mode must fail");
    assert_eq!(err.message, "no system bus");
    let backend = init_backend(&config(AgentBackendMode::Auto, "/org/x"), failing).expect("auto");
    assert_eq!(backend.name(), "stub-polkit-agent");
    let stub = init_backend(&config(AgentBackendMode::Stub, "invalid path"), failing).expect("stub");
    assert_eq!(stub.name(), "stub-polkit-agent");
}

#[derive(Debug)]
struct FlakyBackend {
    register_calls: Arc<AtomicUsize>,
    fail_unregister: bool,
    fail_register: bool,
}

impl AuthAgentBackend for FlakyBackend {
    fn name(&self) -> &'static str {
        "flaky-backend"
    }

    fn register(&mut self) -> Result<(), BackendError> {
        self.register_calls.fetch_add(1, Ordering::Relaxed);
        if self.fail_register {
            return Err(BackendError { message: "register refused".to_string() });
        }
        Ok(())
    }

    fn unregister(&mut self) -> Result<(), BackendError> {
        if self.fail_unregister {
            return Err(BackendError { message: "unregister refused".to_string() });
        }
        Ok(())
    }
}

#[test]
fn reconnect_backend_stops_at_first_error() {
    let register_calls = Arc::new(AtomicUsize::new(0));
    let mut backend = FlakyBackend {
        register_calls: Arc::clone(&register_calls),
        fail_unregister: true,
        fail_register: false,
    };
    let err = reconnect_backend(&mut backend).expect_err("unregister fails");
    assert_eq!(err.message, "unregister refused");
    assert_eq!(register_calls.load(Ordering::Relaxed), 0);

    backend.fail_unregister = false;
    backend.fail_register = true;
    let err = reconnect_backend(&mut backend).expect_err("register fails");
    assert_eq!(err.message, "register refused");
    assert_eq!(register_calls.load(Ordering::Relaxed), 1);
}

#[test]
fn agent_backend_forwards_to_the_polkit_agent() {
    let register_calls = Arc::new(AtomicUsize::new(0));
    let mut backend = AgentBackend::Polkit(FlakyBackend {
        register_calls: Arc::clone(&register_calls),
        fail_unregister: true,
        fail_register: true,
    });
    assert_eq!(backend.name(), "flaky-backend");
    assert_eq!(backend.register().expect_err("forwarded").message, "register refused");
    assert_eq!(backend.unregister().expect_err("forwarded").message, "unregister refused");
    assert!(backend.maintain().is_ok());
    assert_eq!(register_calls.load(Ordering::Relaxed), 1);
}

#[test]
fn init_backend_hands_path_and_locale_and_reports_register_failure() {
    let register_calls = Arc::new(AtomicUsize::new(0));
    let mut cfg = config(AgentBackendMode::Polkit, "/org/gardesk/PolkitAgent");
    cfg.locale = "de_DE.UTF-8".to_string();
    let start = |settings: PolkitBackendConfig| -> Result<FlakyBackend, BackendError> {
        assert_eq!(settings.object_path, "/org/gardesk/PolkitAgent");
        assert_eq!(settings.locale, "de_DE.UTF-8");
        Ok(FlakyBackend {
            register_calls: Arc::clone(&register_calls),
            fail_unregister: false,
            fail_register: true,
        })
    };
    let err = init_backend(&cfg, start).expect_err("register fails");
    assert_eq!(err.message, "register refused");
    cfg.agent_backend = AgentBackendMode::Auto;
    let start = |settings: PolkitBackendConfig| -> Result<FlakyBackend, BackendError> {
        assert_eq!(settings.locale, "de_DE.UTF-8");
        Ok(FlakyBackend {
            register_calls: Arc::clone(&register_calls),
            fail_unregister: false,
            fail_register: true,
        })
    };
    let backend = init_backend(&cfg, start).expect("auto falls back");
    assert_eq!(backend.name(), "stub-polkit-agent");
    assert_eq!(register_calls.load(Ordering::Relaxed), 2);
}
