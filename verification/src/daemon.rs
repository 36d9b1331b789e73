//! Daemon rules: which IPC peers are served, and how an agent backend is
//! reconnected.
use crate::text::{decimal, decimal_string};
use vstd::prelude::*;
use vstd::string::*;

verus! {

/// Why a backend operation failed.
#[derive(Debug, Clone, PartialEq, Eq)]
pub struct BackendError {
    pub message: String,
}

/// Backend interface for Polkit agent integration.
pub trait AuthAgentBackend {
    fn name(&self) -> &'static str;

    fn register(&mut self) -> Result<(), BackendError>;

    fn unregister(&mut self) -> Result<(), BackendError>;

    /// Whether an authentication is in progress; a backend that does not
    /// say reports none.
    fn has_active_auth(&self) -> (r: bool)
        default_ensures
            !r,
    {
        false
    }

    /// Keeps the registration healthy; a backend that does not say has
    /// nothing to keep and succeeds.
    fn maintain(&mut self) -> (r: Result<(), BackendError>)
        default_ensures
            r is Ok,
    {
        Ok(())
    }
}

/// Backend that registers nowhere; used when polkit is unavailable.
#[derive(Debug, Default)]
pub struct StubPolkitAgent;

impl AuthAgentBackend for StubPolkitAgent {
    fn name(&self) -> (r: &'static str)
        ensures
            r@ == "stub-polkit-agent"@,
    {
        "stub-polkit-agent"
    }

    fn register(&mut self) -> (r: Result<(), BackendError>)
        ensures
            r is Ok,
    {
        Ok(())
    }

    fn unregister(&mut self) -> (r: Result<(), BackendError>)
        ensures
            r is Ok,
    {
        Ok(())
    }
}

/// Runtime configuration for the real Polkit backend.
#[derive(Debug, Clone)]
pub struct PolkitBackendConfig {
    pub object_path: String,
    pub locale: String,
}

/// Re-registers the backend, unless an authentication is in progress:
/// asks `has_active_auth` once; when it answers no, calls `unregister` and,
/// only if that succeeded, `register` on the backend it left. The result
/// is the first error, or `Ok`.
pub fn reconnect_backend<B: AuthAgentBackend>(backend: &mut B) -> (r: Result<(), BackendError>)
    ensures
        (forall|a: bool| call_ensures(B::has_active_auth, (&*old(backend),), a) ==> a) ==> (r is Ok
            && *final(backend) == *old(backend)),
        r is Err ==> call_ensures(B::has_active_auth, (&*old(backend),), false),
        exists|a: bool|
            {
                &&& #[trigger] call_ensures(B::has_active_auth, (&*old(backend),), a)
                &&& a ==> r is Ok && *final(backend) == *old(backend)
                &&& !a ==> exists|m1: &mut B, u: Result<(), BackendError>|
                    {
                        &&& *m1 == *old(backend)
                        &&& #[trigger] call_ensures(B::unregister, (m1,), u)
                        &&& match u {
                            Err(e) => r == Err::<(), BackendError>(e)
                                && *final(m1) == *final(backend),
                            Ok(_) => exists|m2: &mut B|
                                {
                                    &&& *m2 == *final(m1)
                                    &&& #[trigger] call_ensures(B::register, (m2,), r)
                                    &&& *final(m2) == *final(backend)
                                },
                        }
                    }
            },
{
    if backend.has_active_auth() {
        return Ok(());
    }
    match backend.unregister() {
        Err(e) => return Err(e),
        Ok(()) => {},
    }
    backend.register()
}

/// An IPC client running as another user.
#[derive(Debug, Clone, Copy, PartialEq, Eq, Structural)]
pub struct IpcPeerError {
    pub peer_uid: u32,
    pub expected_uid: u32,
}

pub open spec fn peer_error_message(peer: u32, expected: u32) -> Seq<char> {
    "IPC peer uid "@ + decimal(peer as nat) + " does not match daemon uid "@ + decimal(
        expected as nat,
    )
}

impl IpcPeerError {
    pub fn message(&self) -> (r: String)
        ensures
            r@ == peer_error_message(self.peer_uid, self.expected_uid),
    {
        let mut r = "IPC peer uid ".to_owned();
        let peer = decimal_string(self.peer_uid as u64);
        r.append(peer.as_str());
        r.append(" does not match daemon uid ");
        let expected = decimal_string(self.expected_uid as u64);
        r.append(expected.as_str());
        r
    }
}

/// Only the daemon's own user may talk to it.
pub fn validate_ipc_peer_uid(peer_uid: u32, expected_uid: u32) -> (r: Result<(), IpcPeerError>)
    ensures
        r is Ok <==> peer_uid == expected_uid,
        r matches Err(e) ==> e == (IpcPeerError { peer_uid, expected_uid }),
{
    if peer_uid != expected_uid {
        return Err(IpcPeerError { peer_uid, expected_uid });
    }
    Ok(())
}

// ---------------------------------------------------------------------------
// Choosing the backend
// ---------------------------------------------------------------------------

/// Which agent backend the daemon runs.
#[derive(Debug, Clone, Copy, PartialEq, Eq, Structural)]
pub enum AgentBackendMode {
    /// The polkit backend, or the stub when it cannot start.
    Auto,
    Stub,
    Polkit,
}

/// Daemon settings.
#[derive(Debug, Clone)]
pub struct Config {
    pub socket_path: String,
    pub socket_mode: u32,
    pub agent_backend: AgentBackendMode,
    pub polkit_object_path: String,
    pub locale: String,
    pub backend_healthcheck_secs: u64,
}

pub open spec fn is_path_element_char(c: char) -> bool {
    ('a' <= c && c <= 'z') || ('A' <= c && c <= 'Z') || ('0' <= c && c <= '9') || c == '_'
}

/// A D-Bus object path: `/`, or `/` followed by non-empty elements of
/// ASCII letters, digits and `_`, separated by single `/`.
pub open spec fn is_object_path(s: Seq<char>) -> bool {
    &&& s.len() >= 1
    &&& s[0] == '/'
    &&& forall|i: int| 1 <= i < s.len() ==> #[trigger] s[i] == '/' || is_path_element_char(s[i])
    &&& forall|i: int| 0 <= i < s.len() - 1 ==> !(#[trigger] s[i] == '/' && s[i + 1] == '/')
    &&& s.len() > 1 ==> s.last() != '/'
}

/// What makes a D-Bus object path: `/` alone is one; a path must start with
/// `/`, may not end with `/` (unless it is just `/`), may not hold `//`,
/// and may hold only ASCII letters, digits, `_` and `/`. Every path of
/// elements made of those characters, each after a single `/`, is one.
pub proof fn law_object_path_rules(s: Seq<char>, i: int, e: Seq<char>)
    ensures
        is_object_path(seq!['/']),
        s.len() == 0 ==> !is_object_path(s),
        s.len() > 0 && s[0] != '/' ==> !is_object_path(s),
        s.len() > 1 && s.last() == '/' ==> !is_object_path(s),
        0 <= i < s.len() - 1 && s[i] == '/' && s[i + 1] == '/' ==> !is_object_path(s),
        0 <= i < s.len() && s[i] != '/' && !(('a' <= s[i] && s[i] <= 'z') || ('A' <= s[i] && s[i]
            <= 'Z') || ('0' <= s[i] && s[i] <= '9') || s[i] == '_') ==> !is_object_path(s),
        is_object_path(s) && e.len() > 0 && (forall|k: int|
            0 <= k < e.len() ==> #[trigger] is_path_element_char(e[k])) ==> is_object_path(
            if s.len() == 1 {
                s + e
            } else {
                s + seq!['/'] + e
            },
        ),
{
    if is_object_path(s) && e.len() > 0 && (forall|k: int|
        0 <= k < e.len() ==> #[trigger] is_path_element_char(e[k])) {
        let t = if s.len() == 1 {
            s + e
        } else {
            s + seq!['/'] + e
        };
        let off = t.len() - e.len();
        assert(e.len() > 0 && is_path_element_char(e[0]));
        assert forall|k: int| 1 <= k < t.len() implies #[trigger] t[k] == '/' || is_path_element_char(
            t[k],
        ) by {
            if k >= off {
                assert(t[k] == e[k - off]);
                assert(is_path_element_char(e[k - off]));
            } else if k < s.len() {
                assert(t[k] == s[k]);
            }
        }
        assert forall|k: int| 0 <= k < t.len() - 1 implies !(#[trigger] t[k] == '/' && t[k + 1] == '/') by {
            if k >= off {
                assert(t[k] == e[k - off]);
                assert(is_path_element_char(e[k - off]));
            } else if k + 1 == off {
                assert(t[k + 1] == e[0]);
            } else if k + 1 == s.len() {
                assert(t[k] == s[k]);
                assert(s.last() == s[k]);
            } else {
                assert(t[k] == s[k] && t[k + 1] == s[k + 1]);
            }
        }
        assert(t.last() == e.last());
        assert(is_path_element_char(e[e.len() - 1]));
    }
}

/// `zbus::zvariant::ObjectPath::try_from` on a string, kept to its error
/// text: it accepts exactly the D-Bus object paths, and its only error,
/// `Error::InvalidObjectPath`, displays as `Invalid object path`.
#[verifier::external_body]
fn object_path_error(path: &str) -> (r: Option<String>)
    ensures
        r is None <==> is_object_path(path@),
        r matches Some(t) ==> t@ == "Invalid object path"@,
{
    match zbus::zvariant::ObjectPath::try_from(path) {
        Ok(_) => None,
        Err(e) => Some(e.to_string()),
    }
}

pub open spec fn invalid_path_message() -> Seq<char> {
    "invalid polkit object path: Invalid object path"@
}

/// Accepts the polkit backend settings when the object path is valid.
pub fn validate_polkit_config(config: PolkitBackendConfig) -> (r: Result<
    PolkitBackendConfig,
    BackendError,
>)
    ensures
        match r {
            Ok(c) => c.object_path@ == config.object_path@ && c.locale@ == config.locale@
                && is_object_path(config.object_path@),
            Err(e) => !is_object_path(config.object_path@) && e.message@ == invalid_path_message(),
        },
{
    match object_path_error(config.object_path.as_str()) {
        None => Ok(config),
        Some(detail) => {
            let mut message = "invalid polkit object path: ".to_owned();
            message.append(detail.as_str());
            proof {
                reveal_strlit("invalid polkit object path: ");
                reveal_strlit("Invalid object path");
                reveal_strlit("invalid polkit object path: Invalid object path");
                assert(message@ =~= invalid_path_message());
            }
            Err(BackendError { message })
        },
    }
}

/// The backend the daemon runs: the stub, or the polkit agent `P`.
#[derive(Debug)]
pub enum AgentBackend<P> {
    Stub(StubPolkitAgent),
    Polkit(P),
}

impl<P: AuthAgentBackend> AuthAgentBackend for AgentBackend<P> {
    fn name(&self) -> (r: &'static str)
        ensures
            self is Stub ==> r@ == "stub-polkit-agent"@,
            self matches AgentBackend::Polkit(b) ==> call_ensures(P::name, (&b,), r),
    {
        match self {
            AgentBackend::Stub(b) => b.name(),
            AgentBackend::Polkit(b) => b.name(),
        }
    }

    fn register(&mut self) -> (r: Result<(), BackendError>)
        ensures
            *old(self) is Stub ==> r is Ok && *final(self) is Stub,
            *old(self) is Polkit ==> *final(self) is Polkit,
            *old(self) matches AgentBackend::Polkit(b) ==> exists|m: &mut P|
                {
                    &&& *m == b
                    &&& #[trigger] call_ensures(P::register, (m,), r)
                    &&& *final(self) == AgentBackend::<P>::Polkit(*final(m))
                },
    {
        match self {
            AgentBackend::Stub(b) => b.register(),
            AgentBackend::Polkit(b) => b.register(),
        }
    }

    fn unregister(&mut self) -> (r: Result<(), BackendError>)
        ensures
            *old(self) is Stub ==> r is Ok && *final(self) is Stub,
            *old(self) is Polkit ==> *final(self) is Polkit,
            *old(self) matches AgentBackend::Polkit(b) ==> exists|m: &mut P|
                {
                    &&& *m == b
                    &&& #[trigger] call_ensures(P::unregister, (m,), r)
                    &&& *final(self) == AgentBackend::<P>::Polkit(*final(m))
                },
    {
        match self {
            AgentBackend::Stub(b) => b.unregister(),
            AgentBackend::Polkit(b) => b.unregister(),
        }
    }

    fn has_active_auth(&self) -> (r: bool)
        ensures
            self is Stub ==> !r,
            self matches AgentBackend::Polkit(b) ==> call_ensures(P::has_active_auth, (&b,), r),
    {
        match self {
            AgentBackend::Stub(b) => b.has_active_auth(),
            AgentBackend::Polkit(b) => b.has_active_auth(),
        }
    }

    fn maintain(&mut self) -> (r: Result<(), BackendError>)
        ensures
            *old(self) is Stub ==> r is Ok && *final(self) is Stub,
            *old(self) is Polkit ==> *final(self) is Polkit,
            *old(self) matches AgentBackend::Polkit(b) ==> exists|m: &mut P|
                {
                    &&& *m == b
                    &&& #[trigger] call_ensures(P::maintain, (m,), r)
                    &&& *final(self) == AgentBackend::<P>::Polkit(*final(m))
                },
    {
        match self {
            AgentBackend::Stub(b) => b.maintain(),
            AgentBackend::Polkit(b) => b.maintain(),
        }
    }
}

/// Starts the polkit agent: validates its settings, creates it with
/// `start_polkit` from the configured object path and locale, and registers
/// it. The result is the first error, or the registered agent.
fn start_polkit_backend<P: AuthAgentBackend, F: FnOnce(PolkitBackendConfig) -> Result<P, BackendError>>(
    config: &Config,
    start_polkit: F,
) -> (r: Result<P, BackendError>)
    requires
        forall|c: PolkitBackendConfig| call_requires(start_polkit, (c,)),
    ensures
        !is_object_path(config.polkit_object_path@) ==> (r matches Err(e) && e.message@
            == invalid_path_message()),
        is_object_path(config.polkit_object_path@) ==> exists|
            c: PolkitBackendConfig,
            s: Result<P, BackendError>,
        |
            {
                &&& c.object_path@ == config.polkit_object_path@
                &&& c.locale@ == config.locale@
                &&& #[trigger] call_ensures(start_polkit, (c,), s)
                &&& match s {
                    Err(e) => r == Err::<P, BackendError>(e),
                    Ok(b) => exists|m: &mut P, u: Result<(), BackendError>|
                        {
                            &&& *m == b
                            &&& #[trigger] call_ensures(P::register, (m,), u)
                            &&& match u {
                                Err(e) => r == Err::<P, BackendError>(e),
                                Ok(_) => r == Ok::<P, BackendError>(*final(m)),
                            }
                        },
                }
            },
{
    let settings = match validate_polkit_config(
        PolkitBackendConfig {
            object_path: config.polkit_object_path.clone(),
            locale: config.locale.clone(),
        },
    ) {
        Ok(c) => c,
        Err(e) => return Err(e),
    };
    let mut backend = match start_polkit(settings) {
        Ok(b) => b,
        Err(e) => return Err(e),
    };
    match backend.register() {
        Ok(()) => Ok(backend),
        Err(e) => Err(e),
    }
}

/// Starts the configured backend. `Stub` runs the stub. `Polkit` creates
/// the polkit agent with `start_polkit` from the configured object path
/// and locale and registers it, and reports the first failure. `Auto` does
/// the same but falls back to the stub exactly when one of those steps
/// failed, so it never fails.
pub fn init_backend<P: AuthAgentBackend, F: FnOnce(PolkitBackendConfig) -> Result<P, BackendError>>(
    config: &Config,
    start_polkit: F,
) -> (r: Result<AgentBackend<P>, BackendError>)
    requires
        forall|c: PolkitBackendConfig| call_requires(start_polkit, (c,)),
    ensures
        config.agent_backend == AgentBackendMode::Stub ==> r matches Ok(AgentBackend::Stub(_)),
        config.agent_backend == AgentBackendMode::Auto ==> r is Ok,
        config.agent_backend == AgentBackendMode::Auto && !is_object_path(config.polkit_object_path@)
            ==> r matches Ok(AgentBackend::Stub(_)),
        config.agent_backend == AgentBackendMode::Polkit ==> !(r matches Ok(AgentBackend::Stub(_))),
        config.agent_backend == AgentBackendMode::Polkit && !is_object_path(
            config.polkit_object_path@,
        ) ==> (r matches Err(e) && e.message@ == invalid_path_message()),
        r matches Ok(AgentBackend::Polkit(_)) ==> is_object_path(config.polkit_object_path@),
        config.agent_backend != AgentBackendMode::Stub && is_object_path(
            config.polkit_object_path@,
        ) ==> exists|c: PolkitBackendConfig, s: Result<P, BackendError>|
            {
                &&& c.object_path@ == config.polkit_object_path@
                &&& c.locale@ == config.locale@
                &&& #[trigger] call_ensures(start_polkit, (c,), s)
                &&& match s {
                    Err(e) => failed_start(config.agent_backend, e, r),
                    Ok(b) => exists|m: &mut P, u: Result<(), BackendError>|
                        {
                            &&& *m == b
                            &&& #[trigger] call_ensures(P::register, (m,), u)
                            &&& match u {
                                Err(e) => failed_start(config.agent_backend, e, r),
                                Ok(_) => r == Ok::<AgentBackend<P>, BackendError>(
                                    AgentBackend::Polkit(*final(m)),
                                ),
                            }
                        },
                }
            },
{
    match config.agent_backend {
        AgentBackendMode::Stub => {
            let mut stub = StubPolkitAgent;
            let _ = stub.register();
            Ok(AgentBackend::Stub(stub))
        },
        AgentBackendMode::Polkit => match start_polkit_backend(config, start_polkit) {
            Ok(backend) => Ok(AgentBackend::Polkit(backend)),
            Err(e) => Err(e),
        },
        AgentBackendMode::Auto => match start_polkit_backend(config, start_polkit) {
            Ok(backend) => Ok(AgentBackend::Polkit(backend)),
            Err(_) => {
                let mut stub = StubPolkitAgent;
                let _ = stub.register();
                Ok(AgentBackend::Stub(stub))
            },
        },
    }
}

/// What the daemon is left with when starting the polkit agent failed
/// with `e`: in `Polkit` mode that error, in `Auto` mode the stub.
pub open spec fn failed_start<P>(
    mode: AgentBackendMode,
    e: BackendError,
    r: Result<AgentBackend<P>, BackendError>,
) -> bool {
    &&& mode == AgentBackendMode::Polkit ==> r == Err::<AgentBackend<P>, BackendError>(e)
    &&& mode == AgentBackendMode::Auto ==> r matches Ok(AgentBackend::Stub(_))
}

} // verus!
