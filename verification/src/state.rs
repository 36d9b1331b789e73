//! Auth workflow state: the phase machine, the counters and last decision
//! reported to IPC clients, and the single-active FIFO request queue.
use std::collections::VecDeque;
use vstd::prelude::*;
use vstd::string::*;

verus! {

/// Typed phases for auth flow transitions.
#[derive(Debug, Clone, Copy, PartialEq, Eq, Structural)]
pub enum AuthPhase {
    Idle,
    PendingPrompt,
    Verifying,
    Success,
    Failure,
    Canceled,
    Timeout,
}

/// The label a phase is reported under.
pub open spec fn phase_label(p: AuthPhase) -> Seq<char> {
    match p {
        AuthPhase::Idle => "idle"@,
        AuthPhase::PendingPrompt => "pending_prompt"@,
        AuthPhase::Verifying => "verifying"@,
        AuthPhase::Success => "success"@,
        AuthPhase::Failure => "failure"@,
        AuthPhase::Canceled => "canceled"@,
        AuthPhase::Timeout => "timeout"@,
    }
}

/// Phases that end an auth attempt.
pub open spec fn is_terminal(p: AuthPhase) -> bool {
    p is Success || p is Failure || p is Canceled || p is Timeout
}

/// The phase graph: staying put is always allowed; otherwise
/// Idle -> PendingPrompt -> Verifying -> outcome, with cancel/timeout possible
/// while prompting or verifying, and an outcome leading back to Idle or to a
/// new prompt.
pub open spec fn transition_allowed(current: AuthPhase, next: AuthPhase) -> bool {
    if current == next {
        true
    } else {
        match current {
            AuthPhase::Idle => next is PendingPrompt,
            AuthPhase::PendingPrompt => next is Verifying || next is Canceled || next is Timeout,
            AuthPhase::Verifying => next is Success || next is Failure || next is Canceled
                || next is Timeout,
            _ => next is Idle || next is PendingPrompt,
        }
    }
}

impl AuthPhase {
    pub fn as_str(self) -> (r: &'static str)
        ensures
            r@ == phase_label(self),
    {
        match self {
            AuthPhase::Idle => "idle",
            AuthPhase::PendingPrompt => "pending_prompt",
            AuthPhase::Verifying => "verifying",
            AuthPhase::Success => "success",
            AuthPhase::Failure => "failure",
            AuthPhase::Canceled => "canceled",
            AuthPhase::Timeout => "timeout",
        }
    }
}

pub fn can_transition(current: AuthPhase, next: AuthPhase) -> (r: bool)
    ensures
        r == transition_allowed(current, next),
{
    if current == next {
        return true;
    }
    match current {
        AuthPhase::Idle => matches!(next, AuthPhase::PendingPrompt),
        AuthPhase::PendingPrompt => matches!(next, AuthPhase::Verifying)
            || matches!(next, AuthPhase::Canceled) || matches!(next, AuthPhase::Timeout),
        AuthPhase::Verifying => matches!(next, AuthPhase::Success) || matches!(
            next,
            AuthPhase::Failure,
        ) || matches!(next, AuthPhase::Canceled) || matches!(next, AuthPhase::Timeout),
        _ => matches!(next, AuthPhase::Idle) || matches!(next, AuthPhase::PendingPrompt),
    }
}

/// Every phase may stay where it is.
pub proof fn law_transition_reflexive(p: AuthPhase)
    ensures
        transition_allowed(p, p),
{
}

/// An idle agent can only start prompting; every outcome can return to idle
/// or start the next prompt.
pub proof fn law_idle_and_outcomes(p: AuthPhase, next: AuthPhase)
    ensures
        transition_allowed(AuthPhase::Idle, next) <==> (next is Idle || next is PendingPrompt),
        is_terminal(p) ==> transition_allowed(p, AuthPhase::Idle) && transition_allowed(
            p,
            AuthPhase::PendingPrompt,
        ),
        is_terminal(p) && is_terminal(next) && p != next ==> !transition_allowed(p, next),
{
}

/// Outcomes are only reached through verification, except that a pending
/// prompt may be canceled or time out.
pub proof fn law_outcomes_need_verification(p: AuthPhase, next: AuthPhase)
    requires
        p != next,
        next is Success || next is Failure,
        transition_allowed(p, next),
    ensures
        p is Verifying,
{
}

/// The whole phase graph, move by move: staying is always allowed; from
/// Idle only to PendingPrompt; from PendingPrompt to Verifying, Canceled or
/// Timeout; from Verifying to any of the four outcomes; from an outcome
/// back to Idle or to a new PendingPrompt. Nothing else.
pub proof fn law_phase_moves(current: AuthPhase, next: AuthPhase)
    ensures
        current is Idle ==> (transition_allowed(current, next) <==> (next is Idle
            || next is PendingPrompt)),
        current is PendingPrompt ==> (transition_allowed(current, next) <==> (next is PendingPrompt
            || next is Verifying || next is Canceled || next is Timeout)),
        current is Verifying ==> (transition_allowed(current, next) <==> (next is Verifying
            || next is Success || next is Failure || next is Canceled || next is Timeout)),
        (current is Success || current is Failure || current is Canceled || current is Timeout) ==> (
        transition_allowed(current, next) <==> (next == current || next is Idle
            || next is PendingPrompt)),
{
}

/// The names phases are reported under, one per phase and all different.
pub proof fn law_phase_names(p: AuthPhase, q: AuthPhase)
    ensures
        phase_label(AuthPhase::Idle) == "idle"@,
        phase_label(AuthPhase::PendingPrompt) == "pending_prompt"@,
        phase_label(AuthPhase::Verifying) == "verifying"@,
        phase_label(AuthPhase::Success) == "success"@,
        phase_label(AuthPhase::Failure) == "failure"@,
        phase_label(AuthPhase::Canceled) == "canceled"@,
        phase_label(AuthPhase::Timeout) == "timeout"@,
        p != q ==> phase_label(p) != phase_label(q),
{
    reveal_strlit("idle");
    reveal_strlit("pending_prompt");
    reveal_strlit("verifying");
    reveal_strlit("success");
    reveal_strlit("failure");
    reveal_strlit("canceled");
    reveal_strlit("timeout");
    assert("idle"@.len() == 4);
    assert("pending_prompt"@.len() == 14);
    assert("verifying"@.len() == 9);
    assert("success"@.len() == 7);
    assert("failure"@.len() == 7);
    assert("canceled"@.len() == 8);
    assert("timeout"@.len() == 7);
    assert("success"@[0] != "failure"@[0]);
    assert("success"@[0] != "timeout"@[0]);
    assert("failure"@[0] != "timeout"@[0]);
}

/// The last recorded auth decision (no secrets).
pub ghost struct DecisionView {
    pub action_id: Seq<char>,
    pub outcome: Seq<char>,
    pub retention_policy: Option<Seq<char>>,
    pub retention_enforced: bool,
}

pub ghost struct AuthStateView {
    pub phase: AuthPhase,
    pub active_requests: nat,
    pub queued_requests: nat,
    pub last_decision: Option<DecisionView>,
}

#[derive(Debug, Clone)]
struct AuthDecision {
    action_id: String,
    outcome: String,
    retention_policy: Option<String>,
    retention_enforced: bool,
}

impl AuthDecision {
    spec fn view_of(self) -> DecisionView {
        DecisionView {
            action_id: self.action_id@,
            outcome: self.outcome@,
            retention_policy: match self.retention_policy {
                Some(p) => Some(p@),
                None => None,
            },
            retention_enforced: self.retention_enforced,
        }
    }
}

/// Tracks auth workflow state with no sensitive data.
#[derive(Debug)]
pub struct AuthState {
    current_phase: AuthPhase,
    active_requests: usize,
    queued_requests: usize,
    last_decision: Option<AuthDecision>,
}

impl View for AuthState {
    type V = AuthStateView;

    closed spec fn view(&self) -> AuthStateView {
        AuthStateView {
            phase: self.current_phase,
            active_requests: self.active_requests as nat,
            queued_requests: self.queued_requests as nat,
            last_decision: match self.last_decision {
                Some(d) => Some(d.view_of()),
                None => None,
            },
        }
    }
}

/// The initial auth state: idle, nothing active or queued, no decision.
pub open spec fn initial_auth_view() -> AuthStateView {
    AuthStateView { phase: AuthPhase::Idle, active_requests: 0, queued_requests: 0, last_decision: None }
}

/// Snapshot of the auth state as reported to IPC clients.
#[derive(Debug, Clone, PartialEq, Eq)]
pub struct AuthSummary {
    pub state: String,
    pub active_requests: usize,
    pub queued_requests: usize,
    pub last_action_id: Option<String>,
    pub last_outcome: Option<String>,
    pub last_retention_policy: Option<String>,
    pub last_retention_enforced: Option<bool>,
}

pub open spec fn opt_string_view(o: Option<String>) -> Option<Seq<char>> {
    match o {
        Some(s) => Some(s@),
        None => None,
    }
}

/// What a summary of the auth state `s` reports.
pub open spec fn summary_matches(r: AuthSummary, s: AuthStateView) -> bool {
    &&& r.state@ == phase_label(s.phase)
    &&& r.active_requests == s.active_requests
    &&& r.queued_requests == s.queued_requests
    &&& match s.last_decision {
        Some(d) => {
            &&& opt_string_view(r.last_action_id) == Some(d.action_id)
            &&& opt_string_view(r.last_outcome) == Some(d.outcome)
            &&& opt_string_view(r.last_retention_policy) == d.retention_policy
            &&& r.last_retention_enforced == Some(d.retention_enforced)
        },
        None => {
            &&& r.last_action_id is None
            &&& r.last_outcome is None
            &&& r.last_retention_policy is None
            &&& r.last_retention_enforced is None
        },
    }
}

fn clone_opt_string(o: &Option<String>) -> (r: Option<String>)
    ensures
        opt_string_view(r) == opt_string_view(*o),
{
    match o {
        Some(s) => Some(s.clone()),
        None => None,
    }
}

impl Default for AuthState {
    fn default() -> (r: Self)
        ensures
            r@ == initial_auth_view(),
    {
        AuthState::new()
    }
}

impl AuthState {
    pub fn new() -> (r: Self)
        ensures
            r@ == initial_auth_view(),
    {
        AuthState {
            current_phase: AuthPhase::Idle,
            active_requests: 0,
            queued_requests: 0,
            last_decision: None,
        }
    }

    pub fn phase(&self) -> (r: AuthPhase)
        ensures
            r == self@.phase,
    {
        self.current_phase
    }

    pub fn set_phase(&mut self, next: AuthPhase)
        ensures
            final(self)@ == (AuthStateView { phase: next, ..old(self)@ }),
    {
        self.current_phase = next;
    }

    /// Moves to `next` only along an allowed edge of the phase graph.
    pub fn transition(&mut self, next: AuthPhase) -> (r: bool)
        ensures
            r == transition_allowed(old(self)@.phase, next),
            r ==> final(self)@ == (AuthStateView { phase: next, ..old(self)@ }),
            !r ==> final(self)@ == old(self)@,
    {
        if can_transition(self.current_phase, next) {
            self.current_phase = next;
            return true;
        }
        false
    }

    pub fn set_active_requests(&mut self, count: usize)
        ensures
            final(self)@ == (AuthStateView { active_requests: count as nat, ..old(self)@ }),
    {
        self.active_requests = count;
    }

    pub fn set_queued_requests(&mut self, count: usize)
        ensures
            final(self)@ == (AuthStateView { queued_requests: count as nat, ..old(self)@ }),
    {
        self.queued_requests = count;
    }

    pub fn sync_queue_counts(&mut self, active: usize, queued: usize)
        ensures
            final(self)@ == (AuthStateView {
                active_requests: active as nat,
                queued_requests: queued as nat,
                ..old(self)@
            }),
    {
        self.set_active_requests(active);
        self.set_queued_requests(queued);
    }

    pub fn summary(&self) -> (r: AuthSummary)
        ensures
            summary_matches(r, self@),
    {
        let state = self.current_phase.as_str().to_owned();
        match &self.last_decision {
            Some(d) => AuthSummary {
                state,
                active_requests: self.active_requests,
                queued_requests: self.queued_requests,
                last_action_id: Some(d.action_id.clone()),
                last_outcome: Some(d.outcome.clone()),
                last_retention_policy: clone_opt_string(&d.retention_policy),
                last_retention_enforced: Some(d.retention_enforced),
            },
            None => AuthSummary {
                state,
                active_requests: self.active_requests,
                queued_requests: self.queued_requests,
                last_action_id: None,
                last_outcome: None,
                last_retention_policy: None,
                last_retention_enforced: None,
            },
        }
    }

    pub fn set_last_decision(
        &mut self,
        action_id: &str,
        outcome: &str,
        retention_policy: Option<String>,
        retention_enforced: bool,
    )
        ensures
            final(self)@ == (AuthStateView {
                last_decision: Some(
                    DecisionView {
                        action_id: action_id@,
                        outcome: outcome@,
                        retention_policy: opt_string_view(retention_policy),
                        retention_enforced,
                    },
                ),
                ..old(self)@
            }),
    {
        self.last_decision = Some(
            AuthDecision {
                action_id: action_id.to_owned(),
                outcome: outcome.to_owned(),
                retention_policy,
                retention_enforced,
            },
        );
    }

    pub fn clear_last_decision(&mut self)
        ensures
            final(self)@ == (AuthStateView { last_decision: None, ..old(self)@ }),
    {
        self.last_decision = None;
    }
}

/// Result of queueing a request.
#[derive(Debug, Clone, Copy, PartialEq, Eq, Structural)]
pub enum QueueInsert {
    Activated,
    Queued { position: usize },
}

/// Queue policy for concurrent auth requests: one active request and a FIFO
/// backlog.
#[derive(Debug, Clone)]
pub struct AuthQueue<T> {
    active: Option<T>,
    queued: VecDeque<T>,
}

impl<T> AuthQueue<T> {
    /// The request being served, if any.
    pub closed spec fn active_item(&self) -> Option<T> {
        self.active
    }

    /// The backlog, oldest first.
    pub closed spec fn queued_items(&self) -> Seq<T> {
        self.queued@
    }

    /// A backlog only exists behind an active request.
    pub open spec fn wf(&self) -> bool {
        self.active_item() is None ==> self.queued_items().len() == 0
    }

    /// All requests in service order: the active one, then the backlog.
    pub open spec fn items(&self) -> Seq<T> {
        match self.active_item() {
            Some(a) => seq![a] + self.queued_items(),
            None => self.queued_items(),
        }
    }
}

impl<T> View for AuthQueue<T> {
    type V = Seq<T>;

    open spec fn view(&self) -> Seq<T> {
        self.items()
    }
}

impl<T> Default for AuthQueue<T> {
    fn default() -> (r: Self)
        ensures
            r.wf(),
            r@ == Seq::<T>::empty(),
    {
        AuthQueue::new()
    }
}

impl<T> AuthQueue<T> {
    pub fn new() -> (r: Self)
        ensures
            r.wf(),
            r@ == Seq::<T>::empty(),
            r.active_item() is None,
    {
        AuthQueue { active: None, queued: VecDeque::new() }
    }

    /// Appends a request; it becomes active when nothing is being served,
    /// otherwise it waits at the given 1-based backlog position.
    pub fn push(&mut self, request: T) -> (r: QueueInsert)
        requires
            old(self).wf(),
        ensures
            final(self).wf(),
            final(self)@ == old(self)@.push(request),
            old(self)@.len() == 0 ==> r == QueueInsert::Activated,
            old(self)@.len() > 0 ==> r == (QueueInsert::Queued {
                position: old(self)@.len() as usize,
            }) && final(self).active_item() == old(self).active_item(),
    {
        if self.active.is_none() {
            self.active = Some(request);
            assert(self@ =~= old(self)@.push(request));
            QueueInsert::Activated
        } else {
            self.queued.push_back(request);
            assert(self@ =~= old(self)@.push(request));
            QueueInsert::Queued { position: self.queued.len() }
        }
    }

    pub fn active(&self) -> (r: Option<&T>)
        ensures
            match r {
                Some(a) => self.active_item() == Some(*a),
                None => self.active_item() is None,
            },
    {
        match &self.active {
            Some(a) => Some(a),
            None => None,
        }
    }

    /// Finishes the active request when `predicate` accepts it.
    pub fn take_active_if<F: Fn(&T) -> bool>(&mut self, predicate: F) -> (r: Option<T>)
        requires
            old(self).wf(),
            forall|t: &T| predicate.requires((t,)),
        ensures
            final(self).wf(),
            active_taken_if(*old(self), predicate, r, *final(self)),
    {
        let accepted = match &self.active {
            Some(a) => predicate(a),
            None => false,
        };
        if accepted {
            return self.complete_active();
        }
        None
    }

    /// Same policy as `take_active_if`: completes the active request when the
    /// predicate accepts it.
    pub fn complete_active_if<F: Fn(&T) -> bool>(&mut self, predicate: F) -> (r: Option<T>)
        requires
            old(self).wf(),
            forall|t: &T| predicate.requires((t,)),
        ensures
            final(self).wf(),
            active_taken_if(*old(self), predicate, r, *final(self)),
    {
        self.take_active_if(predicate)
    }

    /// Removes the oldest backlog entry that `predicate` accepts; the active
    /// request is never touched.
    pub fn remove_queued_if<F: Fn(&T) -> bool>(&mut self, predicate: F) -> (r: bool)
        requires
            old(self).wf(),
            forall|t: &T| predicate.requires((t,)),
        ensures
            final(self).wf(),
            final(self).active_item() == old(self).active_item(),
            r ==> exists|i: int|
                0 <= i < old(self).queued_items().len() && predicate.ensures(
                    (&old(self).queued_items()[i],),
                    true,
                ) && (forall|j: int|
                    0 <= j < i ==> predicate.ensures((&old(self).queued_items()[j],), false))
                    && final(self).queued_items() == old(self).queued_items().remove(i),
            !r ==> final(self).queued_items() == old(self).queued_items() && forall|j: int|
                0 <= j < old(self).queued_items().len() ==> predicate.ensures(
                    (&old(self).queued_items()[j],),
                    false,
                ),
    {
        let n = self.queued.len();
        let mut i: usize = 0;
        while i < n
            invariant
                n == self.queued@.len(),
                i <= n,
                self.queued@ == old(self).queued@,
                self.active == old(self).active,
                old(self).wf(),
                forall|t: &T| predicate.requires((t,)),
                forall|j: int| 0 <= j < i ==> predicate.ensures((&self.queued@[j],), false),
            decreases n - i,
        {
            let hit = predicate(&self.queued[i]);
            if hit {
                let ghost before = self.queued@;
                let _removed = self.queued.remove(i);
                assert(predicate.ensures((&before[i as int],), true));
                assert(self.queued@ == before.remove(i as int));
                assert(0 <= i < old(self).queued_items().len() && predicate.ensures(
                    (&old(self).queued_items()[i as int],),
                    true,
                ) && (forall|j: int|
                    0 <= j < i ==> predicate.ensures((&old(self).queued_items()[j],), false))
                    && self.queued_items() == old(self).queued_items().remove(i as int));
                return true;
            }
            i += 1;
        }
        false
    }

    /// Finishes the active request and promotes the oldest backlog entry.
    pub fn complete_active(&mut self) -> (r: Option<T>)
        requires
            old(self).wf(),
        ensures
            final(self).wf(),
            old(self)@.len() == 0 ==> r is None && final(self)@ == old(self)@,
            old(self)@.len() > 0 ==> r == Some(old(self)@[0]) && final(self)@
                == old(self)@.drop_first(),
    {
        let finished = self.active.take();
        self.promote_next();
        proof {
            if old(self)@.len() > 0 {
                assert(self@ =~= old(self)@.drop_first());
            }
        }
        finished
    }

    pub fn active_len(&self) -> (r: usize)
        ensures
            r == (if self.active_item() is Some {
                1usize
            } else {
                0usize
            }),
    {
        if self.active.is_some() {
            1
        } else {
            0
        }
    }

    pub fn queued_len(&self) -> (r: usize)
        ensures
            r == self.queued_items().len(),
    {
        self.queued.len()
    }

    pub fn is_empty(&self) -> (r: bool)
        ensures
            r == (self.active_item() is None && self.queued_items().len() == 0),
            self.wf() ==> (r == (self@.len() == 0)),
    {
        self.active.is_none() && self.queued.len() == 0
    }

    pub fn clear(&mut self)
        ensures
            final(self).wf(),
            final(self)@ == Seq::<T>::empty(),
    {
        self.active = None;
        self.queued.clear();
    }

    /// `(active, queued)` counts.
    pub fn counts(&self) -> (r: (usize, usize))
        ensures
            r.1 == self.queued_items().len(),
            r.0 == (if self.active_item() is Some {
                1usize
            } else {
                0usize
            }),
            self.wf() ==> r.0 + r.1 == self@.len(),
    {
        (self.active_len(), self.queued_len())
    }

    fn promote_next(&mut self)
        ensures
            old(self).active is Some ==> *final(self) == *old(self),
            old(self).active is None ==> match final(self).active {
                Some(a) => old(self).queued@.len() > 0 && a == old(self).queued@[0]
                    && final(self).queued@ == old(self).queued@.drop_first(),
                None => old(self).queued@.len() == 0 && final(self).queued@ == old(
                    self,
                ).queued@,
            },
    {
        if self.active.is_none() {
            self.active = self.queued.pop_front();
        }
    }
}

/// What finishing the active request under `predicate` did: from `before`,
/// `r` is the active request and `after` the rest when the predicate
/// accepted it; otherwise `r` is `None` and the queue is as it was.
pub open spec fn active_taken_if<T, F: Fn(&T) -> bool>(
    before: AuthQueue<T>,
    predicate: F,
    r: Option<T>,
    after: AuthQueue<T>,
) -> bool {
    match r {
        Some(t) => {
            &&& before@.len() > 0
            &&& t == before@[0]
            &&& predicate.ensures((&before@[0],), true)
            &&& after@ == before@.drop_first()
        },
        None => {
            &&& after@ == before@
            &&& after.active_item() == before.active_item()
            &&& before@.len() > 0 ==> predicate.ensures((&before@[0],), false)
        },
    }
}

/// `complete_active_if` and `take_active_if` agree: for a predicate that
/// always gives the same answer on the same request, both give the same
/// result and leave the same queue.
pub proof fn law_complete_agrees_with_take<T, F: Fn(&T) -> bool>(
    before: AuthQueue<T>,
    predicate: F,
    r1: Option<T>,
    after1: AuthQueue<T>,
    r2: Option<T>,
    after2: AuthQueue<T>,
)
    requires
        before.wf(),
        forall|t: &T, a: bool, b: bool|
            predicate.ensures((t,), a) && predicate.ensures((t,), b) ==> a == b,
        active_taken_if(before, predicate, r1, after1),
        active_taken_if(before, predicate, r2, after2),
    ensures
        r1 == r2,
        after1@ == after2@,
{
}

/// Requests leave the queue in the order they arrived: after pushing `x`
/// onto a queue holding `q`, completing requests yields `q` first and then `x`.
pub proof fn law_queue_fifo<T>(q: Seq<T>, x: T)
    ensures
        q.push(x)[q.len() as int] == x,
        q.len() > 0 ==> q.push(x)[0] == q[0] && q.push(x).drop_first() == q.drop_first().push(x),
{
    if q.len() > 0 {
        assert(q.push(x).drop_first() =~= q.drop_first().push(x));
    }
}

/// At most one request is active, and the counts add up to the queue length.
pub proof fn law_queue_counts<T>(q: AuthQueue<T>)
    requires
        q.wf(),
    ensures
        q@.len() == (if q.active_item() is Some {
            1int
        } else {
            0int
        }) + q.queued_items().len(),
        q.active_item() is Some <==> q@.len() > 0,
        q@.len() > 0 ==> q.active_item() == Some(q@[0]),
{
}

/// Immutable process/runtime metadata for IPC status, plus the auth state it
/// reports on.
#[derive(Debug)]
pub struct RuntimeState {
    pid: u32,
    socket_path: String,
    backend_name: String,
    auth: AuthState,
}

impl RuntimeState {
    pub closed spec fn pid_spec(&self) -> u32 {
        self.pid
    }

    pub closed spec fn socket_path_spec(&self) -> Seq<char> {
        self.socket_path@
    }

    pub closed spec fn backend_name_spec(&self) -> Seq<char> {
        self.backend_name@
    }

    pub closed spec fn auth_value(&self) -> AuthState {
        self.auth
    }

    pub open spec fn auth_spec(&self) -> AuthStateView {
        self.auth_value()@
    }

    pub fn new(socket_path: String, backend_name: &str, pid: u32) -> (r: Self)
        ensures
            r.pid_spec() == pid,
            r.socket_path_spec() == socket_path@,
            r.backend_name_spec() == backend_name@,
            r.auth_spec() == initial_auth_view(),
    {
        Self::with_auth(socket_path, backend_name, pid, AuthState::new())
    }

    /// Takes over `auth`, resetting it to idle with no requests and no
    /// recorded decision.
    pub fn with_auth(socket_path: String, backend_name: &str, pid: u32, auth: AuthState) -> (r:
        Self)
        ensures
            r.pid_spec() == pid,
            r.socket_path_spec() == socket_path@,
            r.backend_name_spec() == backend_name@,
            r.auth_spec() == initial_auth_view(),
    {
        let mut auth = auth;
        auth.set_phase(AuthPhase::Idle);
        auth.set_active_requests(0);
        auth.set_queued_requests(0);
        auth.clear_last_decision();
        RuntimeState { pid, socket_path, backend_name: backend_name.to_owned(), auth }
    }

    pub fn pid(&self) -> (r: u32)
        ensures
            r == self.pid_spec(),
    {
        self.pid
    }

    pub fn socket_path(&self) -> (r: &str)
        ensures
            r@ == self.socket_path_spec(),
    {
        self.socket_path.as_str()
    }

    pub fn backend_name(&self) -> (r: &str)
        ensures
            r@ == self.backend_name_spec(),
    {
        self.backend_name.as_str()
    }

    pub fn auth_summary(&self) -> (r: AuthSummary)
        ensures
            summary_matches(r, self.auth_spec()),
    {
        self.auth.summary()
    }

    /// Mutable access to the auth state; the runtime metadata stays as it is.
    pub fn auth_mutation(&mut self) -> (r: &mut AuthState)
        ensures
            *r == old(self).auth_value(),
            final(self).auth_value() == *final(r),
            final(self).pid_spec() == old(self).pid_spec(),
            final(self).socket_path_spec() == old(self).socket_path_spec(),
            final(self).backend_name_spec() == old(self).backend_name_spec(),
    {
        &mut self.auth
    }
}

} // verus!
