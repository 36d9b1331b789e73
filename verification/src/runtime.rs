//! The agent runtime's bookkeeping: the request queue, the phase and counts
//! reported to clients, recorded outcomes and canceled cookies, and the
//! decisions taken between helper attempts.
use crate::agent::{helper_outcome_label, outcome_label, retention_label, ActiveRequest, AuthRequest, IdentitySelection, RetentionPolicy, RetentionSelection, DEFAULT_AUTH_MAX_ATTEMPTS};
use crate::polkit_helper::{HelperOutcome, PromptError, PromptProvider, PromptResponse};
use crate::state::{is_terminal, AuthPhase, AuthQueue, AuthState, AuthStateView, DecisionView, AuthSummary, QueueInsert, summary_matches, initial_auth_view};
use crate::text::{parse_unsigned, parse_unsigned_chars, string_of, trim, trim_str};
use crate::text_map::{str_eq, TextMap};
use vstd::prelude::*;
use vstd::string::*;

verus! {

pub ghost struct RuntimeView {
    pub auth: AuthStateView,
    pub queue: Seq<AuthRequest>,
    pub outcomes: Map<Seq<char>, HelperOutcome>,
    pub canceled: Set<Seq<char>>,
}

/// `(active, queued)` counts of a queue.
pub open spec fn queue_counts(q: Seq<AuthRequest>) -> (nat, nat) {
    if q.len() > 0 {
        (1, (q.len() - 1) as nat)
    } else {
        (0, 0)
    }
}

/// The counters the auth state reports equal the queue's.
pub open spec fn counts_synced(v: RuntimeView) -> bool {
    v.auth.active_requests == queue_counts(v.queue).0 && v.auth.queued_requests == queue_counts(
        v.queue,
    ).1
}

pub open spec fn with_counts(a: AuthStateView, q: Seq<AuthRequest>) -> AuthStateView {
    AuthStateView { active_requests: queue_counts(q).0, queued_requests: queue_counts(q).1, ..a }
}

/// The phase an agent reports after the last request ends this way.
pub open spec fn outcome_phase(o: HelperOutcome) -> AuthPhase {
    match o {
        HelperOutcome::Authorized => AuthPhase::Success,
        HelperOutcome::Denied => AuthPhase::Failure,
        HelperOutcome::Canceled => AuthPhase::Canceled,
        HelperOutcome::Timeout => AuthPhase::Timeout,
    }
}

/// A new request joins the queue; an idle or finished agent starts
/// prompting.
pub open spec fn begin_spec(v: RuntimeView, request: AuthRequest) -> RuntimeView {
    let q = v.queue.push(request);
    let a = with_counts(v.auth, q);
    RuntimeView {
        auth: if v.auth.phase is Idle || is_terminal(v.auth.phase) {
            AuthStateView { phase: AuthPhase::PendingPrompt, ..a }
        } else {
            a
        },
        queue: q,
        outcomes: v.outcomes,
        canceled: v.canceled.remove(request.cookie@),
    }
}

/// Position (at least 1) of the oldest queued request with this cookie.
pub open spec fn first_queued_with(q: Seq<AuthRequest>, cookie: Seq<char>) -> int {
    choose|i: int|
        1 <= i < q.len() && q[i].cookie@ == cookie && forall|j: int|
            1 <= j < i ==> #[trigger] q[j].cookie@ != cookie
}

pub open spec fn queued_with(q: Seq<AuthRequest>, cookie: Seq<char>) -> bool {
    exists|i: int| 1 <= i < q.len() && #[trigger] q[i].cookie@ == cookie
}

pub open spec fn active_is(q: Seq<AuthRequest>, cookie: Seq<char>) -> bool {
    q.len() > 0 && q[0].cookie@ == cookie
}

/// Cancelling drops the request with this cookie (the active one first,
/// else the oldest queued one) and records it as canceled; the answer says
/// whether a request was dropped.
pub open spec fn cancel_spec(v: RuntimeView, cookie: Seq<char>) -> (RuntimeView, bool) {
    if active_is(v.queue, cookie) {
        let q = v.queue.drop_first();
        let a = with_counts(v.auth, q);
        (
            RuntimeView {
                auth: AuthStateView {
                    phase: if q.len() > 0 {
                        AuthPhase::PendingPrompt
                    } else {
                        AuthPhase::Canceled
                    },
                    ..a
                },
                queue: q,
                outcomes: v.outcomes.insert(cookie, HelperOutcome::Canceled),
                canceled: v.canceled.insert(cookie),
            },
            true,
        )
    } else if queued_with(v.queue, cookie) {
        let q = v.queue.remove(first_queued_with(v.queue, cookie));
        let a = with_counts(v.auth, q);
        (
            RuntimeView {
                auth: if q.len() == 0 {
                    AuthStateView { phase: AuthPhase::Idle, ..a }
                } else {
                    a
                },
                queue: q,
                outcomes: v.outcomes.insert(cookie, HelperOutcome::Canceled),
                canceled: v.canceled.insert(cookie),
            },
            true,
        )
    } else {
        (RuntimeView { auth: with_counts(v.auth, v.queue), ..v }, false)
    }
}

/// Completing the active request records its outcome and promotes the next
/// one; the phase shows the outcome when nothing else waits.
pub open spec fn complete_spec(v: RuntimeView, cookie: Seq<char>, outcome: HelperOutcome) -> RuntimeView {
    if active_is(v.queue, cookie) {
        let q = v.queue.drop_first();
        let a = with_counts(v.auth, q);
        RuntimeView {
            auth: AuthStateView {
                phase: if q.len() > 0 {
                    AuthPhase::PendingPrompt
                } else {
                    outcome_phase(outcome)
                },
                ..a
            },
            queue: q,
            outcomes: v.outcomes.insert(cookie, outcome),
            canceled: v.canceled.remove(cookie),
        }
    } else {
        let a = with_counts(v.auth, v.queue);
        RuntimeView {
            auth: if v.queue.len() == 0 && v.auth.phase is Verifying {
                AuthStateView { phase: AuthPhase::Idle, ..a }
            } else {
                a
            },
            ..v
        }
    }
}

/// Collecting an outcome removes it and clears the cookie's cancel mark.
pub open spec fn take_outcome_spec(v: RuntimeView, cookie: Seq<char>) -> (RuntimeView, Option<HelperOutcome>) {
    if v.outcomes.contains_key(cookie) {
        (
            RuntimeView {
                outcomes: v.outcomes.remove(cookie),
                canceled: v.canceled.remove(cookie),
                ..v
            },
            Some(v.outcomes[cookie]),
        )
    } else {
        (v, None)
    }
}

/// A predicate selecting the request with this cookie.
fn cookie_matcher<'a>(cookie: &'a str) -> (f: impl Fn(&AuthRequest) -> bool + 'a)
    ensures
        forall|r: &AuthRequest| f.requires((r,)),
        forall|r: &AuthRequest, b: bool| f.ensures((r,), b) ==> b == (r.cookie@ == cookie@),
{
    let f = |request: &AuthRequest| -> (b: bool)
        ensures
            b == (request.cookie@ == cookie@),
        { str_eq(request.cookie.as_str(), cookie) };
    f
}

/// Removes the oldest backlog request with this cookie.
fn remove_queued_cookie(queue: &mut AuthQueue<AuthRequest>, cookie: &str) -> (r: bool)
    requires
        old(queue).wf(),
    ensures
        final(queue).wf(),
        final(queue).active_item() == old(queue).active_item(),
        r ==> exists|i: int|
            0 <= i < old(queue).queued_items().len() && old(queue).queued_items()[i].cookie@
                == cookie@ && (forall|j: int|
                0 <= j < i ==> old(queue).queued_items()[j].cookie@ != cookie@)
                && final(queue).queued_items() == old(queue).queued_items().remove(i),
        !r ==> final(queue).queued_items() == old(queue).queued_items() && forall|j: int|
            0 <= j < old(queue).queued_items().len() ==> old(queue).queued_items()[j].cookie@
                != cookie@,
{
    let m = cookie_matcher(cookie);
    let ghost gm = m;
    let r = queue.remove_queued_if(m);
    proof {
        let qi = old(queue).queued_items();
        if r {
            let i = choose|i: int|
                0 <= i < qi.len() && gm.ensures((&qi[i],), true) && (forall|j: int|
                    0 <= j < i ==> gm.ensures((&qi[j],), false)) && queue.queued_items()
                    == qi.remove(i);
            assert(qi[i].cookie@ == cookie@);
            assert forall|j: int| 0 <= j < i implies qi[j].cookie@ != cookie@ by {
                assert(gm.ensures((&qi[j],), false));
            }
        } else {
            assert forall|j: int| 0 <= j < qi.len() implies qi[j].cookie@ != cookie@ by {
                assert(gm.ensures((&qi[j],), false));
            }
        }
    }
    r
}

/// The runtime's state, without its threads and locks.
#[derive(Debug)]
pub struct AuthRuntime {
    auth_state: AuthState,
    queue: AuthQueue<AuthRequest>,
    outcomes: TextMap<HelperOutcome>,
    canceled_cookies: TextMap<()>,
}

impl AuthRuntime {
    pub closed spec fn view(&self) -> RuntimeView {
        RuntimeView {
            auth: self.auth_state@,
            queue: self.queue@,
            outcomes: self.outcomes.view(),
            canceled: self.canceled_cookies.view().dom(),
        }
    }

    pub closed spec fn wf(&self) -> bool {
        self.queue.wf()
    }

    pub fn new() -> (r: Self)
        ensures
            r.wf(),
            r.view().auth == initial_auth_view(),
            r.view().queue == Seq::<AuthRequest>::empty(),
            r.view().outcomes == Map::<Seq<char>, HelperOutcome>::empty(),
            r.view().canceled == Set::<Seq<char>>::empty(),
    {
        let r = AuthRuntime {
            auth_state: AuthState::new(),
            queue: AuthQueue::new(),
            outcomes: TextMap::new(),
            canceled_cookies: TextMap::new(),
        };
        assert(r.canceled_cookies.view().dom() =~= Set::<Seq<char>>::empty());
        r
    }

    pub fn phase(&self) -> (r: AuthPhase)
        ensures
            r == self.view().auth.phase,
    {
        self.auth_state.phase()
    }

    pub fn set_phase(&mut self, phase: AuthPhase)
        ensures
            final(self).wf() == old(self).wf(),
            final(self).view() == (RuntimeView {
                auth: AuthStateView { phase, ..old(self).view().auth },
                ..old(self).view()
            }),
    {
        self.auth_state.set_phase(phase);
    }

    pub fn summary(&self) -> (r: AuthSummary)
        ensures
            summary_matches(r, self.view().auth),
    {
        self.auth_state.summary()
    }

    pub fn auth_state(&self) -> (r: &AuthState)
        ensures
            r@ == self.view().auth,
    {
        &self.auth_state
    }

    fn sync_counts(&mut self)
        requires
            old(self).wf(),
        ensures
            final(self).wf(),
            final(self).view() == (RuntimeView {
                auth: with_counts(old(self).view().auth, old(self).view().queue),
                ..old(self).view()
            }),
    {
        let (active, queued) = self.queue.counts();
        self.auth_state.sync_queue_counts(active, queued);
    }

    /// Queues a request (`begin_authentication`).
    pub fn begin_authentication(&mut self, request: AuthRequest) -> (r: QueueInsert)
        requires
            old(self).wf(),
        ensures
            final(self).wf(),
            final(self).view() == begin_spec(old(self).view(), request),
            old(self).view().queue.len() == 0 ==> r == QueueInsert::Activated,
            old(self).view().queue.len() > 0 ==> r == (QueueInsert::Queued {
                position: old(self).view().queue.len() as usize,
            }),
    {
        let cookie = request.cookie.clone();
        let ghost req = request;
        let insert = self.queue.push(request);
        self.clear_canceled(cookie.as_str());
        self.sync_counts();
        let phase = self.auth_state.phase();
        if matches!(phase, AuthPhase::Idle) || matches!(phase, AuthPhase::Success) || matches!(
            phase,
            AuthPhase::Failure,
        ) || matches!(phase, AuthPhase::Canceled) || matches!(phase, AuthPhase::Timeout) {
            self.auth_state.set_phase(AuthPhase::PendingPrompt);
        }
        proof {
            assert(self.view().canceled =~= old(self).view().canceled.remove(req.cookie@));
            assert(self.view() == begin_spec(old(self).view(), req));
        }
        insert
    }

    /// Drops the request with `cookie` and records it as canceled
    /// (`cancel_authentication`); false when no such request waits.
    pub fn cancel_authentication(&mut self, cookie: &str) -> (r: bool)
        requires
            old(self).wf(),
        ensures
            final(self).wf(),
            (final(self).view(), r) == cancel_spec(old(self).view(), cookie@),
    {
        let ghost q0 = self.queue@;
        let ghost qi0 = self.queue.queued_items();
        let canceled_active = self.queue.take_active_if(cookie_matcher(cookie)).is_some();
        let ghost q1 = self.queue@;
        let ghost qi1 = self.queue.queued_items();
        proof {
            if !canceled_active {
                if q0.len() > 0 {
                    assert(qi1 =~= q1.drop_first());
                    assert(qi0 =~= q0.drop_first());
                } else {
                    assert(qi1.len() == 0);
                }
            }
        }
        let removed_queued = if canceled_active {
            false
        } else {
            remove_queued_cookie(&mut self.queue, cookie)
        };
        proof {
            if !canceled_active {
                assert(!active_is(q0, cookie@));
                assert(q1 == q0);
                assert(q0.len() > 0 ==> q0 =~= seq![q0[0]] + qi0);
                if removed_queued {
                    assert(qi1 == qi0);
                    let i = choose|i: int|
                        0 <= i < qi1.len() && qi1[i].cookie@ == cookie@ && (forall|j: int|
                            0 <= j < i ==> qi1[j].cookie@ != cookie@) && self.queue.queued_items()
                            == qi1.remove(i);
                    assert(qi0 == old(self).queue.queued_items());
                    assert(old(self).queue.active_item() is Some);
                    assert(q0 =~= seq![old(self).queue.active_item()->0] + qi0);
                    assert(q0[i + 1] == qi0[i]);
                    assert(queued_with(q0, cookie@));
                    let f = first_queued_with(q0, cookie@);
                    assert(1 <= i + 1 < q0.len() && q0[i + 1].cookie@ == cookie@ && forall|j: int|
                        1 <= j < i + 1 ==> #[trigger] q0[j].cookie@ != cookie@) by {
                        assert forall|j: int| 1 <= j < i + 1 implies #[trigger] q0[j].cookie@
                            != cookie@ by {
                            assert(q0[j] == qi0[j - 1]);
                        }
                    }
                    if f != i + 1 {
                        if f < i + 1 {
                            assert(q0[f] == qi0[f - 1]);
                        } else {
                            assert(q0[i + 1].cookie@ != cookie@);
                        }
                    }
                    assert(self.queue@ =~= q0.remove(i + 1));
                } else {
                    assert(!queued_with(q0, cookie@)) by {
                        if queued_with(q0, cookie@) {
                            let i = choose|i: int| 1 <= i < q0.len() && #[trigger] q0[i].cookie@ == cookie@;
                            assert(q0[i] == qi0[i - 1]);
                        }
                    }
                    assert(self.queue@ == q0);
                }
            }
        }
        if canceled_active || removed_queued {
            self.mark_canceled(cookie);
            self.record_outcome(cookie, HelperOutcome::Canceled);
        }
        self.sync_counts();
        let (active, queued) = self.queue.counts();
        if canceled_active {
            if active > 0 {
                self.auth_state.set_phase(AuthPhase::PendingPrompt);
            } else {
                self.auth_state.set_phase(AuthPhase::Canceled);
            }
            return true;
        }
        if removed_queued {
            if active == 0 && queued == 0 {
                self.auth_state.set_phase(AuthPhase::Idle);
            }
            return true;
        }
        false
    }

    /// Records how the active request ended and promotes the next one
    /// (`complete_request`); a cookie that is not active changes nothing
    /// but the counts.
    pub fn complete_request(&mut self, cookie: &str, outcome: HelperOutcome)
        requires
            old(self).wf(),
        ensures
            final(self).wf(),
            final(self).view() == complete_spec(old(self).view(), cookie@, outcome),
    {
        let ghost q0 = self.queue@;
        let removed = self.queue.complete_active_if(cookie_matcher(cookie)).is_some();
        self.sync_counts();
        let (active, queued) = self.queue.counts();
        if !removed {
            if active == 0 && queued == 0 && matches!(self.auth_state.phase(), AuthPhase::Verifying) {
                self.auth_state.set_phase(AuthPhase::Idle);
            }
            return;
        }
        self.clear_canceled(cookie);
        self.record_outcome(cookie, outcome);
        if active > 0 {
            self.auth_state.set_phase(AuthPhase::PendingPrompt);
            return;
        }
        let phase = match outcome {
            HelperOutcome::Authorized => AuthPhase::Success,
            HelperOutcome::Denied => AuthPhase::Failure,
            HelperOutcome::Canceled => AuthPhase::Canceled,
            HelperOutcome::Timeout => AuthPhase::Timeout,
        };
        self.auth_state.set_phase(phase);
    }

    pub fn record_outcome(&mut self, cookie: &str, outcome: HelperOutcome)
        requires
            old(self).wf(),
        ensures
            final(self).wf(),
            final(self).view() == (RuntimeView {
                outcomes: old(self).view().outcomes.insert(cookie@, outcome),
                ..old(self).view()
            }),
    {
        self.outcomes.insert(cookie.to_owned(), outcome);
    }

    pub fn mark_canceled(&mut self, cookie: &str)
        requires
            old(self).wf(),
        ensures
            final(self).wf(),
            final(self).view() == (RuntimeView {
                canceled: old(self).view().canceled.insert(cookie@),
                ..old(self).view()
            }),
    {
        self.canceled_cookies.insert(cookie.to_owned(), ());
        assert(self.view().canceled =~= old(self).view().canceled.insert(cookie@));
    }

    pub fn clear_canceled(&mut self, cookie: &str)
        requires
            old(self).wf(),
        ensures
            final(self).wf(),
            final(self).view() == (RuntimeView {
                canceled: old(self).view().canceled.remove(cookie@),
                ..old(self).view()
            }),
    {
        let _ = self.canceled_cookies.remove(cookie);
        assert(self.view().canceled =~= old(self).view().canceled.remove(cookie@));
    }

    pub fn is_canceled(&self, cookie: &str) -> (r: bool)
        ensures
            r == self.view().canceled.contains(cookie@),
    {
        self.canceled_cookies.contains_key(cookie)
    }

    /// Collects the outcome recorded for `cookie`, if any (what waiting for
    /// completion returns once it is there).
    pub fn take_outcome(&mut self, cookie: &str) -> (r: Option<HelperOutcome>)
        requires
            old(self).wf(),
        ensures
            final(self).wf(),
            (final(self).view(), r) == take_outcome_spec(old(self).view(), cookie@),
    {
        match self.outcomes.remove(cookie) {
            Some(outcome) => {
                self.clear_canceled(cookie);
                Some(outcome)
            },
            None => {
                assert(self.outcomes.view() =~= old(self).outcomes.view());
                None
            },
        }
    }

    pub fn has_active_request(&self) -> (r: bool)
        requires
            self.wf(),
        ensures
            r == (self.view().queue.len() > 0),
    {
        self.queue.active().is_some()
    }

    pub fn active_request(&self) -> (r: Option<&AuthRequest>)
        requires
            self.wf(),
        ensures
            match r {
                Some(a) => self.view().queue.len() > 0 && *a == self.view().queue[0],
                None => self.view().queue.len() == 0,
            },
    {
        self.queue.active()
    }

    /// Forgets every request, outcome and cancel mark; idle with no counts.
    pub fn reset(&mut self)
        ensures
            final(self).wf(),
            final(self).view() == (RuntimeView {
                auth: AuthStateView {
                    phase: AuthPhase::Idle,
                    active_requests: 0,
                    queued_requests: 0,
                    ..old(self).view().auth
                },
                queue: Seq::empty(),
                outcomes: Map::empty(),
                canceled: Set::empty(),
            }),
    {
        self.queue.clear();
        self.outcomes.clear();
        self.canceled_cookies.clear();
        self.auth_state.set_phase(AuthPhase::Idle);
        self.auth_state.sync_queue_counts(0, 0);
        assert(self.view().canceled =~= Set::<Seq<char>>::empty());
    }

    /// Records the decision for `request` (`finalize_auth_attempt`):
    /// action, outcome label, retention label and whether one-shot
    /// retention was enforced.
    pub fn finalize_auth_attempt(
        &mut self,
        request: &ActiveRequest,
        outcome: HelperOutcome,
        retention: Option<RetentionPolicy>,
        retention_enforced: bool,
    ) -> (r: HelperOutcome)
        requires
            old(self).wf(),
        ensures
            final(self).wf(),
            r == outcome,
            final(self).view() == (RuntimeView {
                auth: AuthStateView {
                    last_decision: Some(
                        DecisionView {
                            action_id: request.action_id@,
                            outcome: outcome_label(outcome),
                            retention_policy: match retention {
                                Some(p) => Some(retention_label(p)),
                                None => None,
                            },
                            retention_enforced,
                        },
                    ),
                    ..old(self).view().auth
                },
                ..old(self).view()
            }),
    {
        let label = match retention {
            Some(policy) => Some(policy.label().to_owned()),
            None => None,
        };
        self.auth_state.set_last_decision(
            request.action_id.as_str(),
            helper_outcome_label(outcome),
            label,
            retention_enforced,
        );
        outcome
    }
}

/// After queueing, cancelling or completing, the counts the agent reports
/// match its queue.
pub proof fn law_counts_follow_queue(v: RuntimeView, request: AuthRequest, cookie: Seq<char>, o: HelperOutcome)
    ensures
        counts_synced(begin_spec(v, request)),
        counts_synced(cancel_spec(v, cookie).0),
        counts_synced(complete_spec(v, cookie, o)),
{
}

/// A request that is canceled while it is the only one is answered with a
/// canceled outcome, and the agent reports the cancellation.
pub proof fn law_cancel_is_answered(v: RuntimeView, request: AuthRequest)
    requires
        v.queue.len() == 0,
    ensures
        ({
            let (after, canceled) = cancel_spec(begin_spec(v, request), request.cookie@);
            let (_, answer) = take_outcome_spec(after, request.cookie@);
            &&& canceled
            &&& answer == Some(HelperOutcome::Canceled)
            &&& after.queue.len() == 0
            &&& after.auth.phase == AuthPhase::Canceled
        }),
{
    let b = begin_spec(v, request);
    assert(b.queue[0] == request);
    assert(b.queue.drop_first() =~= Seq::<AuthRequest>::empty());
}

/// Canceling a request that is active or waiting drops it and answers it
/// with a canceled outcome; canceling an unknown cookie answers nothing.
pub proof fn law_cancel_answers_canceled(v: RuntimeView, cookie: Seq<char>)
    ensures
        ({
            let (after, canceled) = cancel_spec(v, cookie);
            &&& canceled == (active_is(v.queue, cookie) || queued_with(v.queue, cookie))
            &&& canceled ==> take_outcome_spec(after, cookie).1 == Some(HelperOutcome::Canceled)
            &&& canceled ==> after.queue.len() + 1 == v.queue.len()
            &&& !canceled ==> after.queue == v.queue && after.outcomes == v.outcomes
        }),
{
    if !active_is(v.queue, cookie) && queued_with(v.queue, cookie) {
        let i = first_queued_with(v.queue, cookie);
        let w = choose|w: int| 1 <= w < v.queue.len() && #[trigger] v.queue[w].cookie@ == cookie;
        assert(exists|i: int|
            1 <= i < v.queue.len() && v.queue[i].cookie@ == cookie && forall|j: int|
                1 <= j < i ==> #[trigger] v.queue[j].cookie@ != cookie) by {
            lemma_first_match(v.queue, cookie, w);
        }
        assert(1 <= i < v.queue.len());
    }
}

/// A waiting request with this cookie has an oldest one.
proof fn lemma_first_match(q: Seq<AuthRequest>, cookie: Seq<char>, w: int)
    requires
        1 <= w < q.len(),
        q[w].cookie@ == cookie,
    ensures
        exists|i: int|
            1 <= i < q.len() && q[i].cookie@ == cookie && forall|j: int|
                1 <= j < i ==> #[trigger] q[j].cookie@ != cookie,
    decreases w,
{
    if exists|j: int| 1 <= j < w && #[trigger] q[j].cookie@ == cookie {
        let j = choose|j: int| 1 <= j < w && #[trigger] q[j].cookie@ == cookie;
        lemma_first_match(q, cookie, j);
    } else {
        assert(forall|j: int| 1 <= j < w ==> #[trigger] q[j].cookie@ != cookie);
    }
}

/// Completing the active request answers it with the given outcome and
/// serves the next request in arrival order.
pub proof fn law_complete_answers_and_promotes(v: RuntimeView, o: HelperOutcome)
    requires
        v.queue.len() > 0,
    ensures
        ({
            let cookie = v.queue[0].cookie@;
            let after = complete_spec(v, cookie, o);
            &&& take_outcome_spec(after, cookie).1 == Some(o)
            &&& after.queue == v.queue.drop_first()
            &&& after.auth.phase == (if v.queue.len() > 1 {
                AuthPhase::PendingPrompt
            } else {
                outcome_phase(o)
            })
        }),
{
}

/// A new request joins the end of the queue, so it is served after every
/// request that came before it and at once when none waits; it clears an
/// old cancel mark of its cookie and touches no recorded outcome. An idle
/// agent, or one that reports the end of the last request, starts
/// prompting; one that is already prompting or verifying keeps its phase.
pub proof fn law_begin_joins_the_end(v: RuntimeView, request: AuthRequest)
    ensures
        ({
            let after = begin_spec(v, request);
            &&& after.queue.len() == v.queue.len() + 1
            &&& after.queue.last() == request
            &&& forall|i: int| 0 <= i < v.queue.len() ==> after.queue[i] == v.queue[i]
            &&& v.queue.len() == 0 ==> after.queue[0] == request
            &&& !after.canceled.contains(request.cookie@)
            &&& after.outcomes == v.outcomes
            &&& (v.auth.phase is Idle || v.auth.phase is Success || v.auth.phase is Failure
                || v.auth.phase is Canceled || v.auth.phase is Timeout) ==> after.auth.phase
                == AuthPhase::PendingPrompt
            &&& (v.auth.phase is PendingPrompt || v.auth.phase is Verifying) ==> after.auth.phase
                == v.auth.phase
        }),
{
}

/// Canceling the active request serves the next one (the agent prompts
/// again) or, when it was the only one, leaves the agent showing the
/// cancellation. Canceling a waiting request removes only the oldest
/// waiting request with that cookie: the active request and the phase stay.
pub proof fn law_cancel_keeps_the_rest(v: RuntimeView, cookie: Seq<char>)
    ensures
        ({
            let (after, canceled) = cancel_spec(v, cookie);
            &&& active_is(v.queue, cookie) ==> after.queue == v.queue.drop_first()
                && after.canceled.contains(cookie) && after.auth.phase == (if v.queue.len() > 1 {
                AuthPhase::PendingPrompt
            } else {
                AuthPhase::Canceled
            })
            &&& !active_is(v.queue, cookie) && queued_with(v.queue, cookie) ==> {
                &&& after.queue[0] == v.queue[0]
                &&& after.auth.phase == v.auth.phase
                &&& after.canceled.contains(cookie)
                &&& exists|i: int|
                    1 <= i < v.queue.len() && v.queue[i].cookie@ == cookie && (forall|j: int|
                        1 <= j < i ==> #[trigger] v.queue[j].cookie@ != cookie) && after.queue
                        == v.queue.remove(i)
            }
            &&& !canceled ==> after.canceled == v.canceled && after.auth.phase == v.auth.phase
        }),
{
    if !active_is(v.queue, cookie) && queued_with(v.queue, cookie) {
        let w = choose|w: int| 1 <= w < v.queue.len() && #[trigger] v.queue[w].cookie@ == cookie;
        lemma_first_match(v.queue, cookie, w);
        let i = first_queued_with(v.queue, cookie);
        assert(1 <= i < v.queue.len());
        assert(v.queue.remove(i)[0] == v.queue[0]);
    }
}

/// Completing the active request records its outcome, forgets any cancel
/// mark of its cookie, and leaves the other outcomes and marks alone.
pub proof fn law_complete_records_and_unmarks(v: RuntimeView, o: HelperOutcome, other: Seq<char>)
    requires
        v.queue.len() > 0,
    ensures
        ({
            let cookie = v.queue[0].cookie@;
            let after = complete_spec(v, cookie, o);
            &&& after.outcomes.contains_key(cookie) && after.outcomes[cookie] == o
            &&& !after.canceled.contains(cookie)
            &&& other != cookie ==> (after.canceled.contains(other) == v.canceled.contains(other))
            &&& other != cookie ==> (after.outcomes.contains_key(other) == v.outcomes.contains_key(
                other,
            ))
        }),
{
}

/// Completing a request that is not the active one changes nothing but the
/// counters, except that an agent left verifying with nothing to serve
/// goes back to idle.
pub proof fn law_complete_other_changes_nothing(v: RuntimeView, cookie: Seq<char>, o: HelperOutcome)
    requires
        !active_is(v.queue, cookie),
    ensures
        ({
            let after = complete_spec(v, cookie, o);
            &&& after.queue == v.queue
            &&& after.outcomes == v.outcomes
            &&& after.canceled == v.canceled
            &&& after.auth.phase == (if v.queue.len() == 0 && v.auth.phase is Verifying {
                AuthPhase::Idle
            } else {
                v.auth.phase
            })
        }),
{
}

/// The phase shown after the last request ends names its outcome, and an
/// outcome is collected once: it is answered, then forgotten with the
/// cookie's cancel mark.
pub proof fn law_outcome_shown_and_collected_once(v: RuntimeView, cookie: Seq<char>, o: HelperOutcome)
    ensures
        outcome_phase(HelperOutcome::Authorized) == AuthPhase::Success,
        outcome_phase(HelperOutcome::Denied) == AuthPhase::Failure,
        outcome_phase(HelperOutcome::Canceled) == AuthPhase::Canceled,
        outcome_phase(HelperOutcome::Timeout) == AuthPhase::Timeout,
        v.outcomes.contains_key(cookie) && v.outcomes[cookie] == o ==> ({
            let (after, answer) = take_outcome_spec(v, cookie);
            &&& answer == Some(o)
            &&& take_outcome_spec(after, cookie).1 is None
            &&& !after.canceled.contains(cookie)
            &&& after.queue == v.queue
        }),
        !v.outcomes.contains_key(cookie) ==> take_outcome_spec(v, cookie) == (v, None::<HelperOutcome>),
{
}

/// Whether a successful one-shot authorization must have its temporary
/// authorizations revoked: only when other retention was on offer.
pub open spec fn enforces_retention(options_len: nat, outcome: HelperOutcome, retention: Option<RetentionPolicy>) -> bool {
    outcome == HelperOutcome::Authorized && retention == Some(RetentionPolicy::OneShot)
        && options_len > 1
}

pub fn should_enforce_retention(
    request: &ActiveRequest,
    outcome: HelperOutcome,
    retention: Option<RetentionPolicy>,
) -> (r: bool)
    ensures
        r == enforces_retention(request.retention_options@.len(), outcome, retention),
{
    matches!(outcome, HelperOutcome::Authorized) && matches!(retention, Some(RetentionPolicy::OneShot))
        && request.retention_options.len() > 1
}

/// One-shot retention is enforced (temporary authorizations revoked) only
/// after a successful authentication for which the user kept one-shot while
/// session or longer retention was on offer; never after a denial, a
/// cancel or a timeout, never when a longer retention was chosen or none
/// was chosen, and never when one-shot was the only choice.
pub proof fn law_when_retention_is_enforced(options_len: nat, outcome: HelperOutcome, retention: Option<RetentionPolicy>)
    ensures
        outcome != HelperOutcome::Authorized ==> !enforces_retention(options_len, outcome, retention),
        retention != Some(RetentionPolicy::OneShot) ==> !enforces_retention(
            options_len,
            outcome,
            retention,
        ),
        options_len <= 1 ==> !enforces_retention(options_len, outcome, retention),
        options_len >= 2 ==> enforces_retention(
            options_len,
            HelperOutcome::Authorized,
            Some(RetentionPolicy::OneShot),
        ),
{
}

/// What follows a helper attempt.
#[derive(Debug, Clone, Copy, PartialEq, Eq, Structural)]
pub enum AttemptDecision {
    /// Prompt again (the phase goes back to pending).
    Retry,
    /// Finish the request with this outcome.
    Finish(HelperOutcome),
}

/// The decision after attempt `attempt` of `max_attempts` ended with
/// `result` (`None`: the helper conversation failed), with `canceled`
/// telling whether the request was canceled meanwhile.
pub open spec fn attempt_decision_spec(attempt: nat, max_attempts: nat, result: Option<HelperOutcome>, canceled: bool) -> AttemptDecision {
    match result {
        Some(o) => if canceled {
            AttemptDecision::Finish(HelperOutcome::Canceled)
        } else if o == HelperOutcome::Denied && attempt < max_attempts {
            AttemptDecision::Retry
        } else {
            AttemptDecision::Finish(o)
        },
        None => if attempt < max_attempts {
            AttemptDecision::Retry
        } else {
            AttemptDecision::Finish(HelperOutcome::Denied)
        },
    }
}

pub fn attempt_decision(
    attempt: usize,
    max_attempts: usize,
    result: Option<HelperOutcome>,
    canceled: bool,
) -> (r: AttemptDecision)
    ensures
        r == attempt_decision_spec(attempt as nat, max_attempts as nat, result, canceled),
{
    match result {
        Some(outcome) => {
            if canceled {
                AttemptDecision::Finish(HelperOutcome::Canceled)
            } else if matches!(outcome, HelperOutcome::Denied) && attempt < max_attempts {
                AttemptDecision::Retry
            } else {
                AttemptDecision::Finish(outcome)
            }
        },
        None => {
            if attempt < max_attempts {
                AttemptDecision::Retry
            } else {
                AttemptDecision::Finish(HelperOutcome::Denied)
            }
        },
    }
}

/// Retries stop at the last attempt: the final attempt always finishes.
pub proof fn law_last_attempt_finishes(max_attempts: nat, result: Option<HelperOutcome>, canceled: bool)
    ensures
        attempt_decision_spec(max_attempts, max_attempts, result, canceled) is Finish,
{
}

/// What ends an attempt: a request canceled meanwhile ends as canceled
/// whatever the helper said; otherwise only a denial, or a helper
/// conversation that failed, is retried, and only before the last attempt.
/// Any other outcome ends the request with that outcome, a denial on the
/// last attempt ends it as denied, and so does a failed conversation on
/// the last attempt.
pub proof fn law_what_ends_an_attempt(attempt: nat, max_attempts: nat, o: HelperOutcome, canceled: bool)
    ensures
        canceled ==> attempt_decision_spec(attempt, max_attempts, Some(o), canceled)
            == AttemptDecision::Finish(HelperOutcome::Canceled),
        !canceled && o != HelperOutcome::Denied ==> attempt_decision_spec(
            attempt,
            max_attempts,
            Some(o),
            canceled,
        ) == AttemptDecision::Finish(o),
        !canceled && attempt < max_attempts ==> attempt_decision_spec(
            attempt,
            max_attempts,
            Some(HelperOutcome::Denied),
            canceled,
        ) == AttemptDecision::Retry,
        !canceled && attempt >= max_attempts ==> attempt_decision_spec(
            attempt,
            max_attempts,
            Some(HelperOutcome::Denied),
            canceled,
        ) == AttemptDecision::Finish(HelperOutcome::Denied),
        attempt < max_attempts ==> attempt_decision_spec(attempt, max_attempts, None, canceled)
            == AttemptDecision::Retry,
        attempt >= max_attempts ==> attempt_decision_spec(attempt, max_attempts, None, canceled)
            == AttemptDecision::Finish(HelperOutcome::Denied),
        attempt_decision_spec(attempt, max_attempts, Some(o), canceled) is Retry ==> o
            == HelperOutcome::Denied && !canceled && attempt < max_attempts,
{
}

/// Where authenticating the active request stands: the identity is chosen
/// first, then the retention policy, then the helper is run up to the
/// attempt limit.
#[derive(Debug, Clone, PartialEq, Eq)]
pub enum AuthFlow {
    ChooseIdentity,
    ChooseRetention { username: String },
    Attempt { username: String, retention: RetentionPolicy, attempt: usize },
    Done { outcome: HelperOutcome, retention: Option<RetentionPolicy> },
}

/// What happened since the last step.
#[derive(Debug, Clone, PartialEq, Eq)]
pub enum FlowEvent {
    /// The identity prompt ended.
    IdentityChosen(IdentitySelection),
    /// The retention prompt ended.
    RetentionChosen(RetentionSelection),
    /// An attempt is about to start; whether the request is canceled.
    BeforeAttempt { canceled: bool },
    /// The helper attempt ended (`None`: its conversation failed), and
    /// whether the request was canceled meanwhile.
    AttemptEnded { result: Option<HelperOutcome>, canceled: bool },
}

/// One step of the flow: the next state, and whether the prompts must be
/// told that the next question is a retry (the phase then goes back to
/// pending). An event that does not belong to the state changes nothing.
pub open spec fn flow_step_spec(state: AuthFlow, event: FlowEvent, max_attempts: nat) -> (AuthFlow, bool) {
    match (state, event) {
        (AuthFlow::ChooseIdentity, FlowEvent::IdentityChosen(sel)) => match sel {
            IdentitySelection::Selected(u) => (AuthFlow::ChooseRetention { username: u }, false),
            IdentitySelection::Terminal(o) => (AuthFlow::Done { outcome: o, retention: None }, false),
        },
        (AuthFlow::ChooseRetention { username }, FlowEvent::RetentionChosen(sel)) => match sel {
            RetentionSelection::Selected(p) => (
                AuthFlow::Attempt { username, retention: p, attempt: 1 },
                false,
            ),
            RetentionSelection::Terminal(o) => (AuthFlow::Done { outcome: o, retention: None }, false),
        },
        (AuthFlow::Attempt { username, retention, attempt }, FlowEvent::BeforeAttempt { canceled }) => {
            if canceled {
                (
                    AuthFlow::Done { outcome: HelperOutcome::Canceled, retention: Some(retention) },
                    false,
                )
            } else {
                (AuthFlow::Attempt { username, retention, attempt }, false)
            }
        },
        (
            AuthFlow::Attempt { username, retention, attempt },
            FlowEvent::AttemptEnded { result, canceled },
        ) => match attempt_decision_spec(attempt as nat, max_attempts, result, canceled) {
            AttemptDecision::Retry => (
                AuthFlow::Attempt { username, retention, attempt: (attempt + 1) as usize },
                true,
            ),
            AttemptDecision::Finish(o) => (
                AuthFlow::Done { outcome: o, retention: Some(retention) },
                false,
            ),
        },
        (s, _) => (s, false),
    }
}

/// Attempts are counted from 1 up to the limit.
pub open spec fn flow_wf(state: AuthFlow, max_attempts: nat) -> bool {
    state matches AuthFlow::Attempt { attempt, .. } ==> 1 <= attempt <= max_attempts
}

/// Advances the flow by one event.
pub fn auth_flow_step(state: AuthFlow, event: FlowEvent, max_attempts: usize) -> (r: (AuthFlow, bool))
    requires
        max_attempts >= 1,
        flow_wf(state, max_attempts as nat),
    ensures
        r == flow_step_spec(state, event, max_attempts as nat),
        flow_wf(r.0, max_attempts as nat),
{
    match (state, event) {
        (AuthFlow::ChooseIdentity, FlowEvent::IdentityChosen(sel)) => match sel {
            IdentitySelection::Selected(u) => (AuthFlow::ChooseRetention { username: u }, false),
            IdentitySelection::Terminal(o) => (AuthFlow::Done { outcome: o, retention: None }, false),
        },
        (AuthFlow::ChooseRetention { username }, FlowEvent::RetentionChosen(sel)) => match sel {
            RetentionSelection::Selected(p) => (
                AuthFlow::Attempt { username, retention: p, attempt: 1 },
                false,
            ),
            RetentionSelection::Terminal(o) => (AuthFlow::Done { outcome: o, retention: None }, false),
        },
        (AuthFlow::Attempt { username, retention, attempt }, FlowEvent::BeforeAttempt { canceled }) => {
            if canceled {
                (
                    AuthFlow::Done { outcome: HelperOutcome::Canceled, retention: Some(retention) },
                    false,
                )
            } else {
                (AuthFlow::Attempt { username, retention, attempt }, false)
            }
        },
        (
            AuthFlow::Attempt { username, retention, attempt },
            FlowEvent::AttemptEnded { result, canceled },
        ) => match attempt_decision(attempt, max_attempts, result, canceled) {
            AttemptDecision::Retry => (
                AuthFlow::Attempt { username, retention, attempt: attempt + 1 },
                true,
            ),
            AttemptDecision::Finish(o) => (
                AuthFlow::Done { outcome: o, retention: Some(retention) },
                false,
            ),
        },
        (s, _) => (s, false),
    }
}

/// A canceled request never reaches the helper: before an attempt, a
/// cancellation finishes the flow as canceled, keeping the chosen policy.
pub proof fn law_canceled_request_skips_helper(
    username: String,
    retention: RetentionPolicy,
    attempt: usize,
    max_attempts: nat,
)
    ensures
        flow_step_spec(
            AuthFlow::Attempt { username, retention, attempt },
            FlowEvent::BeforeAttempt { canceled: true },
            max_attempts,
        ).0 == (AuthFlow::Done { outcome: HelperOutcome::Canceled, retention: Some(retention) }),
{
}

/// The helper only runs once an identity and a policy are chosen: the first
/// steps accept nothing but the identity answer, then the retention answer.
pub proof fn law_identity_then_retention_then_attempts(state: AuthFlow, event: FlowEvent, max_attempts: nat)
    ensures
        state == AuthFlow::ChooseIdentity && !(event is IdentityChosen) ==> flow_step_spec(
            state,
            event,
            max_attempts,
        ).0 == state,
        state is ChooseRetention && !(event is RetentionChosen) ==> flow_step_spec(
            state,
            event,
            max_attempts,
        ).0 == state,
        flow_step_spec(state, event, max_attempts).0 is Attempt ==> state is ChooseRetention
            || state is Attempt,
{
}

/// The flow carries the user's choices through: the chosen user is the one
/// the retention step and every attempt run for, the chosen policy stays
/// with every attempt and with the outcome; the first attempt is number
/// one; a retry runs the next attempt for the same user and policy and is
/// the only step that tells the prompts a retry follows; a choice that ends
/// the request ends it with its outcome and no policy; and a finished flow
/// ignores every event.
pub proof fn law_flow_carries_choices(
    u: String,
    p: RetentionPolicy,
    a: usize,
    o: HelperOutcome,
    state: AuthFlow,
    event: FlowEvent,
    max_attempts: nat,
)
    ensures
        flow_step_spec(AuthFlow::ChooseIdentity, FlowEvent::IdentityChosen(IdentitySelection::Selected(u)), max_attempts)
            == (AuthFlow::ChooseRetention { username: u }, false),
        flow_step_spec(AuthFlow::ChooseIdentity, FlowEvent::IdentityChosen(IdentitySelection::Terminal(o)), max_attempts)
            == (AuthFlow::Done { outcome: o, retention: None }, false),
        flow_step_spec(AuthFlow::ChooseRetention { username: u }, FlowEvent::RetentionChosen(RetentionSelection::Selected(p)), max_attempts)
            == (AuthFlow::Attempt { username: u, retention: p, attempt: 1 }, false),
        flow_step_spec(AuthFlow::ChooseRetention { username: u }, FlowEvent::RetentionChosen(RetentionSelection::Terminal(o)), max_attempts)
            == (AuthFlow::Done { outcome: o, retention: None }, false),
        a < max_attempts ==> flow_step_spec(
            AuthFlow::Attempt { username: u, retention: p, attempt: a },
            FlowEvent::AttemptEnded { result: Some(HelperOutcome::Denied), canceled: false },
            max_attempts,
        ) == (AuthFlow::Attempt { username: u, retention: p, attempt: (a + 1) as usize }, true),
        o != HelperOutcome::Denied ==> flow_step_spec(
            AuthFlow::Attempt { username: u, retention: p, attempt: a },
            FlowEvent::AttemptEnded { result: Some(o), canceled: false },
            max_attempts,
        ) == (AuthFlow::Done { outcome: o, retention: Some(p) }, false),
        flow_step_spec(
            AuthFlow::Attempt { username: u, retention: p, attempt: a },
            FlowEvent::BeforeAttempt { canceled: false },
            max_attempts,
        ) == (AuthFlow::Attempt { username: u, retention: p, attempt: a }, false),
        flow_step_spec(state, event, max_attempts).1 ==> state is Attempt && flow_step_spec(
            state,
            event,
            max_attempts,
        ).0 == (AuthFlow::Attempt {
            username: state->Attempt_username,
            retention: state->Attempt_retention,
            attempt: (state->Attempt_attempt + 1) as usize,
        }),
        state is Done ==> flow_step_spec(state, event, max_attempts) == (state, false),
{
}

/// The attempt limit setting: a positive number (after trimming), else 3.
pub open spec fn max_attempts_setting(raw: Option<Seq<char>>) -> usize {
    match raw {
        Some(v) => match parse_unsigned(trim(v), usize::MAX as nat) {
            Some(n) => if n > 0 {
                n as usize
            } else {
                DEFAULT_AUTH_MAX_ATTEMPTS
            },
            None => DEFAULT_AUTH_MAX_ATTEMPTS,
        },
        None => DEFAULT_AUTH_MAX_ATTEMPTS,
    }
}

pub open spec fn opt_str_view(o: Option<&str>) -> Option<Seq<char>> {
    match o {
        Some(s) => Some(s@),
        None => None,
    }
}

pub open spec fn opt_view(o: Option<String>) -> Option<Seq<char>> {
    match o {
        Some(s) => Some(s@),
        None => None,
    }
}

/// The attempt limit: a positive whole number (surrounding blanks allowed)
/// is taken as given; no setting, a blank, zero or anything that is not a
/// number gives the default of three.
pub proof fn law_attempt_limit(raw: Option<Seq<char>>)
    ensures
        max_attempts_setting(raw) > 0,
        raw is None ==> max_attempts_setting(raw) == 3,
        raw matches Some(v) ==> ({
            let k = parse_unsigned(trim(v), usize::MAX as nat);
            &&& k is Some && k->0 > 0 ==> max_attempts_setting(raw) == k->0
            &&& (k is None || k->0 == 0) ==> max_attempts_setting(raw) == 3
        }),
{
}

/// The session id: `$XDG_SESSION_ID` trimmed when it is not blank, and
/// otherwise the trimmed contents of `/proc/self/sessionid`, where blank or
/// `0` means no session.
pub proof fn law_session_id_sources(env: Option<Seq<char>>, proc_raw: Option<Seq<char>>)
    ensures
        env is Some && trim(env->0).len() > 0 ==> env_session_id(env) == Some(trim(env->0)),
        env is None || trim(env->0).len() == 0 ==> env_session_id(env) is None,
        proc_raw is Some && trim(proc_raw->0) == "0"@ ==> proc_session_id(proc_raw) is None,
        proc_raw is Some && trim(proc_raw->0).len() == 0 ==> proc_session_id(proc_raw) is None,
        proc_raw is Some && trim(proc_raw->0).len() > 0 && trim(proc_raw->0) != "0"@
            ==> proc_session_id(proc_raw) == Some(trim(proc_raw->0)),
        proc_raw is None ==> proc_session_id(proc_raw) is None,
{
}

pub fn auth_max_attempts_from(raw: Option<&str>) -> (r: usize)
    ensures
        r == max_attempts_setting(opt_str_view(raw)),
        r > 0,
{
    match raw {
        Some(v) => {
            let t = trim_str(v);
            match parse_unsigned_chars(&t, usize::MAX as u64) {
                Some(n) => if n > 0 {
                    n as usize
                } else {
                    DEFAULT_AUTH_MAX_ATTEMPTS
                },
                None => DEFAULT_AUTH_MAX_ATTEMPTS,
            }
        },
        None => DEFAULT_AUTH_MAX_ATTEMPTS,
    }
}

/// A session id from `$XDG_SESSION_ID`: the trimmed value, when not empty.
pub open spec fn env_session_id(raw: Option<Seq<char>>) -> Option<Seq<char>> {
    match raw {
        Some(v) => if trim(v).len() > 0 {
            Some(trim(v))
        } else {
            None
        },
        None => None,
    }
}

/// A session id from `/proc/self/sessionid`: the trimmed contents, unless
/// empty or `0` (no session).
pub open spec fn proc_session_id(raw: Option<Seq<char>>) -> Option<Seq<char>> {
    match raw {
        Some(v) => if trim(v).len() == 0 || trim(v) == "0"@ {
            None
        } else {
            Some(trim(v))
        },
        None => None,
    }
}

pub fn session_id_from_env(raw: Option<&str>) -> (r: Option<String>)
    ensures
        opt_view(r) == env_session_id(opt_str_view(raw)),
{
    match raw {
        Some(v) => {
            let t = trim_str(v);
            if t.len() > 0 {
                Some(string_of(&t))
            } else {
                None
            }
        },
        None => None,
    }
}

pub fn session_id_from_proc(raw: Option<&str>) -> (r: Option<String>)
    ensures
        opt_view(r) == proc_session_id(opt_str_view(raw)),
{
    match raw {
        Some(v) => {
            let t = trim_str(v);
            if t.len() == 0 || crate::text::equals_str(&t, "0") {
                None
            } else {
                Some(string_of(&t))
            }
        },
        None => None,
    }
}

/// The agent's session: from the environment first, else from `/proc`.
pub fn current_session_id(env_value: Option<&str>, proc_contents: Option<&str>) -> (r: Option<
    String,
>)
    ensures
        opt_view(r) == match env_session_id(opt_str_view(env_value)) {
            Some(s) => Some(s),
            None => proc_session_id(opt_str_view(proc_contents)),
        },
{
    match session_id_from_env(env_value) {
        Some(s) => Some(s),
        None => session_id_from_proc(proc_contents),
    }
}

/// What backend maintenance does.
#[derive(Debug, Clone, Copy, PartialEq, Eq, Structural)]
pub enum MaintenanceAction {
    /// Not registered: register.
    Register,
    /// Registered and the authority answers: nothing.
    Keep,
    /// Registered but the authority does not answer: unregister, register.
    Reconnect,
}

pub fn maintenance_action(registered: bool, healthy: bool) -> (r: MaintenanceAction)
    ensures
        !registered ==> r == MaintenanceAction::Register,
        registered && healthy ==> r == MaintenanceAction::Keep,
        registered && !healthy ==> r == MaintenanceAction::Reconnect,
{
    if !registered {
        MaintenanceAction::Register
    } else if healthy {
        MaintenanceAction::Keep
    } else {
        MaintenanceAction::Reconnect
    }
}

pub open spec fn ids_for_action(auths: Seq<(String, String)>, action_id: Seq<char>) -> Seq<Seq<char>>
    decreases auths.len(),
{
    if auths.len() == 0 {
        seq![]
    } else {
        let before = ids_for_action(auths.drop_last(), action_id);
        if auths.last().1@ == action_id {
            before.push(auths.last().0@)
        } else {
            before
        }
    }
}

/// Ids of the temporary authorizations (`(id, action)` pairs, in order) that
/// belong to `action_id`: those one-shot retention revokes.
pub fn authorization_ids_for_action(authorizations: &Vec<(String, String)>, action_id: &str) -> (r:
    Vec<String>)
    ensures
        r@.map_values(|s: String| s@) == ids_for_action(authorizations@, action_id@),
{
    let mut r: Vec<String> = Vec::new();
    let mut i: usize = 0;
    while i < authorizations.len()
        invariant
            i <= authorizations@.len(),
            r@.map_values(|s: String| s@) =~= ids_for_action(authorizations@.take(i as int), action_id@),
        decreases authorizations.len() - i,
    {
        proof {
            assert(authorizations@.take(i + 1).drop_last() =~= authorizations@.take(i as int));
            assert(authorizations@.take(i + 1).last() == authorizations@[i as int]);
        }
        if str_eq(authorizations[i].1.as_str(), action_id) {
            r.push(authorizations[i].0.clone());
        }
        i += 1;
    }
    assert(authorizations@.take(authorizations@.len() as int) =~= authorizations@);
    r
}

/// How the agent's polkit subject was resolved.
#[derive(Debug, Clone, PartialEq, Eq)]
pub struct SubjectResolution {
    pub kind: String,
    pub session_id: Option<String>,
    pub pid: Option<u32>,
    pub uid: Option<u32>,
    pub start_time_ticks: Option<u64>,
    pub has_start_time: bool,
}

impl SubjectResolution {
    /// A session subject when a session id is known, else a process subject
    /// for `pid`/`uid` with its start time when known.
    pub fn resolve(session_id: Option<String>, pid: u32, uid: u32, start_time_ticks: Option<u64>) -> (r:
        Self)
        ensures
            session_id is Some ==> r.kind@ == "unix-session"@ && opt_view(r.session_id) == opt_view(
                session_id,
            ) && r.pid is None && r.uid is None && r.start_time_ticks is None
                && !r.has_start_time,
            session_id is None ==> r.kind@ == "unix-process"@ && r.session_id is None && r.pid
                == Some(pid) && r.uid == Some(uid) && r.start_time_ticks == start_time_ticks
                && r.has_start_time == start_time_ticks is Some,
    {
        match session_id {
            Some(id) => SubjectResolution {
                kind: "unix-session".to_owned(),
                session_id: Some(id),
                pid: None,
                uid: None,
                start_time_ticks: None,
                has_start_time: false,
            },
            None => SubjectResolution {
                kind: "unix-process".to_owned(),
                session_id: None,
                pid: Some(pid),
                uid: Some(uid),
                start_time_ticks,
                has_start_time: start_time_ticks.is_some(),
            },
        }
    }
}

/// Tells whether the request a prompt serves has been canceled.
pub trait CancelProbe {
    fn is_canceled(&self, cookie: &str) -> bool;
}

impl CancelProbe for AuthRuntime {
    fn is_canceled(&self, cookie: &str) -> (r: bool)
        ensures
            r == self.view().canceled.contains(cookie@),
    {
        AuthRuntime::is_canceled(self, cookie)
    }
}

/// Prompts on behalf of one request: once the request is canceled, prompts
/// answer `Canceled` and feedback is dropped, without reaching `inner`.
pub struct CancellationAwarePrompt<'a, P, C> {
    inner: &'a mut P,
    runtime: &'a C,
    cookie: &'a str,
}

impl<'a, P, C: CancelProbe> CancellationAwarePrompt<'a, P, C> {
    pub fn new(inner: &'a mut P, runtime: &'a C, cookie: &'a str) -> (r: Self)
        ensures
            r.cookie_spec() == cookie@,
            forall|a: bool|
                #[trigger] r.probe_may_answer(a) == call_ensures(C::is_canceled, (runtime, cookie), a),
    {
        CancellationAwarePrompt { inner, runtime, cookie }
    }

    pub closed spec fn cookie_spec(&self) -> Seq<char> {
        self.cookie@
    }

    /// `a` is an answer the probe may give about this request's cookie.
    pub closed spec fn probe_may_answer(&self, a: bool) -> bool {
        call_ensures(C::is_canceled, (self.runtime, self.cookie), a)
    }

    /// The prompt provider the calls are forwarded to, as it stands.
    pub closed spec fn inner_state(&self) -> P {
        *self.inner
    }

    /// `other` serves the same request through the same probe.
    pub closed spec fn same_request(&self, other: Self) -> bool {
        self.runtime == other.runtime && self.cookie == other.cookie
    }

    /// Every answer the probe may give says the request is canceled.
    pub open spec fn surely_canceled(&self) -> bool {
        forall|a: bool| #[trigger] self.probe_may_answer(a) ==> a
    }

    /// Asks the probe whether the request is canceled.
    pub fn canceled(&self) -> (r: bool)
        ensures
            self.probe_may_answer(r),
    {
        self.runtime.is_canceled(self.cookie)
    }
}

impl<'a, P: PromptProvider, C: CancelProbe> PromptProvider for CancellationAwarePrompt<'a, P, C> {
    fn prompt_secret(&mut self, prompt: &str) -> (r: Result<PromptResponse, PromptError>)
        ensures
            old(self).surely_canceled() ==> r == Ok::<PromptResponse, PromptError>(PromptResponse::Canceled),
            exists|a: bool|
                {
                    &&& #[trigger] old(self).probe_may_answer(a)
                    &&& a ==> r == Ok::<PromptResponse, PromptError>(PromptResponse::Canceled) && final(self).inner_state() == old(self).inner_state()
                    &&& !a ==> exists|m: &mut P|
                        {
                            &&& *m == old(self).inner_state()
                            &&& #[trigger] call_ensures(P::prompt_secret, (m, prompt), r)
                            &&& *final(m) == final(self).inner_state()
                        }
                },
            final(self).same_request(*old(self)),
    {
        if self.canceled() {
            return Ok(PromptResponse::Canceled);
        }
        self.inner.prompt_secret(prompt)
    }

    fn prompt_plain(&mut self, prompt: &str) -> (r: Result<PromptResponse, PromptError>)
        ensures
            old(self).surely_canceled() ==> r == Ok::<PromptResponse, PromptError>(PromptResponse::Canceled),
            exists|a: bool|
                {
                    &&& #[trigger] old(self).probe_may_answer(a)
                    &&& a ==> r == Ok::<PromptResponse, PromptError>(PromptResponse::Canceled) && final(self).inner_state() == old(self).inner_state()
                    &&& !a ==> exists|m: &mut P|
                        {
                            &&& *m == old(self).inner_state()
                            &&& #[trigger] call_ensures(P::prompt_plain, (m, prompt), r)
                            &&& *final(m) == final(self).inner_state()
                        }
                },
            final(self).same_request(*old(self)),
    {
        if self.canceled() {
            return Ok(PromptResponse::Canceled);
        }
        self.inner.prompt_plain(prompt)
    }

    fn show_error(&mut self, message: &str) -> (r: Result<(), PromptError>)
        ensures
            old(self).surely_canceled() ==> r is Ok,
            exists|a: bool|
                {
                    &&& #[trigger] old(self).probe_may_answer(a)
                    &&& a ==> r is Ok && final(self).inner_state() == old(self).inner_state()
                    &&& !a ==> exists|m: &mut P|
                        {
                            &&& *m == old(self).inner_state()
                            &&& #[trigger] call_ensures(P::show_error, (m, message), r)
                            &&& *final(m) == final(self).inner_state()
                        }
                },
            final(self).same_request(*old(self)),
    {
        if self.canceled() {
            return Ok(());
        }
        self.inner.show_error(message)
    }

    fn show_info(&mut self, message: &str) -> (r: Result<(), PromptError>)
        ensures
            old(self).surely_canceled() ==> r is Ok,
            exists|a: bool|
                {
                    &&& #[trigger] old(self).probe_may_answer(a)
                    &&& a ==> r is Ok && final(self).inner_state() == old(self).inner_state()
                    &&& !a ==> exists|m: &mut P|
                        {
                            &&& *m == old(self).inner_state()
                            &&& #[trigger] call_ensures(P::show_info, (m, message), r)
                            &&& *final(m) == final(self).inner_state()
                        }
                },
            final(self).same_request(*old(self)),
    {
        if self.canceled() {
            return Ok(());
        }
        self.inner.show_info(message)
    }

    fn auth_succeeded(&mut self) -> (r: Result<(), PromptError>)
        ensures
            old(self).surely_canceled() ==> r is Ok,
            exists|a: bool|
                {
                    &&& #[trigger] old(self).probe_may_answer(a)
                    &&& a ==> r is Ok && final(self).inner_state() == old(self).inner_state()
                    &&& !a ==> exists|m: &mut P|
                        {
                            &&& *m == old(self).inner_state()
                            &&& #[trigger] call_ensures(P::auth_succeeded, (m,), r)
                            &&& *final(m) == final(self).inner_state()
                        }
                },
            final(self).same_request(*old(self)),
    {
        if self.canceled() {
            return Ok(());
        }
        self.inner.auth_succeeded()
    }

    fn auth_failed(&mut self, message: &str) -> (r: Result<(), PromptError>)
        ensures
            old(self).surely_canceled() ==> r is Ok,
            exists|a: bool|
                {
                    &&& #[trigger] old(self).probe_may_answer(a)
                    &&& a ==> r is Ok && final(self).inner_state() == old(self).inner_state()
                    &&& !a ==> exists|m: &mut P|
                        {
                            &&& *m == old(self).inner_state()
                            &&& #[trigger] call_ensures(P::auth_failed, (m, message), r)
                            &&& *final(m) == final(self).inner_state()
                        }
                },
            final(self).same_request(*old(self)),
    {
        if self.canceled() {
            return Ok(());
        }
        self.inner.auth_failed(message)
    }
}

} // verus!
