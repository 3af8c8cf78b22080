//! Registry of running authentication sessions: each request gets a fresh id,
//! the most recent one is "current", and a cancel request marks the current
//! session as cancelled. A session keeps its mark after it has finished.

use std::collections::HashSet;
use vstd::prelude::*;

verus! {

broadcast use vstd::std_specs::hash::group_hash_axioms;

/// Abstract state of the registry: how many ids were handed out, the current
/// session (0 for none), the sessions that have not finished yet, and every
/// session that was ever asked to stop.
pub struct ControlView {
    pub issued: u64,
    pub current: u64,
    pub live: Set<u64>,
    pub cancelled: Set<u64>,
}

/// Every live or cancelled id was handed out (ids start at 1), and the
/// current session is the most recently registered one while it has not
/// finished, 0 otherwise.
pub open spec fn control_wf(v: ControlView) -> bool {
    &&& forall|k: u64| #[trigger] v.live.contains(k) ==> 1 <= k <= v.issued
    &&& forall|k: u64| #[trigger] v.cancelled.contains(k) ==> 1 <= k <= v.issued
    &&& v.current == (if v.live.contains(v.issued) { v.issued } else { 0 })
}

/// State after a registration: the next id becomes live and current; no
/// cancellation mark changes.
pub open spec fn registered(v: ControlView) -> ControlView {
    ControlView {
        issued: (v.issued + 1) as u64,
        current: (v.issued + 1) as u64,
        live: v.live.insert((v.issued + 1) as u64),
        cancelled: v.cancelled,
    }
}

/// State after session `id` finished: it is no longer live, and no longer
/// current if it was; its cancellation mark stays.
pub open spec fn finished(v: ControlView, id: u64) -> ControlView {
    ControlView {
        issued: v.issued,
        current: if v.current == id { 0 } else { v.current },
        live: v.live.remove(id),
        cancelled: v.cancelled,
    }
}

/// Whether a cancel request finds a live current session.
pub open spec fn cancel_hits(v: ControlView) -> bool {
    v.current != 0 && v.live.contains(v.current)
}

/// State after a cancel request: the current session is marked cancelled
/// when it is live; nothing else changes.
pub open spec fn cancelled(v: ControlView) -> ControlView {
    if cancel_hits(v) {
        ControlView {
            issued: v.issued,
            current: v.current,
            live: v.live,
            cancelled: v.cancelled.insert(v.current),
        }
    } else {
        v
    }
}

/// Whether session `id` has been asked to stop.
pub open spec fn flag_of(v: ControlView, id: u64) -> bool {
    v.cancelled.contains(id)
}

/// A handle on one registered session.
#[derive(Clone, Debug)]
pub struct AuthSession {
    id: u64,
}

impl AuthSession {
    pub closed spec fn session_id(&self) -> u64 {
        self.id
    }

    pub fn id(&self) -> (r: u64)
        ensures
            r == self.session_id(),
    {
        self.id
    }

    /// Whether this session was cancelled through `control`, before or after
    /// it finished.
    pub fn is_cancelled(&self, control: &AuthControl) -> (r: bool)
        ensures
            r == flag_of(control@, self.session_id()),
    {
        control.cancelled.contains(&self.id)
    }
}

pub struct AuthControl {
    next_id: u64,
    current_id: u64,
    live: HashSet<u64>,
    cancelled: HashSet<u64>,
}

impl View for AuthControl {
    type V = ControlView;

    closed spec fn view(&self) -> ControlView {
        ControlView {
            issued: self.next_id,
            current: self.current_id,
            live: self.live@,
            cancelled: self.cancelled@,
        }
    }
}

impl AuthControl {
    /// An empty registry: no id handed out, no current session.
    pub fn new() -> (r: AuthControl)
        ensures
            r@.issued == 0,
            r@.current == 0,
            r@.live == Set::<u64>::empty(),
            r@.cancelled == Set::<u64>::empty(),
            control_wf(r@),
    {
        AuthControl { next_id: 0, current_id: 0, live: HashSet::new(), cancelled: HashSet::new() }
    }

    /// How many ids have been handed out.
    pub fn issued(&self) -> (r: u64)
        ensures
            r == self@.issued,
    {
        self.next_id
    }

    /// Hands out the next id and makes it the current session.
    pub fn register(&mut self) -> (r: AuthSession)
        requires
            old(self)@.issued < u64::MAX,
        ensures
            r.session_id() == old(self)@.issued + 1,
            final(self)@ == registered(old(self)@),
            control_wf(old(self)@) ==> control_wf(final(self)@),
    {
        let id = self.next_id + 1;
        self.next_id = id;
        self.live.insert(id);
        self.current_id = id;
        AuthSession { id }
    }

    /// Forgets session `id`; it stops being current if it was. Its
    /// cancellation mark is kept.
    pub fn finish(&mut self, id: u64)
        ensures
            final(self)@ == finished(old(self)@, id),
            control_wf(old(self)@) ==> control_wf(final(self)@),
    {
        self.live.remove(&id);
        if self.current_id == id {
            self.current_id = 0;
        }
    }

    /// Asks the current session to stop; `true` when there was one to ask.
    pub fn cancel_current(&mut self) -> (r: bool)
        ensures
            r == cancel_hits(old(self)@),
            final(self)@ == cancelled(old(self)@),
            control_wf(old(self)@) ==> control_wf(final(self)@),
    {
        let current = self.current_id;
        if current == 0 {
            return false;
        }
        if self.live.contains(&current) {
            self.cancelled.insert(current);
            true
        } else {
            false
        }
    }
}

/// In a well-formed registry the current session, when there is one, is the
/// newest live session: the most recently registered id, not yet finished.
pub proof fn lemma_current_is_newest(v: ControlView)
    requires
        control_wf(v),
        v.current != 0,
    ensures
        v.current == v.issued,
        v.live.contains(v.current),
        forall|k: u64| #[trigger] v.live.contains(k) ==> k <= v.current,
{
}

/// A cancel request succeeds exactly when the most recently registered
/// session exists and has not finished. It then marks that session and no
/// other; otherwise it changes nothing. Asking again gives the same answer.
pub proof fn lemma_cancel_current(v: ControlView)
    requires
        control_wf(v),
    ensures
        cancel_hits(v) <==> (v.issued >= 1 && v.live.contains(v.issued)),
        cancel_hits(v) ==> flag_of(cancelled(v), v.issued),
        forall|k: u64| k != v.current ==> flag_of(cancelled(v), k) == flag_of(v, k),
        !cancel_hits(v) ==> cancelled(v) == v,
        cancel_hits(cancelled(v)) == cancel_hits(v),
        control_wf(cancelled(v)),
{
}

/// A cancellation mark is never lost: finishing any session and registering
/// new ones leave every session's mark as it was.
pub proof fn lemma_flags_persist(v: ControlView, id: u64, k: u64)
    ensures
        flag_of(finished(v, id), k) == flag_of(v, k),
        flag_of(registered(v), k) == flag_of(v, k),
        flag_of(cancelled(v), k) ==> !flag_of(v, k) ==> k == v.current,
        flag_of(v, k) ==> flag_of(cancelled(v), k),
{
}

/// A session that was just registered is current, not cancelled, and can be
/// cancelled; the cancel marks it and leaves every other session's mark.
pub proof fn lemma_register_then_cancel(v: ControlView)
    requires
        control_wf(v),
        v.issued < u64::MAX,
    ensures
        !v.live.contains((v.issued + 1) as u64),
        !flag_of(registered(v), (v.issued + 1) as u64),
        cancel_hits(registered(v)),
        flag_of(cancelled(registered(v)), (v.issued + 1) as u64),
        forall|k: u64| k != v.issued + 1 ==> flag_of(cancelled(registered(v)), k) == flag_of(v, k),
{
}

/// Once the current session has finished, a cancel request finds nothing and
/// changes nothing, even while older sessions are still running.
pub proof fn lemma_finish_then_cancel(v: ControlView)
    requires
        control_wf(v),
    ensures
        !cancel_hits(finished(v, v.current)),
        cancelled(finished(v, v.current)) == finished(v, v.current),
{
}

/// A cancel request only ever marks the current session.
pub proof fn lemma_cancel_only_current(v: ControlView, k: u64)
    requires
        k != v.current,
    ensures
        flag_of(cancelled(v), k) == flag_of(v, k),
        cancelled(v).issued == v.issued,
        cancelled(v).current == v.current,
        cancelled(v).live == v.live,
{
}

} // verus!
