//! The authentication layer: the per-request decision procedure that
//! orchestrates the abuse tracker and the credential verifier around an
//! inner handler.
//!
//! The whole decision is specified as one function of plain values,
//! [`gate_model`]: given the tracker's table, the canonical token, the
//! client identity, the presented `Authorization` header (if any) and the
//! current time, it yields the outcome and the table left behind.
//! [`gate_request`] is the verified decision procedure against a directly
//! held table and carries that full contract; [`AuthMiddleware::authorize`]
//! performs the same steps against the shared, lock-guarded table, taking
//! the lock once per tracker operation and never across anything else.

use vstd::prelude::*;

use crate::client::ClientId;
use crate::credential::{
    credential_matches, credential_supplied, has_basic_prefix, Auth,
};
use crate::locking::SharedTracker;
use crate::tracker::{
    check_model, failure_model, locks_now, status_in, AbuseTracker, Decision, LockoutStatus,
};

verus! {

/// Why the auth layer rejected a request. Every rejection is answered the same
/// way on the wire — status 401, `WWW-Authenticate: Basic`, empty body —
/// but callers log the reason, and the lockout transition in particular.
#[derive(Clone, Copy, PartialEq, Eq, Debug, Structural)]
pub enum RejectReason {
    /// The request carried no `Authorization` header; the tracker is never
    /// consulted.
    NoHeader,
    /// The header's bytes are not readable header text; folded into an
    /// authentication failure, with no risk signal recorded.
    BadHeaderBytes,
    /// The client is locked out; the credential was never evaluated.
    LockedOut,
    /// The header lacks the `"Basic "` scheme prefix: no credential was
    /// supplied, so no risk signal is recorded.
    NoBasicPrefix,
    /// A supplied credential did not match; the failure was recorded, and
    /// `locked_now` says whether that very failure locked the client out.
    WrongCredential { locked_now: bool },
}

/// What the auth layer decided for one request.
#[derive(Clone, Copy, PartialEq, Eq, Debug, Structural)]
pub enum GateOutcome {
    /// Authorized: forward the request unchanged to the inner handler and
    /// return its response verbatim.
    Forward,
    /// Rejected: respond 401 with `WWW-Authenticate: Basic` and an empty
    /// body.
    Unauthorized(RejectReason),
}

/// Readable header text, as headers on the wire allow it: visible ASCII,
/// space or horizontal tab in every position.
pub open spec fn header_text_ok(h: Seq<u8>) -> bool {
    forall|i: int| 0 <= i < h.len() ==> (32 <= #[trigger] h[i] < 127 || h[i] == 9)
}

/// The header argument as the model sees it.
pub open spec fn header_view(header: Option<&Vec<u8>>) -> Option<Seq<u8>> {
    match header {
        None => None,
        Some(h) => Some(h@),
    }
}

/// The auth layer's whole per-request decision: outcome, and the table left
/// behind.
///
/// In order: a missing header rejects without touching the table; unreadable
/// header bytes likewise; then the tracker is consulted (which may lazily
/// clear an elapsed lockout) and a locked client is rejected before any
/// credential work; a header without the Basic prefix rejects with no risk
/// signal; a matching credential forwards and clears the client's entry; a
/// wrong credential records one failure.
pub open spec fn gate_model(
    m: Map<ClientId, LockoutStatus>,
    token: Seq<u8>,
    c: ClientId,
    header: Option<Seq<u8>>,
    now: i64,
) -> (GateOutcome, Map<ClientId, LockoutStatus>) {
    match header {
        None => (GateOutcome::Unauthorized(RejectReason::NoHeader), m),
        Some(h) => if !header_text_ok(h) {
            (GateOutcome::Unauthorized(RejectReason::BadHeaderBytes), m)
        } else {
            let (d, m1) = check_model(m, c, now);
            if d == Decision::Denied {
                (GateOutcome::Unauthorized(RejectReason::LockedOut), m1)
            } else if !has_basic_prefix(h) {
                (GateOutcome::Unauthorized(RejectReason::NoBasicPrefix), m1)
            } else if credential_matches(token, h) {
                (GateOutcome::Forward, m1.remove(c))
            } else {
                (
                    GateOutcome::Unauthorized(
                        RejectReason::WrongCredential {
                            locked_now: locks_now(status_in(m1, c)),
                        },
                    ),
                    failure_model(m1, c, now),
                )
            }
        },
    }
}

/// The auth layer's decision procedure against a directly held table: performs
/// exactly what [`gate_model`] says, one tracker operation at a time.
pub fn gate_request(
    auth: &Auth,
    tracker: &mut AbuseTracker,
    c: &ClientId,
    header: Option<&Vec<u8>>,
    now: i64,
) -> (o: GateOutcome)
    requires
        old(tracker).wf(),
    ensures
        final(tracker).wf(),
        (o, final(tracker)@) == gate_model(
            old(tracker)@,
            auth.token(),
            *c,
            header_view(header),
            now,
        ),
        header is None ==> final(tracker)@ == old(tracker)@,
        o == GateOutcome::Forward ==> (header matches Some(h) && credential_matches(
            auth.token(),
            h@,
        )),
{
    match header {
        None => GateOutcome::Unauthorized(RejectReason::NoHeader),
        Some(h) => {
            if !header_text_ok_exec(h) {
                return GateOutcome::Unauthorized(RejectReason::BadHeaderBytes);
            }
            match tracker.check(c, now) {
                Decision::Denied => GateOutcome::Unauthorized(RejectReason::LockedOut),
                Decision::Allowed => {
                    if !credential_supplied(h) {
                        GateOutcome::Unauthorized(RejectReason::NoBasicPrefix)
                    } else if auth.verify(h) {
                        tracker.record_success(c);
                        GateOutcome::Forward
                    } else {
                        let locked_now = tracker.record_failure(c, now);
                        GateOutcome::Unauthorized(RejectReason::WrongCredential { locked_now })
                    }
                },
            }
        },
    }
}

/// The middleware: the credential verifier and a handle on the shared abuse
/// table, injected at construction, wrapped around an inner handler.
/// Cloning it clones the inner handler and shares the same abuse table.
#[derive(Clone)]
pub struct AuthMiddleware<S> {
    inner: S,
    auth: Auth,
    tracker: SharedTracker,
}

impl<S> AuthMiddleware<S> {
    /// The canonical token this middleware compares against.
    pub closed spec fn token(&self) -> Seq<u8> {
        self.auth.token()
    }

    /// The inner handler authorized requests are forwarded to.
    pub closed spec fn spec_inner(&self) -> S {
        self.inner
    }

    /// The shared abuse table handle this middleware consults.
    pub closed spec fn spec_tracker(&self) -> SharedTracker {
        self.tracker
    }

    /// Build the middleware around an inner handler, with the verifier and the
    /// shared abuse table it is to consult.
    pub fn new(inner: S, auth: Auth, tracker: SharedTracker) -> (m: AuthMiddleware<S>)
        ensures
            m.token() == auth.token(),
            m.spec_inner() == inner,
            m.spec_tracker() == tracker,
    {
        AuthMiddleware { inner, auth, tracker }
    }

    /// Borrow the inner handler, for the caller that forwards an authorized
    /// request.
    pub fn inner_ref(&self) -> (r: &S)
        ensures
            *r == self.spec_inner(),
    {
        &self.inner
    }

    /// Borrow the inner handler mutably, for a caller that must drive it
    /// (poll it, call it); the verifier and the table handle stay as they
    /// are.
    pub fn inner_mut(&mut self) -> (r: &mut S)
        ensures
            *r == old(self).spec_inner(),
            final(self).spec_inner() == *final(r),
            final(self).token() == old(self).token(),
            final(self).spec_tracker() == old(self).spec_tracker(),
    {
        &mut self.inner
    }

    /// The per-request decision against the shared table: the same steps as
    /// [`gate_request`], with the exclusive lock taken once per tracker
    /// operation and released before anything else — never across
    /// credential comparison or forwarding.
    ///
    /// The table behind the lock is shared with concurrent requests, so the
    /// contract speaks only of what holds whatever the table held: a
    /// missing header is rejected as such and nothing else ever is;
    /// unreadable bytes likewise; a prefixless header is never recorded;
    /// each remaining rejection reason is claimed only on inputs that can
    /// produce it, so the caller's log never names a wrong cause; the
    /// request is forwarded only when the presented credential matches the
    /// canonical token; and a matching credential is never counted as a
    /// failure — it either goes through or, while the client is locked
    /// out, is rejected unexamined.
    pub fn authorize(&self, c: &ClientId, header: Option<&Vec<u8>>, now: i64) -> (o: GateOutcome)
        ensures
            (o == GateOutcome::Unauthorized(RejectReason::NoHeader)) <==> header is None,
            (o == GateOutcome::Unauthorized(RejectReason::BadHeaderBytes)) <==> (header
                matches Some(h) && !header_text_ok(h@)),
            o == GateOutcome::Unauthorized(RejectReason::NoBasicPrefix) ==> (header
                matches Some(h) && header_text_ok(h@) && !has_basic_prefix(h@)),
            (header matches Some(h) && header_text_ok(h@) && !has_basic_prefix(h@)) ==> (o
                == GateOutcome::Unauthorized(RejectReason::LockedOut) || o
                == GateOutcome::Unauthorized(RejectReason::NoBasicPrefix)),
            o == GateOutcome::Unauthorized(RejectReason::LockedOut) ==> (header matches Some(h)
                && header_text_ok(h@)),
            (o matches GateOutcome::Unauthorized(
                RejectReason::WrongCredential { locked_now: _ },
            )) ==> (header matches Some(h) && header_text_ok(h@) && has_basic_prefix(h@)
                && !credential_matches(self.token(), h@)),
            o == GateOutcome::Forward ==> (header matches Some(h) && credential_matches(
                self.token(),
                h@,
            )),
            (header matches Some(h) && header_text_ok(h@) && credential_matches(
                self.token(),
                h@,
            )) ==> (o == GateOutcome::Forward || o == GateOutcome::Unauthorized(
                RejectReason::LockedOut,
            )),
    {
        match header {
            None => GateOutcome::Unauthorized(RejectReason::NoHeader),
            Some(h) => {
                if !header_text_ok_exec(h) {
                    return GateOutcome::Unauthorized(RejectReason::BadHeaderBytes);
                }
                match self.tracker.check(c, now) {
                    Decision::Denied => GateOutcome::Unauthorized(RejectReason::LockedOut),
                    Decision::Allowed => {
                        if !credential_supplied(h) {
                            GateOutcome::Unauthorized(RejectReason::NoBasicPrefix)
                        } else if self.auth.verify(h) {
                            self.tracker.record_success(c);
                            GateOutcome::Forward
                        } else {
                            let locked_now = self.tracker.record_failure(c, now);
                            GateOutcome::Unauthorized(
                                RejectReason::WrongCredential { locked_now },
                            )
                        }
                    },
                }
            },
        }
    }
}

/// Exec mirror of [`header_text_ok`].
fn header_text_ok_exec(h: &Vec<u8>) -> (b: bool)
    ensures
        b == header_text_ok(h@),
{
    let n = h.len();
    let mut i: usize = 0;
    while i < n
        invariant
            i <= n,
            n == h@.len(),
            forall|j: int| 0 <= j < i ==> (32 <= #[trigger] h@[j] < 127 || h@[j] == 9),
        decreases n - i,
    {
        let b = h[i];
        if !(b >= 32 && b < 127 || b == 9) {
            return false;
        }
        i = i + 1;
    }
    true
}

} // verus!
