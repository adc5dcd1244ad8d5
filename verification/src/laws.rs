//! The laws the tracker and the auth layer obey, stated over the same
//! mathematical models their contracts use and proved once and for all.

use vstd::prelude::*;

use crate::client::ClientId;
use crate::credential::{basic_prefix, credential_matches, has_basic_prefix, visible_ascii};
use crate::gate::{gate_model, header_text_ok, GateOutcome, RejectReason};
use crate::tracker::{
    check_model, cooldown_elapsed, failure_model, status_in, Decision, LockoutStatus,
    MAX_RETRY,
};

verus! {

/// The table after a run of consecutive recorded failures by one client,
/// one at each timestamp of `times`, in order.
pub open spec fn apply_failures(
    m: Map<ClientId, LockoutStatus>,
    c: ClientId,
    times: Seq<i64>,
) -> Map<ClientId, LockoutStatus>
    decreases times.len(),
{
    if times.len() == 0 {
        m
    } else {
        failure_model(apply_failures(m, c, times.drop_last()), c, times.last())
    }
}

/// Serialized consecutive failures count exactly, with no lost updates:
/// starting from no entry, `n` recorded failures leave `Attempting(n)` while
/// `n` stays below `MAX_RETRY`, and from the `MAX_RETRY`-th failure on the
/// client is `Locked` with the timestamp of the latest failure. No other
/// client's entry is touched.
pub proof fn lemma_consecutive_failures(
    m: Map<ClientId, LockoutStatus>,
    c: ClientId,
    times: Seq<i64>,
)
    requires
        !m.contains_key(c),
        times.len() >= 1,
    ensures
        ({
            let result = apply_failures(m, c, times);
            &&& result.contains_key(c)
            &&& times.len() < MAX_RETRY ==> result[c] == LockoutStatus::Attempting(
                times.len() as u64,
            )
            &&& times.len() >= MAX_RETRY ==> result[c] == LockoutStatus::Locked(times.last())
            &&& forall|k: ClientId|
                k != c ==> status_in(result, k) == #[trigger] status_in(m, k)
        }),
    decreases times.len(),
{
    if times.len() == 1 {
    } else {
        lemma_consecutive_failures(m, c, times.drop_last());
    }
}

/// Once a client is locked and its cooldown has not yet elapsed, `check`
/// denies it — regardless of any credential, which the auth layer never even
/// evaluates for a denied client — and leaves the table as it is.
pub proof fn lemma_locked_denies(
    m: Map<ClientId, LockoutStatus>,
    c: ClientId,
    locked_at: i64,
    now: i64,
)
    requires
        status_in(m, c) == Some(LockoutStatus::Locked(locked_at)),
        !cooldown_elapsed(locked_at, now),
    ensures
        check_model(m, c, now) == (Decision::Denied, m),
{
}

/// Once a locked client's most recent failure lies a full cooldown in the
/// past, the next `check` allows it and clears its entry.
pub proof fn lemma_cooldown_clears(
    m: Map<ClientId, LockoutStatus>,
    c: ClientId,
    locked_at: i64,
    now: i64,
)
    requires
        status_in(m, c) == Some(LockoutStatus::Locked(locked_at)),
        cooldown_elapsed(locked_at, now),
    ensures
        check_model(m, c, now) == (Decision::Allowed, m.remove(c)),
        !check_model(m, c, now).1.contains_key(c),
{
}

/// A successful verification resets the client to absent: whenever the auth layer
/// forwards a request, the client's entry is gone from the table it leaves
/// behind, whatever the entry held before.
pub proof fn lemma_success_resets(
    m: Map<ClientId, LockoutStatus>,
    token: Seq<u8>,
    c: ClientId,
    h: Seq<u8>,
    now: i64,
)
    requires
        gate_model(m, token, c, Some(h), now).0 == GateOutcome::Forward,
    ensures
        !gate_model(m, token, c, Some(h), now).1.contains_key(c),
{
}

/// A correctly presented canonical credential is never rejected for its
/// bytes: `"Basic "` followed by a visible-ASCII token — and every token
/// the verifier is built with is visible ASCII — is readable header text
/// and matches, so the auth layer forwards it whenever the tracker allows
/// the client, and only a standing lockout can turn it away.
pub proof fn lemma_correct_credential_accepted(
    m: Map<ClientId, LockoutStatus>,
    token: Seq<u8>,
    c: ClientId,
    now: i64,
)
    requires
        visible_ascii(token),
    ensures
        ({
            let h = basic_prefix() + token;
            let o = gate_model(m, token, c, Some(h), now).0;
            &&& check_model(m, c, now).0 == Decision::Allowed ==> o == GateOutcome::Forward
            &&& check_model(m, c, now).0 == Decision::Denied ==> o == GateOutcome::Unauthorized(
                RejectReason::LockedOut,
            )
        }),
{
    let h = basic_prefix() + token;
    assert(basic_prefix()[0] == 66);
    assert(basic_prefix()[1] == 97);
    assert(basic_prefix()[2] == 115);
    assert(basic_prefix()[3] == 105);
    assert(basic_prefix()[4] == 99);
    assert(basic_prefix()[5] == 32);
    assert(header_text_ok(h)) by {
        assert forall|i: int| 0 <= i < h.len() implies (32 <= #[trigger] h[i] < 127 || h[i]
            == 9) by {
            if i < 6 {
                assert(h[i] == basic_prefix()[i]);
            } else {
                assert(h[i] == token[i - 6]);
            }
        }
    }
    assert(has_basic_prefix(h)) by {
        assert(h.subrange(0, 6) =~= basic_prefix());
    }
    assert(credential_matches(token, h)) by {
        assert(h.subrange(6, h.len() as int) =~= token);
    }
}

/// A request whose header carries the wrong scheme never creates a tracker
/// entry: for a client with no entry it is rejected and the table comes
/// back unchanged, so repeated such attempts never accumulate anything.
pub proof fn lemma_wrong_scheme_never_tracked(
    m: Map<ClientId, LockoutStatus>,
    token: Seq<u8>,
    c: ClientId,
    h: Seq<u8>,
    now: i64,
)
    requires
        !m.contains_key(c),
        header_text_ok(h),
        !has_basic_prefix(h),
    ensures
        gate_model(m, token, c, Some(h), now) == (
            GateOutcome::Unauthorized(RejectReason::NoBasicPrefix),
            m,
        ),
{
}

} // verus!
