//! The per-client abuse tracker: a table from client identity to lockout
//! status, driven by a three-operation state machine (`check`,
//! `record_failure`, `record_success`).
//!
//! Every operation is specified against a mathematical model: the table is
//! viewed as a `Map<ClientId, LockoutStatus>`, and each operation's effect is
//! a spec function over that map. The laws the tracker obeys (lockout after
//! enough consecutive failures, cooldown expiry, reset on success) are stated
//! and proved over the same model in [`crate::laws`].

use vstd::prelude::*;

use crate::client::ClientId;

verus! {

/// Number of consecutive failed attempts a client is given before the
/// transition to `Locked`: the failure that arrives when the recorded count
/// stands at `MAX_RETRY - 1` locks the client out.
pub const MAX_RETRY: u64 = 5;

/// Seconds a lockout lasts, measured from the most recent failure observed
/// while locked: twelve hours.
pub const COOLDOWN: i64 = 60 * 60 * 12;

/// Lockout state of one client. Absence of an entry in the table means "no
/// outstanding failure signal"; a present entry is one of these two cases.
#[derive(Clone, Copy, PartialEq, Eq, Debug, Structural)]
pub enum LockoutStatus {
    /// The client has this many consecutive recorded failures, and is still
    /// allowed to attempt. The count lies in `[1, MAX_RETRY - 1]`.
    Attempting(u64),
    /// The client is locked out; the payload is the timestamp (seconds since
    /// epoch) of the most recent failure observed, refreshed by any further
    /// failure that arrives while locked.
    Locked(i64),
}

/// What `check` answers: whether the client may have its credential
/// evaluated at all.
#[derive(Clone, Copy, PartialEq, Eq, Debug, Structural)]
pub enum Decision {
    /// Not locked out: the request may proceed to credential verification.
    Allowed,
    /// Locked out: reject without looking at the credential.
    Denied,
}

/// A status the table may legitimately hold.
pub open spec fn status_valid(st: LockoutStatus) -> bool {
    match st {
        LockoutStatus::Attempting(n) => 1 <= n < MAX_RETRY,
        LockoutStatus::Locked(_) => true,
    }
}

/// The status a client's entry holds in model map `m`, or `None` when the
/// client has no entry.
pub open spec fn status_in(m: Map<ClientId, LockoutStatus>, c: ClientId) -> Option<
    LockoutStatus,
> {
    if m.contains_key(c) {
        Some(m[c])
    } else {
        None
    }
}

/// The status a client moves to when one more failure is recorded at time
/// `now`, given its previous status (`None` for no entry).
pub open spec fn next_status(prev: Option<LockoutStatus>, now: i64) -> LockoutStatus {
    match prev {
        None => LockoutStatus::Attempting(1),
        Some(LockoutStatus::Attempting(n)) => if n == MAX_RETRY - 1 {
            LockoutStatus::Locked(now)
        } else {
            LockoutStatus::Attempting((n + 1) as u64)
        },
        Some(LockoutStatus::Locked(_)) => LockoutStatus::Locked(now),
    }
}

/// Whether recording one more failure now would move the client from a
/// not-yet-locked status to `Locked`.
pub open spec fn locks_now(prev: Option<LockoutStatus>) -> bool {
    match prev {
        Some(LockoutStatus::Attempting(n)) => n == MAX_RETRY - 1,
        _ => false,
    }
}

/// Whether a lockout taken at `locked_at` has lapsed by `now`.
pub open spec fn cooldown_elapsed(locked_at: i64, now: i64) -> bool {
    now - locked_at >= COOLDOWN
}

/// Model of `check`: the decision together with the table it leaves behind.
/// The only mutation `check` ever makes is clearing an entry whose cooldown
/// has elapsed.
pub open spec fn check_model(m: Map<ClientId, LockoutStatus>, c: ClientId, now: i64) -> (
    Decision,
    Map<ClientId, LockoutStatus>,
) {
    match status_in(m, c) {
        None => (Decision::Allowed, m),
        Some(LockoutStatus::Attempting(_)) => (Decision::Allowed, m),
        Some(LockoutStatus::Locked(t)) => if cooldown_elapsed(t, now) {
            (Decision::Allowed, m.remove(c))
        } else {
            (Decision::Denied, m)
        },
    }
}

/// Model of `record_failure`: the client's entry moves to its next status;
/// nothing else changes.
pub open spec fn failure_model(m: Map<ClientId, LockoutStatus>, c: ClientId, now: i64) -> Map<
    ClientId,
    LockoutStatus,
> {
    m.insert(c, next_status(status_in(m, c), now))
}

/// The table itself: a set of entries with pairwise-distinct client keys,
/// mutated one whole operation at a time. The concurrency-safe shared form
/// lives in [`crate::locking`].
///
/// The entries are held as a plain vector rather than a hash table: each
/// operation scans linearly, which costs nothing at the table's size — it
/// holds only clients with outstanding failure signals — and lets the map
/// abstraction above it be specified and proved in full.
pub struct AbuseTracker {
    entries: Vec<(ClientId, LockoutStatus)>,
}

/// Pairwise-distinct keys: each client holds at most one entry.
spec fn distinct_keys(s: Seq<(ClientId, LockoutStatus)>) -> bool {
    forall|i: int, j: int| 0 <= i < j < s.len() ==> (#[trigger] s[i]).0 != (#[trigger] s[j]).0
}

/// All statuses held are legitimate.
spec fn statuses_valid(s: Seq<(ClientId, LockoutStatus)>) -> bool {
    forall|i: int| 0 <= i < s.len() ==> status_valid((#[trigger] s[i]).1)
}

/// The map an entry sequence denotes.
spec fn entries_map(s: Seq<(ClientId, LockoutStatus)>) -> Map<ClientId, LockoutStatus>
    decreases s.len(),
{
    if s.len() == 0 {
        Map::empty()
    } else {
        entries_map(s.drop_last()).insert(s.last().0, s.last().1)
    }
}

/// A key none of the entries carries is not in the denoted map.
proof fn lemma_absent_key(s: Seq<(ClientId, LockoutStatus)>, c: ClientId)
    requires
        forall|j: int| 0 <= j < s.len() ==> (#[trigger] s[j]).0 != c,
    ensures
        !entries_map(s).contains_key(c),
    decreases s.len(),
{
    if s.len() > 0 {
        assert forall|j: int| 0 <= j < s.drop_last().len() implies (#[trigger] s.drop_last()[j]).0
            != c by {
            assert(s.drop_last()[j] == s[j]);
        }
        lemma_absent_key(s.drop_last(), c);
    }
}

/// With distinct keys, the entry at index `i` gives the denoted map's value
/// at its key.
proof fn lemma_present_key(s: Seq<(ClientId, LockoutStatus)>, i: int)
    requires
        distinct_keys(s),
        0 <= i < s.len(),
    ensures
        entries_map(s).contains_key(s[i].0),
        entries_map(s)[s[i].0] == s[i].1,
    decreases s.len(),
{
    if i < s.len() - 1 {
        lemma_drop_last_distinct(s);
        lemma_present_key(s.drop_last(), i);
        assert(s.drop_last()[i] == s[i]);
        assert(s[i].0 != s.last().0);
    }
}

/// Dropping the last entry keeps the keys distinct.
proof fn lemma_drop_last_distinct(s: Seq<(ClientId, LockoutStatus)>)
    requires
        distinct_keys(s),
        s.len() > 0,
    ensures
        distinct_keys(s.drop_last()),
{
    assert forall|i: int, j: int| 0 <= i < j < s.drop_last().len() implies (#[trigger] s.drop_last()[i]).0
        != (#[trigger] s.drop_last()[j]).0 by {
        assert(s.drop_last()[i] == s[i]);
        assert(s.drop_last()[j] == s[j]);
    }
}

/// Appending an entry denotes an insertion.
proof fn lemma_push_inserts(s: Seq<(ClientId, LockoutStatus)>, c: ClientId, st: LockoutStatus)
    ensures
        entries_map(s.push((c, st))) == entries_map(s).insert(c, st),
{
    assert(s.push((c, st)).drop_last() =~= s);
    assert(s.push((c, st)).last() == (c, st));
}

/// Appending an entry whose key no existing entry carries keeps the keys
/// distinct.
proof fn lemma_push_distinct(s: Seq<(ClientId, LockoutStatus)>, c: ClientId, st: LockoutStatus)
    requires
        distinct_keys(s),
        forall|j: int| 0 <= j < s.len() ==> (#[trigger] s[j]).0 != c,
    ensures
        distinct_keys(s.push((c, st))),
{
    let p = s.push((c, st));
    assert forall|i: int, j: int| 0 <= i < j < p.len() implies (#[trigger] p[i]).0 != (
    #[trigger] p[j]).0 by {
        if j < s.len() {
            assert(p[i] == s[i]);
            assert(p[j] == s[j]);
        } else {
            assert(p[i] == s[i]);
            assert(p[j] == (c, st));
        }
    }
}

/// Deleting the entry at index `i` keeps the keys distinct, and no entry
/// carries the deleted key any more.
proof fn lemma_delete_distinct(s: Seq<(ClientId, LockoutStatus)>, i: int)
    requires
        distinct_keys(s),
        0 <= i < s.len(),
    ensures
        distinct_keys(s.remove(i)),
        forall|j: int| 0 <= j < s.remove(i).len() ==> (#[trigger] s.remove(i)[j]).0 != s[i].0,
{
    let r = s.remove(i);
    assert forall|a: int, b: int| 0 <= a < b < r.len() implies (#[trigger] r[a]).0 != (
    #[trigger] r[b]).0 by {
        assert(r[a] == if a < i { s[a] } else { s[a + 1] });
        assert(r[b] == if b < i { s[b] } else { s[b + 1] });
    }
    assert forall|j: int| 0 <= j < r.len() implies (#[trigger] r[j]).0 != s[i].0 by {
        assert(r[j] == if j < i { s[j] } else { s[j + 1] });
    }
}

/// With distinct keys, deleting the entry at index `i` denotes removal of
/// its key.
proof fn lemma_delete_removes(s: Seq<(ClientId, LockoutStatus)>, i: int)
    requires
        distinct_keys(s),
        0 <= i < s.len(),
    ensures
        entries_map(s.remove(i)) =~= entries_map(s).remove(s[i].0),
    decreases s.len(),
{
    let c = s[i].0;
    if i == s.len() - 1 {
        assert(s.remove(i) =~= s.drop_last());
        assert forall|j: int| 0 <= j < s.drop_last().len() implies (#[trigger] s.drop_last()[j]).0
            != c by {
            assert(s.drop_last()[j] == s[j]);
        }
        lemma_absent_key(s.drop_last(), c);
        assert(entries_map(s.drop_last()).insert(c, s[i].1).remove(c) =~= entries_map(
            s.drop_last(),
        ));
    } else {
        lemma_drop_last_distinct(s);
        assert(s.drop_last()[i] == s[i]);
        lemma_delete_removes(s.drop_last(), i);
        assert(s.remove(i).drop_last() =~= s.drop_last().remove(i));
        assert(s.remove(i).last() == s.last());
        assert(c != s.last().0);
        assert(entries_map(s.drop_last()).remove(c).insert(s.last().0, s.last().1)
            =~= entries_map(s.drop_last()).insert(s.last().0, s.last().1).remove(c));
    }
}

/// Every key in the denoted map is carried by some entry.
proof fn lemma_in_dom_has_index(s: Seq<(ClientId, LockoutStatus)>, c: ClientId)
    requires
        entries_map(s).contains_key(c),
    ensures
        exists|i: int| 0 <= i < s.len() && (#[trigger] s[i]).0 == c,
    decreases s.len(),
{
    if s.len() > 0 && s.last().0 != c {
        lemma_in_dom_has_index(s.drop_last(), c);
        let i = choose|i: int| 0 <= i < s.drop_last().len() && (#[trigger] s.drop_last()[i]).0 == c;
        assert(s[i] == s.drop_last()[i]);
    }
}

impl View for AbuseTracker {
    type V = Map<ClientId, LockoutStatus>;

    closed spec fn view(&self) -> Map<ClientId, LockoutStatus> {
        entries_map(self.entries@)
    }
}

impl AbuseTracker {
    /// The table is well formed: one entry per client, every status
    /// legitimate. Constructors establish this and every operation keeps it.
    pub closed spec fn wf(&self) -> bool {
        distinct_keys(self.entries@) && statuses_valid(self.entries@)
    }

    /// Every status a well-formed table holds is legitimate; in particular
    /// an `Attempting` count never leaves `[1, MAX_RETRY - 1]`.
    pub proof fn lemma_status_valid(&self, c: ClientId)
        requires
            self.wf(),
            self@.contains_key(c),
        ensures
            status_valid(self@[c]),
    {
        lemma_in_dom_has_index(self.entries@, c);
        let i = choose|i: int| 0 <= i < self.entries@.len() && (#[trigger] self.entries@[i]).0 == c;
        lemma_present_key(self.entries@, i);
    }

    /// An empty table: no client has an outstanding failure signal.
    pub fn new() -> (t: AbuseTracker)
        ensures
            t.wf(),
            t@ == Map::<ClientId, LockoutStatus>::empty(),
    {
        AbuseTracker { entries: Vec::new() }
    }

    /// Index of the client's entry, if it has one.
    fn find_index(&self, c: &ClientId) -> (r: Option<usize>)
        ensures
            match r {
                Some(i) => i < self.entries@.len() && self.entries@[i as int].0 == *c,
                None => forall|j: int|
                    0 <= j < self.entries@.len() ==> (#[trigger] self.entries@[j]).0 != *c,
            },
    {
        let n = self.entries.len();
        let mut i: usize = 0;
        while i < n
            invariant
                i <= n,
                n == self.entries@.len(),
                forall|j: int| 0 <= j < i ==> (#[trigger] self.entries@[j]).0 != *c,
            decreases n - i,
        {
            if self.entries[i].0 == *c {
                return Some(i);
            }
            i = i + 1;
        }
        None
    }

    /// The client's current status, or `None` when it has no entry.
    pub fn status_of(&self, c: &ClientId) -> (r: Option<LockoutStatus>)
        requires
            self.wf(),
        ensures
            r == status_in(self@, *c),
    {
        match self.find_index(c) {
            Some(i) => {
                proof {
                    lemma_present_key(self.entries@, i as int);
                }
                Some(self.entries[i].1)
            },
            None => {
                proof {
                    lemma_absent_key(self.entries@, *c);
                }
                None
            },
        }
    }

    /// Whether the client may proceed to credential verification at time
    /// `now`: absent or still-attempting clients are allowed; a locked
    /// client is denied until its cooldown has elapsed, at which point the
    /// entry is cleared lazily and the client allowed again.
    pub fn check(&mut self, c: &ClientId, now: i64) -> (d: Decision)
        requires
            old(self).wf(),
        ensures
            final(self).wf(),
            (d, final(self)@) == check_model(old(self)@, *c, now),
    {
        match self.find_index(c) {
            None => {
                proof {
                    lemma_absent_key(self.entries@, *c);
                }
                Decision::Allowed
            },
            Some(i) => {
                proof {
                    lemma_present_key(self.entries@, i as int);
                }
                match self.entries[i].1 {
                    LockoutStatus::Attempting(_) => Decision::Allowed,
                    LockoutStatus::Locked(t) => {
                        if cooldown_elapsed_exec(t, now) {
                            self.delete_at(i);
                            Decision::Allowed
                        } else {
                            Decision::Denied
                        }
                    },
                }
            },
        }
    }

    /// One more failed credential attempt by `c` at time `now`: a first
    /// failure creates `Attempting(1)`; a failure at count `MAX_RETRY - 1`
    /// locks the client out; a failure while locked refreshes the lockout
    /// timestamp. Returns whether this very call locked the client out, so
    /// the caller can log the transition.
    pub fn record_failure(&mut self, c: &ClientId, now: i64) -> (locked: bool)
        requires
            old(self).wf(),
        ensures
            final(self).wf(),
            final(self)@ == failure_model(old(self)@, *c, now),
            locked == locks_now(status_in(old(self)@, *c)),
    {
        match self.find_index(c) {
            None => {
                proof {
                    lemma_absent_key(self.entries@, *c);
                    lemma_push_inserts(self.entries@, *c, LockoutStatus::Attempting(1));
                    lemma_push_distinct(self.entries@, *c, LockoutStatus::Attempting(1));
                }
                self.entries.push((*c, LockoutStatus::Attempting(1)));
                false
            },
            Some(i) => {
                let ghost s0 = self.entries@;
                proof {
                    lemma_present_key(s0, i as int);
                    assert(status_valid(s0[i as int].1));
                }
                let prev = self.entries[i].1;
                let (st, locked): (LockoutStatus, bool) = match prev {
                    LockoutStatus::Attempting(n) => {
                        if n == MAX_RETRY - 1 {
                            (LockoutStatus::Locked(now), true)
                        } else {
                            (LockoutStatus::Attempting(n + 1), false)
                        }
                    },
                    LockoutStatus::Locked(_) => (LockoutStatus::Locked(now), false),
                };
                self.delete_at(i);
                proof {
                    lemma_delete_distinct(s0, i as int);
                    lemma_push_inserts(s0.remove(i as int), *c, st);
                    lemma_push_distinct(s0.remove(i as int), *c, st);
                    assert(entries_map(s0).remove(*c).insert(*c, st) =~= entries_map(s0).insert(
                        *c,
                        st,
                    ));
                }
                self.entries.push((*c, st));
                locked
            },
        }
    }

    /// A successful authentication by `c`: its entry is removed entirely,
    /// whatever it held — the state resets to absent.
    pub fn record_success(&mut self, c: &ClientId)
        requires
            old(self).wf(),
        ensures
            final(self).wf(),
            final(self)@ == old(self)@.remove(*c),
    {
        match self.find_index(c) {
            None => {
                proof {
                    lemma_absent_key(self.entries@, *c);
                    assert(entries_map(self.entries@).remove(*c) =~= entries_map(self.entries@));
                }
            },
            Some(i) => {
                self.delete_at(i);
            },
        }
    }

    /// Delete the entry at index `i`; the denoted map loses exactly its key.
    fn delete_at(&mut self, i: usize)
        requires
            old(self).wf(),
            i < old(self).entries@.len(),
        ensures
            final(self).wf(),
            final(self)@ == old(self)@.remove(old(self).entries@[i as int].0),
            final(self).entries@ == old(self).entries@.remove(i as int),
    {
        proof {
            lemma_delete_removes(self.entries@, i as int);
            lemma_delete_distinct(self.entries@, i as int);
        }
        let _ = self.entries.remove(i);
    }
}

/// Exec mirror of [`cooldown_elapsed`]: computed over 128-bit integers so no
/// pair of timestamps can overflow.
fn cooldown_elapsed_exec(locked_at: i64, now: i64) -> (b: bool)
    ensures
        b == cooldown_elapsed(locked_at, now),
{
    (now as i128) - (locked_at as i128) >= (COOLDOWN as i128)
}

} // verus!
