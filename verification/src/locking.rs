//! The process-wide shared abuse table: the [`AbuseTracker`] guarded by one
//! exclusive lock, acquired independently for each operation and released
//! before the request is forwarded anywhere.
//!
//! The lock is `vstd`'s verified reader-writer lock, used here in its
//! exclusive mode only; its invariant carries the table's well-formedness,
//! so every acquisition hands back a table the tracker's own contracts
//! apply to. Cloning a [`SharedTracker`] yields another handle on the same
//! table, which is how the middleware and isolated tests share one instance.

use std::sync::Arc;

use vstd::prelude::*;
use vstd::rwlock::{RwLock, RwLockPredicate};

use crate::client::ClientId;
use crate::tracker::{AbuseTracker, Decision};

verus! {

/// The lock's invariant: whatever table the lock stores is well formed.
pub struct TrackerWf {}

impl RwLockPredicate<AbuseTracker> for TrackerWf {
    open spec fn inv(self, t: AbuseTracker) -> bool {
        t.wf()
    }
}

/// A shared-ownership handle on one lock-guarded abuse table.
#[derive(Clone)]
pub struct SharedTracker {
    lock: Arc<RwLock<AbuseTracker, TrackerWf>>,
}

impl SharedTracker {
    /// A fresh, empty shared table.
    pub fn new() -> SharedTracker {
        let tracker = AbuseTracker::new();
        SharedTracker { lock: Arc::new(RwLock::new(tracker, Ghost(TrackerWf {}))) }
    }

    /// `check` under the lock: one acquisition, held only for the table
    /// read (and the lazy clearing of an elapsed lockout).
    pub fn check(&self, c: &ClientId, now: i64) -> Decision {
        let (mut t, handle) = self.lock.acquire_write();
        let d = t.check(c, now);
        handle.release_write(t);
        d
    }

    /// `record_failure` under the lock: one acquisition, held only for the
    /// table update. Returns whether this call locked the client out.
    pub fn record_failure(&self, c: &ClientId, now: i64) -> bool {
        let (mut t, handle) = self.lock.acquire_write();
        let locked = t.record_failure(c, now);
        handle.release_write(t);
        locked
    }

    /// `record_success` under the lock: one acquisition, held only for the
    /// table update.
    pub fn record_success(&self, c: &ClientId) {
        let (mut t, handle) = self.lock.acquire_write();
        t.record_success(c);
        handle.release_write(t);
    }
}

} // verus!
