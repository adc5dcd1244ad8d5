use authgate::client::ClientId;
use authgate::tracker::{AbuseTracker, Decision, LockoutStatus, COOLDOWN, MAX_RETRY};

#[test]
fn first_failure_creates_attempting_one() {
    let mut t = AbuseTracker::new();
    let c = ClientId::V4(0x0a000001);
    assert_eq!(t.status_of(&c), None);
    let locked = t.record_failure(&c, 1_000);
    assert!(!locked);
    assert_eq!(t.status_of(&c), Some(LockoutStatus::Attempting(1)));
}

#[test]
fn failures_count_up_then_lock() {
    let mut t = AbuseTracker::new();
    let c = ClientId::V4(0x0a000005);
    for k in 1..MAX_RETRY {
        let locked = t.record_failure(&c, 1_000 + k as i64);
        assert!(!locked);
        assert_eq!(t.status_of(&c), Some(LockoutStatus::Attempting(k)));
        assert_eq!(t.check(&c, 1_000 + k as i64), Decision::Allowed);
    }
    let locked = t.record_failure(&c, 2_000);
    assert!(locked);
    assert_eq!(t.status_of(&c), Some(LockoutStatus::Locked(2_000)));
}

#[test]
fn locked_denies_before_cooldown() {
    let mut t = AbuseTracker::new();
    let c = ClientId::V6(7);
    for k in 0..MAX_RETRY {
        t.record_failure(&c, 5_000 + k as i64);
    }
    let locked_at = 5_000 + MAX_RETRY as i64 - 1;
    assert_eq!(t.status_of(&c), Some(LockoutStatus::Locked(locked_at)));
    assert_eq!(t.check(&c, locked_at), Decision::Denied);
    assert_eq!(t.check(&c, locked_at + COOLDOWN - 1), Decision::Denied);
    assert_eq!(t.status_of(&c), Some(LockoutStatus::Locked(locked_at)));
}

#[test]
fn cooldown_clears_entry() {
    let mut t = AbuseTracker::new();
    let c = ClientId::V4(42);
    for k in 0..MAX_RETRY {
        t.record_failure(&c, 10_000 + k as i64);
    }
    let locked_at = 10_000 + MAX_RETRY as i64 - 1;
    assert_eq!(t.check(&c, locked_at + COOLDOWN), Decision::Allowed);
    assert_eq!(t.status_of(&c), None);
}

#[test]
fn failure_while_locked_refreshes_timestamp() {
    let mut t = AbuseTracker::new();
    let c = ClientId::V4(9);
    for k in 0..MAX_RETRY {
        t.record_failure(&c, 1_000 + k as i64);
    }
    let locked = t.record_failure(&c, 50_000);
    assert!(!locked);
    assert_eq!(t.status_of(&c), Some(LockoutStatus::Locked(50_000)));
    let first_locked_at = 1_000 + MAX_RETRY as i64 - 1;
    assert_eq!(t.check(&c, first_locked_at + COOLDOWN), Decision::Denied);
    assert_eq!(t.check(&c, 50_000 + COOLDOWN), Decision::Allowed);
    assert_eq!(t.status_of(&c), None);
}

#[test]
fn success_removes_entry_entirely() {
    let mut t = AbuseTracker::new();
    let c = ClientId::V4(0x0a000009);
    t.record_failure(&c, 100);
    t.record_failure(&c, 101);
    assert_eq!(t.status_of(&c), Some(LockoutStatus::Attempting(2)));
    t.record_success(&c);
    assert_eq!(t.status_of(&c), None);
    let locked = t.record_failure(&c, 102);
    assert!(!locked);
    assert_eq!(t.status_of(&c), Some(LockoutStatus::Attempting(1)));
}

#[test]
fn success_of_locked_client_also_resets() {
    let mut t = AbuseTracker::new();
    let c = ClientId::V6(0xabcdef);
    for k in 0..MAX_RETRY {
        t.record_failure(&c, 2_000 + k as i64);
    }
    assert!(matches!(t.status_of(&c), Some(LockoutStatus::Locked(_))));
    t.record_success(&c);
    assert_eq!(t.status_of(&c), None);
}

#[test]
fn check_of_absent_client_allows_and_creates_nothing() {
    let mut t = AbuseTracker::new();
    let c = ClientId::V4(1);
    assert_eq!(t.check(&c, 0), Decision::Allowed);
    assert_eq!(t.status_of(&c), None);
}

#[test]
fn distinct_clients_are_independent() {
    let mut t = AbuseTracker::new();
    let a = ClientId::V4(77);
    let b = ClientId::V6(77);
    for k in 0..MAX_RETRY {
        t.record_failure(&a, 3_000 + k as i64);
    }
    assert!(matches!(t.status_of(&a), Some(LockoutStatus::Locked(_))));
    assert_eq!(t.status_of(&b), None);
    t.record_failure(&b, 4_000);
    assert_eq!(t.status_of(&b), Some(LockoutStatus::Attempting(1)));
    t.record_success(&a);
    assert_eq!(t.status_of(&a), None);
    assert_eq!(t.status_of(&b), Some(LockoutStatus::Attempting(1)));
}
