use authgate::client::ClientId;
use authgate::credential::{credential_supplied, Auth};
use authgate::gate::{gate_request, AuthMiddleware, GateOutcome, RejectReason};
use authgate::locking::SharedTracker;
use authgate::tracker::{AbuseTracker, LockoutStatus, COOLDOWN, MAX_RETRY};

fn header(s: &str) -> Vec<u8> {
    s.as_bytes().to_vec()
}

#[test]
fn correct_token_forwards_and_leaves_no_entry() {
    let auth = Auth::new("admin", "secret");
    let mut t = AbuseTracker::new();
    let c = ClientId::V4(0x0a000005);
    let h = header("Basic YWRtaW46c2VjcmV0");
    let o = gate_request(&auth, &mut t, &c, Some(&h), 1_000);
    assert_eq!(o, GateOutcome::Forward);
    assert_eq!(t.status_of(&c), None);
}

#[test]
fn wrong_token_rejects_and_counts() {
    let auth = Auth::new("admin", "secret");
    let mut t = AbuseTracker::new();
    let c = ClientId::V4(0x0a000005);
    let h = header("Basic d3Jvbmc=");
    let o = gate_request(&auth, &mut t, &c, Some(&h), 1_000);
    assert_eq!(
        o,
        GateOutcome::Unauthorized(RejectReason::WrongCredential { locked_now: false })
    );
    assert_eq!(t.status_of(&c), Some(LockoutStatus::Attempting(1)));
}

#[test]
fn lockout_then_correct_token_still_rejected() {
    let auth = Auth::new("admin", "secret");
    let mut t = AbuseTracker::new();
    let c = ClientId::V4(0x0a000005);
    let wrong = header("Basic d3Jvbmc=");
    for k in 1..MAX_RETRY {
        let o = gate_request(&auth, &mut t, &c, Some(&wrong), 1_000 + k as i64);
        assert_eq!(
            o,
            GateOutcome::Unauthorized(RejectReason::WrongCredential { locked_now: false })
        );
    }
    let o = gate_request(&auth, &mut t, &c, Some(&wrong), 2_000);
    assert_eq!(
        o,
        GateOutcome::Unauthorized(RejectReason::WrongCredential { locked_now: true })
    );
    assert_eq!(t.status_of(&c), Some(LockoutStatus::Locked(2_000)));
    let right = header("Basic YWRtaW46c2VjcmV0");
    let o = gate_request(&auth, &mut t, &c, Some(&right), 2_001);
    assert_eq!(o, GateOutcome::Unauthorized(RejectReason::LockedOut));
    assert_eq!(t.status_of(&c), Some(LockoutStatus::Locked(2_000)));
}

#[test]
fn success_resets_failure_history() {
    let auth = Auth::new("admin", "secret");
    let mut t = AbuseTracker::new();
    let c = ClientId::V4(0x0a000009);
    let wrong = header("Basic d3Jvbmc=");
    let right = header("Basic YWRtaW46c2VjcmV0");
    gate_request(&auth, &mut t, &c, Some(&wrong), 1);
    gate_request(&auth, &mut t, &c, Some(&wrong), 2);
    assert_eq!(t.status_of(&c), Some(LockoutStatus::Attempting(2)));
    let o = gate_request(&auth, &mut t, &c, Some(&right), 3);
    assert_eq!(o, GateOutcome::Forward);
    assert_eq!(t.status_of(&c), None);
    gate_request(&auth, &mut t, &c, Some(&wrong), 4);
    assert_eq!(t.status_of(&c), Some(LockoutStatus::Attempting(1)));
}

#[test]
fn missing_header_never_touches_tracker() {
    let auth = Auth::new("admin", "secret");
    let mut t = AbuseTracker::new();
    let c = ClientId::V4(3);
    for k in 0..3_i64 {
        let o = gate_request(&auth, &mut t, &c, None, k);
        assert_eq!(o, GateOutcome::Unauthorized(RejectReason::NoHeader));
        assert_eq!(t.status_of(&c), None);
    }
}

#[test]
fn wrong_scheme_never_creates_entry() {
    let auth = Auth::new("admin", "secret");
    let mut t = AbuseTracker::new();
    let c = ClientId::V4(4);
    let h = header("Bearer xyz");
    for k in 0..3_i64 {
        let o = gate_request(&auth, &mut t, &c, Some(&h), k);
        assert_eq!(o, GateOutcome::Unauthorized(RejectReason::NoBasicPrefix));
        assert_eq!(t.status_of(&c), None);
    }
}

#[test]
fn unreadable_header_bytes_reject_without_risk_signal() {
    let auth = Auth::new("admin", "secret");
    let mut t = AbuseTracker::new();
    let c = ClientId::V4(5);
    let mut h = header("Basic ");
    h.push(0xff);
    let o = gate_request(&auth, &mut t, &c, Some(&h), 10);
    assert_eq!(o, GateOutcome::Unauthorized(RejectReason::BadHeaderBytes));
    assert_eq!(t.status_of(&c), None);
}

#[test]
fn cooldown_reopens_the_gate() {
    let auth = Auth::new("admin", "secret");
    let mut t = AbuseTracker::new();
    let c = ClientId::V6(0x20010db8);
    let wrong = header("Basic d3Jvbmc=");
    for k in 0..MAX_RETRY {
        gate_request(&auth, &mut t, &c, Some(&wrong), 1_000 + k as i64);
    }
    let locked_at = 1_000 + MAX_RETRY as i64 - 1;
    assert_eq!(t.status_of(&c), Some(LockoutStatus::Locked(locked_at)));
    let right = header("Basic YWRtaW46c2VjcmV0");
    let o = gate_request(&auth, &mut t, &c, Some(&right), locked_at + COOLDOWN);
    assert_eq!(o, GateOutcome::Forward);
    assert_eq!(t.status_of(&c), None);
}

#[test]
fn token_is_really_base64_encoded() {
    let auth = Auth::new("admin", "secret");
    let encoded = base64::Engine::encode(
        &base64::engine::general_purpose::STANDARD,
        "admin:secret".as_bytes(),
    );
    let h = header(&format!("Basic {}", encoded));
    assert!(auth.verify(&h));
    // The raw, unencoded credentials must not pass: the canonical token is
    // the encoded form.
    let raw = header("Basic admin:secret");
    assert!(!auth.verify(&raw));
}

#[test]
fn verify_needs_the_basic_prefix() {
    let auth = Auth::new("admin", "secret");
    assert!(!auth.verify(&header("YWRtaW46c2VjcmV0")));
    assert!(!auth.verify(&header("basic YWRtaW46c2VjcmV0")));
    assert!(!auth.verify(&header("Basic")));
    assert!(auth.verify(&header("Basic YWRtaW46c2VjcmV0")));
    assert!(credential_supplied(&header("Basic x")));
    assert!(!credential_supplied(&header("Bearer x")));
    assert!(!credential_supplied(&header("Basi")));
}

#[test]
fn empty_password_still_encodes() {
    let auth = Auth::new("admin", "");
    assert!(auth.verify(&header("Basic YWRtaW46")));
    assert!(!auth.verify(&header("Basic YWRtaW46c2VjcmV0")));
}

#[test]
fn middleware_authorize_walks_the_same_machine() {
    let auth = Auth::new("admin", "secret");
    let tracker = SharedTracker::new();
    let mw = AuthMiddleware::new((), auth, tracker);
    let c = ClientId::V4(0x0a000005);
    assert_eq!(
        mw.authorize(&c, None, 0),
        GateOutcome::Unauthorized(RejectReason::NoHeader)
    );
    let wrong = header("Basic d3Jvbmc=");
    for k in 1..MAX_RETRY {
        assert_eq!(
            mw.authorize(&c, Some(&wrong), k as i64),
            GateOutcome::Unauthorized(RejectReason::WrongCredential { locked_now: false })
        );
    }
    assert_eq!(
        mw.authorize(&c, Some(&wrong), 100),
        GateOutcome::Unauthorized(RejectReason::WrongCredential { locked_now: true })
    );
    let right = header("Basic YWRtaW46c2VjcmV0");
    assert_eq!(
        mw.authorize(&c, Some(&right), 101),
        GateOutcome::Unauthorized(RejectReason::LockedOut)
    );
    assert_eq!(
        mw.authorize(&c, Some(&right), 100 + COOLDOWN),
        GateOutcome::Forward
    );
    assert_eq!(mw.authorize(&c, Some(&right), 100 + COOLDOWN), GateOutcome::Forward);
}

#[test]
fn shared_tracker_handles_share_one_table() {
    let auth = Auth::new("admin", "secret");
    let tracker = SharedTracker::new();
    let mw_a = AuthMiddleware::new((), auth.clone(), tracker.clone());
    let mw_b = AuthMiddleware::new((), auth, tracker);
    let c = ClientId::V4(8);
    let wrong = header("Basic d3Jvbmc=");
    for k in 0..MAX_RETRY {
        mw_a.authorize(&c, Some(&wrong), k as i64);
    }
    // The lockout taken through one handle is seen through the other.
    let right = header("Basic YWRtaW46c2VjcmV0");
    assert_eq!(
        mw_b.authorize(&c, Some(&right), 10),
        GateOutcome::Unauthorized(RejectReason::LockedOut)
    );
}
