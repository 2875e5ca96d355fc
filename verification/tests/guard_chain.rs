use mento_core::guards::{auth_guard, kyc_guard};
use mento_core::response::ErrorKind;
use mento_core::token::{issue_access_token, issue_refresh_token};
use mento_core::users::{KycStatus, UserStore};

const SECRET: &[u8] = b"test-signing-secret";

fn store_with_user(status: KycStatus) -> (UserStore, u64) {
    let mut store = UserStore::new();
    let (id, _) = store.find_or_create_user("9876543210", 100);
    store.users[0].kyc_status = status;
    (store, id)
}

fn bearer(token: &str) -> String {
    format!("Bearer {}", token)
}

#[test]
fn auth_guard_resolves_valid_bearer_token() {
    let t = issue_access_token(5, "9876543210", 1000, SECRET);
    let h = bearer(&t);
    let id = auth_guard(Some(&h), 1500, SECRET).unwrap();
    assert_eq!(id.user_id, 5);
    assert_eq!(id.mobile, "9876543210");
}

#[test]
fn auth_guard_rejects_missing_header() {
    let e = auth_guard(None, 1500, SECRET).unwrap_err();
    assert_eq!(e.kind, ErrorKind::Unauthorized);
    assert_eq!(e.status(), 401);
}

#[test]
fn auth_guard_rejects_non_bearer_scheme() {
    let t = issue_access_token(5, "9876543210", 1000, SECRET);
    let h = format!("Token {}", t);
    let e = auth_guard(Some(&h), 1500, SECRET).unwrap_err();
    assert_eq!(e.kind, ErrorKind::Unauthorized);
}

#[test]
fn auth_guard_rejects_garbage_token() {
    let e = auth_guard(Some("Bearer not.a.token"), 1500, SECRET).unwrap_err();
    assert_eq!(e.kind, ErrorKind::Unauthorized);
}

#[test]
fn auth_guard_rejects_expired_token() {
    let t = issue_access_token(5, "9876543210", 1000, SECRET);
    let h = bearer(&t);
    let e = auth_guard(Some(&h), 1000 + 3600 + 1, SECRET).unwrap_err();
    assert_eq!(e.kind, ErrorKind::Unauthorized);
}

#[test]
fn auth_guard_rejects_refresh_token() {
    let t = issue_refresh_token(5, "9876543210", 1000, SECRET);
    let h = bearer(&t);
    let e = auth_guard(Some(&h), 1500, SECRET).unwrap_err();
    assert_eq!(e.kind, ErrorKind::Unauthorized);
}

#[test]
fn kyc_guard_accepts_approved_identity() {
    let (store, id) = store_with_user(KycStatus::Approved);
    let t = issue_access_token(id, "9876543210", 1000, SECRET);
    let h = bearer(&t);
    let r = kyc_guard(&store, Some(&h), 1500, SECRET).unwrap();
    assert_eq!(r.user_id, id);
}

#[test]
fn kyc_guard_rejects_every_unapproved_status() {
    for status in [KycStatus::Pending, KycStatus::Submitted, KycStatus::Rejected] {
        let (store, id) = store_with_user(status);
        let t = issue_access_token(id, "9876543210", 1000, SECRET);
        let h = bearer(&t);
        let e = kyc_guard(&store, Some(&h), 1500, SECRET).unwrap_err();
        assert_eq!(e.kind, ErrorKind::Forbidden);
        assert_eq!(e.status(), 403);
    }
}

#[test]
fn kyc_guard_reports_vanished_user_as_not_found() {
    let (store, _) = store_with_user(KycStatus::Approved);
    let t = issue_access_token(99, "9876543211", 1000, SECRET);
    let h = bearer(&t);
    let e = kyc_guard(&store, Some(&h), 1500, SECRET).unwrap_err();
    assert_eq!(e.kind, ErrorKind::NotFound);
}

#[test]
fn kyc_guard_propagates_auth_failure() {
    let (store, _) = store_with_user(KycStatus::Approved);
    let e = kyc_guard(&store, None, 1500, SECRET).unwrap_err();
    assert_eq!(e.kind, ErrorKind::Unauthorized);
}
