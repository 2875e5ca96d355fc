use mento_core::otp::{complete_otp_login, map_send_outcome, map_verify_outcome,
    OtpProviderOutcome};
use mento_core::response::ErrorKind;
use mento_core::token::{verify_token, TokenKind};
use mento_core::users::{kyc_status_name, KycStatus, UpdateProfileDto, UserResponse, UserStore};

const SECRET: &[u8] = b"test-signing-secret";

#[test]
fn first_login_creates_exactly_one_user() {
    let mut store = UserStore::new();
    let (id, is_new) = store.find_or_create_user("9876543210", 100);
    assert_eq!(id, 1);
    assert!(is_new);
    assert_eq!(store.users.len(), 1);
    let u = &store.users[0];
    assert_eq!(u.mobile, "9876543210");
    assert!(matches!(u.kyc_status, KycStatus::Pending));
    assert!(u.is_active);
    assert_eq!(u.last_login_at, 100);
    assert_eq!(u.created_at, 100);
}

#[test]
fn second_login_reuses_the_identity() {
    let mut store = UserStore::new();
    let (id1, new1) = store.find_or_create_user("9876543210", 100);
    let (id2, new2) = store.find_or_create_user("9876543210", 250);
    assert!(new1);
    assert!(!new2);
    assert_eq!(id1, id2);
    assert_eq!(store.users.len(), 1);
    assert_eq!(store.users[0].last_login_at, 250);
    assert_eq!(store.users[0].created_at, 100);
}

#[test]
fn different_mobiles_get_different_identities() {
    let mut store = UserStore::new();
    let (id1, _) = store.find_or_create_user("9876543210", 100);
    let (id2, _) = store.find_or_create_user("9876543211", 100);
    assert_ne!(id1, id2);
    assert_eq!(store.users.len(), 2);
}

#[test]
fn otp_login_mints_both_tokens() {
    let mut store = UserStore::new();
    let r = complete_otp_login(&mut store, "9876543210", 1000, SECRET);
    assert!(r.is_new_user);
    assert_eq!(r.message, "Registration successful");
    let a = verify_token(&r.access_token, 1001, SECRET).unwrap();
    assert!(matches!(a.kind, TokenKind::Access));
    assert_eq!(a.user_id, r.user_id);
    assert_eq!(a.mobile, "9876543210");
    let b = verify_token(&r.refresh_token, 1001, SECRET).unwrap();
    assert!(matches!(b.kind, TokenKind::Refresh));
    assert_eq!(b.user_id, r.user_id);

    let r2 = complete_otp_login(&mut store, "9876543210", 2000, SECRET);
    assert!(!r2.is_new_user);
    assert_eq!(r2.message, "Login successful");
    assert_eq!(r2.user_id, r.user_id);
    assert_eq!(store.users.len(), 1);
}

#[test]
fn send_outcome_maps_failures_to_service_unavailable() {
    assert!(map_send_outcome(OtpProviderOutcome::Accepted).is_ok());
    let e = map_send_outcome(OtpProviderOutcome::Unavailable).unwrap_err();
    assert_eq!(e.kind, ErrorKind::ServiceUnavailable);
    assert_eq!(e.status(), 500);
    assert_eq!(e.message, "Failed to send OTP");
}

#[test]
fn verify_outcome_distinguishes_rejection_from_outage() {
    assert!(map_verify_outcome(OtpProviderOutcome::Accepted).is_ok());
    let rejected = map_verify_outcome(OtpProviderOutcome::Rejected).unwrap_err();
    assert_eq!(rejected.kind, ErrorKind::Unauthorized);
    assert_eq!(rejected.status(), 401);
    let down = map_verify_outcome(OtpProviderOutcome::Unavailable).unwrap_err();
    assert_eq!(down.kind, ErrorKind::ServiceUnavailable);
}

#[test]
fn profile_update_merges_present_fields() {
    let mut store = UserStore::new();
    let (id, _) = store.find_or_create_user("9876543210", 100);
    let dto = UpdateProfileDto {
        name: Some("Asha".to_string()),
        email: None,
        city: Some("Bengaluru".to_string()),
        pincode: None,
        profile_photo: None,
    };
    store.update_profile(id, dto, 150).unwrap();
    let u = &store.users[0];
    assert_eq!(u.name.as_deref(), Some("Asha"));
    assert_eq!(u.city.as_deref(), Some("Bengaluru"));
    assert_eq!(u.email, None);
    assert_eq!(u.updated_at, 150);
    assert_eq!(u.mobile, "9876543210");
}

#[test]
fn profile_update_of_missing_user_is_not_found() {
    let mut store = UserStore::new();
    let dto = UpdateProfileDto { name: None, email: None, city: None, pincode: None, profile_photo: None };
    let e = store.update_profile(99, dto, 150).unwrap_err();
    assert_eq!(e.kind, ErrorKind::NotFound);
    assert_eq!(e.status(), 404);
}

#[test]
fn user_response_renders_id_and_status() {
    let mut store = UserStore::new();
    let (id, _) = store.find_or_create_user("9876543210", 100);
    let r = UserResponse::of_user(store.find_by_id(id).unwrap());
    assert_eq!(r.id, "1");
    assert_eq!(r.mobile, "9876543210");
    assert_eq!(r.kyc_status, "pending");
}

#[test]
fn kyc_status_names_are_lowercase() {
    assert_eq!(kyc_status_name(KycStatus::Pending), "pending");
    assert_eq!(kyc_status_name(KycStatus::Submitted), "submitted");
    assert_eq!(kyc_status_name(KycStatus::Approved), "approved");
    assert_eq!(kyc_status_name(KycStatus::Rejected), "rejected");
}
