use hmac::{Hmac, KeyInit, Mac};
use mento_core::response::{internal_error, not_found, ApiError, ApiResponse, ErrorKind};
use mento_core::subscription::{plan_price_paise, verify_payment_signature, SubscriptionStatus,
    SubscriptionStore, SubscriptionType, VerifyPaymentDto};
use mento_core::worker::{SubscriptionPlan, SUBSCRIPTION_TTL_SECS};
use sha2::Sha256;

#[test]
fn plan_prices_are_in_paise() {
    assert_eq!(plan_price_paise(SubscriptionPlan::Silver), 49900);
    assert_eq!(plan_price_paise(SubscriptionPlan::Gold), 79900);
}

#[test]
fn purchase_starts_pending_with_one_year_window() {
    let mut store = SubscriptionStore::new();
    let (id, amount) = store.create_subscription(7, "gold", 1000).unwrap();
    assert_eq!(id, 1);
    assert_eq!(amount, 79900);
    let s = &store.subs[0];
    assert!(matches!(s.status, SubscriptionStatus::Pending));
    assert!(matches!(s.subscription_type, SubscriptionType::Worker));
    assert!(matches!(s.plan, SubscriptionPlan::Gold));
    assert_eq!(s.starts_at, 1000);
    assert_eq!(s.expires_at, 1000 + SUBSCRIPTION_TTL_SECS);
    assert_eq!(s.payment_id, None);
    assert!(!s.auto_renew);
}

#[test]
fn purchase_of_unknown_plan_is_rejected() {
    let mut store = SubscriptionStore::new();
    let e = store.create_subscription(7, "bronze", 1000).unwrap_err();
    assert_eq!(e.kind, ErrorKind::InvalidInput);
    assert_eq!(store.subs.len(), 0);
}

#[test]
fn payment_confirmation_activates_the_record() {
    let mut store = SubscriptionStore::new();
    let (id, _) = store.create_subscription(7, "silver", 1000).unwrap();
    store.confirm_payment(id, "pay_123".to_string(), 1200).unwrap();
    let s = &store.subs[0];
    assert!(matches!(s.status, SubscriptionStatus::Active));
    assert_eq!(s.payment_id.as_deref(), Some("pay_123"));
    assert_eq!(s.updated_at, 1200);
}

#[test]
fn confirming_an_unknown_subscription_is_not_found() {
    let mut store = SubscriptionStore::new();
    let e = store.confirm_payment(42, "pay_123".to_string(), 1200).unwrap_err();
    assert_eq!(e.kind, ErrorKind::NotFound);
}

#[test]
fn checkout_signature_is_checked_over_order_and_payment_ids() {
    let secret = b"gateway-key-secret";
    let payload = "order_abc|pay_xyz";
    let mut mac = <Hmac<Sha256> as KeyInit>::new_from_slice(secret).unwrap();
    Mac::update(&mut mac, payload.as_bytes());
    let good = hex::encode(mac.finalize().into_bytes());
    let dto = VerifyPaymentDto {
        razorpay_order_id: "order_abc".to_string(),
        razorpay_payment_id: "pay_xyz".to_string(),
        razorpay_signature: good.clone(),
    };
    assert!(verify_payment_signature(&dto, secret));
    let bad = VerifyPaymentDto {
        razorpay_order_id: "order_abc".to_string(),
        razorpay_payment_id: "pay_other".to_string(),
        razorpay_signature: good,
    };
    assert!(!verify_payment_signature(&bad, secret));
}

#[test]
fn envelope_constructors_fill_the_expected_fields() {
    let ok: ApiResponse<u32> = ApiResponse::success(7);
    assert!(ok.success);
    assert_eq!(ok.data, Some(7));
    assert_eq!(ok.message, None);
    let with_msg: ApiResponse<u32> = ApiResponse::success_with_message("done".to_string(), 9);
    assert!(with_msg.success);
    assert_eq!(with_msg.message.as_deref(), Some("done"));
    let err: ApiResponse<()> = ApiResponse::<()>::error("boom".to_string());
    assert!(!err.success);
    assert_eq!(err.message.as_deref(), Some("boom"));
    assert_eq!(err.data, None);
    let nf = not_found();
    assert!(!nf.success);
    assert_eq!(nf.message.as_deref(), Some("Resource not found"));
    let ie = internal_error();
    assert_eq!(ie.message.as_deref(), Some("Internal server error"));
    assert_eq!(ApiError::bad_request("x").status(), 400);
    assert_eq!(ApiError::unauthorized("x").status(), 401);
    assert_eq!(ApiError::forbidden("x").status(), 403);
    assert_eq!(ApiError::not_found("x").status(), 404);
    assert_eq!(ApiError::conflict("x").status(), 409);
    assert_eq!(ApiError::service_unavailable("x").status(), 500);
    assert_eq!(ApiError::internal_error("x").status(), 500);
}
