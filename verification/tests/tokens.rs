use hmac::{Hmac, KeyInit, Mac};
use mento_core::subscription::verify_signature;
use mento_core::token::{issue_access_token, issue_refresh_token, refresh_access_token,
    verify_token, TokenError, TokenKind, ACCESS_TOKEN_TTL_SECS, REFRESH_TOKEN_TTL_SECS};
use sha2::Sha256;

const SECRET: &[u8] = b"test-signing-secret";

#[test]
fn access_token_round_trip_recovers_subject() {
    let t = issue_access_token(42, "9876543210", 1000, SECRET);
    let c = verify_token(&t, 1500, SECRET).unwrap();
    assert_eq!(c.user_id, 42);
    assert_eq!(c.mobile, "9876543210");
    assert!(matches!(c.kind, TokenKind::Access));
    assert_eq!(c.iat, 1000);
    assert_eq!(c.exp, 1000 + ACCESS_TOKEN_TTL_SECS);
}

#[test]
fn refresh_token_round_trip_recovers_subject() {
    let t = issue_refresh_token(7, "+919876543210", 2000, SECRET);
    let c = verify_token(&t, 2500, SECRET).unwrap();
    assert_eq!(c.user_id, 7);
    assert_eq!(c.mobile, "+919876543210");
    assert!(matches!(c.kind, TokenKind::Refresh));
    assert_eq!(c.exp, 2000 + REFRESH_TOKEN_TTL_SECS);
}

#[test]
fn token_has_three_part_structure() {
    let t = issue_access_token(42, "9876543210", 1000, SECRET);
    assert!(t.starts_with("hs256."));
    assert_eq!(t.split('.').count(), 3);
    assert!(t.contains("access|42|9876543210|1000|4600"));
}

#[test]
fn access_token_rejected_on_refresh_path() {
    let t = issue_access_token(42, "9876543210", 1000, SECRET);
    let e = refresh_access_token(&t, 1500, SECRET).unwrap_err();
    assert_eq!(e.status(), 401);
}

#[test]
fn refresh_path_mints_fresh_access_token() {
    let rt = issue_refresh_token(42, "9876543210", 1000, SECRET);
    let at = refresh_access_token(&rt, 5000, SECRET).unwrap();
    let c = verify_token(&at, 5001, SECRET).unwrap();
    assert!(matches!(c.kind, TokenKind::Access));
    assert_eq!(c.user_id, 42);
    assert_eq!(c.mobile, "9876543210");
    assert_eq!(c.iat, 5000);
    assert_eq!(c.exp, 5000 + ACCESS_TOKEN_TTL_SECS);
}

#[test]
fn expired_token_fails_with_token_expired() {
    let t = issue_access_token(42, "9876543210", 1000, SECRET);
    let e = verify_token(&t, 1000 + ACCESS_TOKEN_TTL_SECS + 1, SECRET).unwrap_err();
    assert!(matches!(e, TokenError::TokenExpired));
}

#[test]
fn token_still_valid_at_exact_expiry() {
    let t = issue_access_token(42, "9876543210", 1000, SECRET);
    assert!(verify_token(&t, 1000 + ACCESS_TOKEN_TTL_SECS, SECRET).is_ok());
}

#[test]
fn tampered_signature_fails_as_invalid() {
    let t = issue_access_token(42, "9876543210", 1000, SECRET);
    let mut s: String = t[..t.len() - 1].to_string();
    let last = t.chars().last().unwrap();
    s.push(if last == '0' { '1' } else { '0' });
    let e = verify_token(&s, 1500, SECRET).unwrap_err();
    assert!(matches!(e, TokenError::TokenInvalid));
}

#[test]
fn tampered_payload_fails_as_invalid() {
    let t = issue_access_token(42, "9876543210", 1000, SECRET);
    let s = t.replace("|42|", "|43|");
    assert_ne!(s, t);
    let e = verify_token(&s, 1500, SECRET).unwrap_err();
    assert!(matches!(e, TokenError::TokenInvalid));
}

#[test]
fn wrong_secret_fails_as_invalid() {
    let t = issue_access_token(42, "9876543210", 1000, SECRET);
    let e = verify_token(&t, 1500, b"another-secret").unwrap_err();
    assert!(matches!(e, TokenError::TokenInvalid));
}

#[test]
fn malformed_tokens_fail_as_invalid() {
    for bad in ["", "abc", "a.b", "a.b.c.d", "hs256.x.y", "nope.access|1|2|3|4.deadbeef"] {
        let e = verify_token(bad, 1500, SECRET).unwrap_err();
        assert!(matches!(e, TokenError::TokenInvalid), "token {:?}", bad);
    }
}

#[test]
fn expired_wins_over_valid_signature() {
    // Same token, same signature: only the clock differs.
    let t = issue_access_token(8, "9876543210", 100, SECRET);
    assert!(verify_token(&t, 200, SECRET).is_ok());
    let e = verify_token(&t, 100 + ACCESS_TOKEN_TTL_SECS + 50, SECRET).unwrap_err();
    assert!(matches!(e, TokenError::TokenExpired));
}

#[test]
fn webhook_signature_matches_known_hmac_vector() {
    // HMAC-SHA-256 of the quick-brown-fox sentence under key "key".
    let body = "The quick brown fox jumps over the lazy dog";
    let good = "f7bc83f430538424b13298e6aa6fb143ef4d59a14946175997479dbc2d1a3cd8";
    assert!(verify_signature(body, good, b"key"));
    assert!(!verify_signature(body, "f7bc83f430538424b13298e6aa6fb143", b"key"));
    assert!(!verify_signature("another body", good, b"key"));
}

#[test]
fn token_signature_matches_independent_hmac() {
    // Recompute the signature with the hmac crate directly.
    let t = issue_access_token(42, "9876543210", 1000, SECRET);
    let parts: Vec<&str> = t.split('.').collect();
    assert_eq!(parts.len(), 3);
    let signing = format!("{}.{}", parts[0], parts[1]);
    let mut mac = <Hmac<Sha256> as KeyInit>::new_from_slice(SECRET).unwrap();
    Mac::update(&mut mac, signing.as_bytes());
    let expected = hex::encode(mac.finalize().into_bytes());
    assert_eq!(parts[2], expected);
}
