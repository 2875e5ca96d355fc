use mento_core::otp::check_send_otp;
use mento_core::response::ErrorKind;
use mento_core::validate::{validate_email, validate_mobile};

#[test]
fn plain_ten_digit_mobile_is_valid() {
    assert!(validate_mobile("9876543210"));
}

#[test]
fn country_code_qualified_mobile_is_valid() {
    assert!(validate_mobile("+919876543210"));
}

#[test]
fn fifteen_digits_is_the_longest_mobile() {
    assert!(validate_mobile("123456789012345"));
    assert!(!validate_mobile("1234567890123456"));
}

#[test]
fn short_mobile_is_rejected() {
    assert!(!validate_mobile("12345"));
    assert!(!validate_mobile(""));
    assert!(!validate_mobile("+"));
}

#[test]
fn mobile_with_letters_is_rejected() {
    assert!(!validate_mobile("98765abc10"));
}

#[test]
fn plus_must_lead_a_full_number() {
    assert!(!validate_mobile("+123456789"));
    assert!(!validate_mobile("98+76543210"));
}

#[test]
fn ordinary_email_is_valid() {
    assert!(validate_email("user@example.com"));
    assert!(validate_email("a@b.co"));
}

#[test]
fn email_needs_exactly_one_at() {
    assert!(!validate_email("userexample.com"));
    assert!(!validate_email("user@@example.com"));
    assert!(!validate_email("a@b@c.com"));
}

#[test]
fn email_needs_nonempty_local_part() {
    assert!(!validate_email("@example.com"));
}

#[test]
fn email_domain_needs_inner_dot() {
    assert!(!validate_email("user@examplecom"));
    assert!(!validate_email("user@.com"));
    assert!(!validate_email("user@domain."));
}

#[test]
fn email_rejects_spaces() {
    assert!(!validate_email("us er@example.com"));
}

#[test]
fn send_otp_rejects_bad_mobile_first() {
    let e = check_send_otp("12345", "user@example.com").unwrap_err();
    assert_eq!(e.kind, ErrorKind::InvalidInput);
    assert_eq!(e.status(), 400);
    assert_eq!(e.message, "Invalid mobile number");
}

#[test]
fn send_otp_rejects_bad_email() {
    let e = check_send_otp("9876543210", "nonsense").unwrap_err();
    assert_eq!(e.kind, ErrorKind::InvalidInput);
    assert_eq!(e.message, "Invalid email address");
}

#[test]
fn send_otp_accepts_valid_input() {
    assert!(check_send_otp("9876543210", "user@example.com").is_ok());
}
