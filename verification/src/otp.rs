//! The OTP identity broker: input validation before the external provider
//! is contacted, mapping of provider outcomes onto the error taxonomy, and
//! completion of a verified login (find-or-create identity plus dual-token
//! issuance).
//!
//! The broker is stateless: the external provider owns the OTP lifecycle.

use vstd::prelude::*;

use crate::response::{ApiError, ErrorKind};
use crate::token::{issue_access_token, issue_refresh_token, token_chars, token_field_ok,
    TokenKind, ACCESS_TOKEN_TTL_SECS, REFRESH_TOKEN_TTL_SECS};
use crate::users::{login_transition, UserStore};
use crate::validate::{is_digit_char, valid_email_spec, valid_mobile_spec, validate_email,
    validate_mobile};

verus! {

/// What the external OTP provider reported for a send or verify call.
#[derive(Clone, Copy, Debug, PartialEq, Eq, Structural)]
pub enum OtpProviderOutcome {
    /// The provider accepted the request (or the code).
    Accepted,
    /// The provider rejected the code as wrong or expired.
    Rejected,
    /// The provider could not be reached or failed.
    Unavailable,
}

/// A well-formed mobile number never holds a token separator.
pub proof fn lemma_valid_mobile_field_ok(s: Seq<char>)
    requires
        valid_mobile_spec(s),
    ensures
        token_field_ok(s),
{
    assert forall|i: int| 0 <= i < s.len() implies #[trigger] s[i] != '.' && s[i] != '|' by {
        if s.len() > 0 && s[0] == '+' {
            if i == 0 {
                assert(s[0] == '+');
            } else {
                assert(s.skip(1)[i - 1] == s[i]);
                assert(is_digit_char(s[i]));
            }
        } else {
            assert(is_digit_char(s[i]));
        }
    }
}

/// Syntactic gate of `sendOtp`: rejects malformed input with
/// `InvalidInput` so that the external provider is never contacted for it.
pub fn check_send_otp(mobile: &str, email: &str) -> (r: Result<(), ApiError>)
    ensures
        r is Ok <==> valid_mobile_spec(mobile@) && valid_email_spec(email@),
        r matches Err(e) ==> {
            &&& e.kind == ErrorKind::InvalidInput
            &&& !valid_mobile_spec(mobile@) ==> e.message@ == "Invalid mobile number"@
            &&& valid_mobile_spec(mobile@) ==> e.message@ == "Invalid email address"@
        },
{
    if !validate_mobile(mobile) {
        Err(ApiError::bad_request("Invalid mobile number"))
    } else if !validate_email(email) {
        Err(ApiError::bad_request("Invalid email address"))
    } else {
        Ok(())
    }
}

/// Maps the provider's answer to a send request: any provider failure
/// surfaces as `ServiceUnavailable`.
pub fn map_send_outcome(outcome: OtpProviderOutcome) -> (r: Result<(), ApiError>)
    ensures
        r is Ok <==> outcome == OtpProviderOutcome::Accepted,
        r matches Err(e) ==> e.kind == ErrorKind::ServiceUnavailable && e.message@
            == "Failed to send OTP"@,
{
    match outcome {
        OtpProviderOutcome::Accepted => Ok(()),
        _ => Err(ApiError::service_unavailable("Failed to send OTP")),
    }
}

/// Maps the provider's answer to a verify request: a rejected code is
/// `Unauthorized`, a provider failure is `ServiceUnavailable`; callers
/// must not conflate the two.
pub fn map_verify_outcome(outcome: OtpProviderOutcome) -> (r: Result<(), ApiError>)
    ensures
        r is Ok <==> outcome == OtpProviderOutcome::Accepted,
        r matches Err(e) ==> e.kind == (if outcome == OtpProviderOutcome::Rejected {
            ErrorKind::Unauthorized
        } else {
            ErrorKind::ServiceUnavailable
        }),
{
    match outcome {
        OtpProviderOutcome::Accepted => Ok(()),
        OtpProviderOutcome::Rejected => Err(ApiError::unauthorized("Invalid OTP")),
        OtpProviderOutcome::Unavailable => Err(
            ApiError::service_unavailable("OTP provider unavailable"),
        ),
    }
}

/// What a successful verification returns to the client.
#[derive(Debug)]
pub struct LoginResponse {
    pub user_id: u64,
    pub is_new_user: bool,
    pub message: String,
    pub access_token: String,
    pub refresh_token: String,
}

/// Completes a login once the provider accepted the code: finds or
/// creates the identity for the mobile, refreshes its login timestamp,
/// and mints the access and refresh tokens for it.
pub fn complete_otp_login(store: &mut UserStore, mobile: &str, now: u64, secret: &[u8]) -> (r:
    LoginResponse)
    requires
        old(store).wf(),
        old(store).next_id < u64::MAX,
        valid_mobile_spec(mobile@),
        now + REFRESH_TOKEN_TTL_SECS <= u64::MAX,
    ensures
        final(store).wf(),
        login_transition(*old(store), *final(store), mobile@, r.user_id, r.is_new_user, now),
        final(store).has_mobile(mobile@),
        r.access_token@ == token_chars(
            secret@,
            TokenKind::Access,
            r.user_id as nat,
            mobile@,
            now as nat,
            (now + ACCESS_TOKEN_TTL_SECS) as nat,
        ),
        r.refresh_token@ == token_chars(
            secret@,
            TokenKind::Refresh,
            r.user_id as nat,
            mobile@,
            now as nat,
            (now + REFRESH_TOKEN_TTL_SECS) as nat,
        ),
        r.is_new_user ==> r.message@ == "Registration successful"@,
        !r.is_new_user ==> r.message@ == "Login successful"@,
{
    proof {
        lemma_valid_mobile_field_ok(mobile@);
    }
    let (user_id, is_new_user) = store.find_or_create_user(mobile, now);
    let access_token = issue_access_token(user_id, mobile, now, secret);
    let refresh_token = issue_refresh_token(user_id, mobile, now, secret);
    let message = if is_new_user {
        String::from_str("Registration successful")
    } else {
        String::from_str("Login successful")
    };
    LoginResponse { user_id, is_new_user, message, access_token, refresh_token }
}

} // verus!
