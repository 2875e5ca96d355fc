//! The authorization guard chain: `auth_guard` resolves a bearer token to
//! an identity; `kyc_guard` additionally requires the identity's
//! verification status to be `Approved`.

use vstd::prelude::*;

use crate::response::{ApiError, ErrorKind};
use crate::token::{spec_verify_token, str_eq, token_field_ok, ParsedClaims, TokenKind,
    verify_token};
use crate::users::{KycStatus, User, UserStore};

verus! {

/// The identity a passing guard hands to the handler body.
#[derive(Debug)]
pub struct AuthIdentity {
    pub user_id: u64,
    pub mobile: String,
}

/// The header value carries the scheme prefix `Bearer ` before the token.
pub open spec fn starts_with_bearer(h: Seq<char>) -> bool {
    h.len() >= 7 && h.take(7) == "Bearer "@
}

/// The claims under which an `Authorization` header is accepted: present,
/// bearer-formed, carrying a token that verifies, of the access kind.
pub open spec fn auth_outcome(header: Option<Seq<char>>, now: u64, secret: Seq<u8>) -> Option<
    ParsedClaims,
> {
    match header {
        Option::None => Option::None,
        Option::Some(h) => if !starts_with_bearer(h) {
            Option::None
        } else {
            match spec_verify_token(h.skip(7), now, secret) {
                Result::Err(_) => Option::None,
                Result::Ok(c) => if c.kind == TokenKind::Access {
                    Option::Some(c)
                } else {
                    Option::None
                },
            }
        },
    }
}

/// View of the optional header value.
pub open spec fn header_view(header: Option<&str>) -> Option<Seq<char>> {
    match header {
        Option::None => Option::None,
        Option::Some(h) => Option::Some(h@),
    }
}

/// Resolves the bearer token of a request into an authenticated identity.
/// Side-effect-free; fails with `Unauthorized` on a missing header, a
/// malformed or non-bearer header, a token that does not verify, or a
/// token that is not of the access kind.
pub fn auth_guard(header: Option<&str>, now: u64, secret: &[u8]) -> (r: Result<
    AuthIdentity,
    ApiError,
>)
    ensures
        r is Ok <==> auth_outcome(header_view(header), now, secret@) is Some,
        r matches Ok(id) ==> ({
            let c = auth_outcome(header_view(header), now, secret@)->Some_0;
            &&& id.user_id as nat == c.user_id
            &&& id.mobile@ == c.mobile
            &&& token_field_ok(id.mobile@)
        }),
        r matches Err(e) ==> e.kind == ErrorKind::Unauthorized,
{
    let h = match header {
        None => {
            return Err(ApiError::unauthorized("Missing authorization header"));
        },
        Some(h) => h,
    };
    let n = h.unicode_len();
    if n < 7 {
        return Err(ApiError::unauthorized("Malformed authorization header"));
    }
    let prefix = h.substring_char(0, 7);
    proof {
        assert(prefix@ =~= h@.take(7));
    }
    if !str_eq(prefix, "Bearer ") {
        return Err(ApiError::unauthorized("Malformed authorization header"));
    }
    let tok = h.substring_char(7, n);
    proof {
        assert(tok@ =~= h@.skip(7));
    }
    match verify_token(tok, now, secret) {
        Err(_) => Err(ApiError::unauthorized("Invalid or expired token")),
        Ok(c) => {
            if c.kind == TokenKind::Access {
                Ok(AuthIdentity { user_id: c.user_id, mobile: c.mobile })
            } else {
                Err(ApiError::unauthorized("Access token required"))
            }
        },
    }
}

/// Some user record carries this id.
pub open spec fn user_with_id(users: Seq<User>, uid: nat) -> bool {
    exists|i: int| 0 <= i < users.len() && #[trigger] users[i].id as nat == uid
}

/// Some user record carries this id with status `Approved`.
pub open spec fn approved_user_with_id(users: Seq<User>, uid: nat) -> bool {
    exists|i: int|
        0 <= i < users.len() && #[trigger] users[i].id as nat == uid && users[i].kyc_status
            == KycStatus::Approved
}

/// Runs `auth_guard`, then loads the resolved user and requires
/// verification status `Approved`. Rejects a valid identity whose status
/// is anything else with `Forbidden`, and a vanished user record with
/// `NotFound`.
pub fn kyc_guard(store: &UserStore, header: Option<&str>, now: u64, secret: &[u8]) -> (r: Result<
    AuthIdentity,
    ApiError,
>)
    requires
        store.wf(),
    ensures
        r is Ok <==> (auth_outcome(header_view(header), now, secret@) matches Some(c)
            && approved_user_with_id(store.users@, c.user_id)),
        r matches Ok(id) ==> ({
            let c = auth_outcome(header_view(header), now, secret@)->Some_0;
            &&& id.user_id as nat == c.user_id
            &&& id.mobile@ == c.mobile
        }),
        r matches Err(e) ==> e.kind == (if auth_outcome(header_view(header), now, secret@)
            is None {
            ErrorKind::Unauthorized
        } else if !user_with_id(
            store.users@,
            auth_outcome(header_view(header), now, secret@)->Some_0.user_id,
        ) {
            ErrorKind::NotFound
        } else {
            ErrorKind::Forbidden
        }),
{
    let auth = match auth_guard(header, now, secret) {
        Err(e) => {
            return Err(e);
        },
        Ok(a) => a,
    };
    let ghost c = auth_outcome(header_view(header), now, secret@)->Some_0;
    match store.find_by_id(auth.user_id) {
        None => {
            proof {
                if user_with_id(store.users@, c.user_id) {
                    let j = choose|i: int|
                        0 <= i < store.users@.len() && #[trigger] store.users@[i].id as nat
                            == c.user_id;
                    assert(store.users@[j].id == auth.user_id);
                    assert(false);
                }
            }
            Err(ApiError::not_found("User not found"))
        },
        Some(u) => {
            let ghost wi = choose|i: int|
                0 <= i < store.users@.len() && #[trigger] store.users@[i] == *u
                    && store.users@[i].id == auth.user_id;
            if u.kyc_status == KycStatus::Approved {
                proof {
                    assert(store.users@[wi].id as nat == c.user_id);
                    assert(approved_user_with_id(store.users@, c.user_id));
                }
                Ok(auth)
            } else {
                proof {
                    assert(store.users@[wi].id as nat == c.user_id);
                    assert(user_with_id(store.users@, c.user_id));
                    if approved_user_with_id(store.users@, c.user_id) {
                        let j = choose|i: int|
                            0 <= i < store.users@.len() && #[trigger] store.users@[i].id as nat
                                == c.user_id && store.users@[i].kyc_status == KycStatus::Approved;
                        if j < wi {
                            assert(store.users@[j].id != store.users@[wi].id);
                            assert(false);
                        }
                        if j > wi {
                            assert(store.users@[wi].id != store.users@[j].id);
                            assert(false);
                        }
                        assert(false);
                    }
                }
                Err(ApiError::forbidden("Identity verification required"))
            }
        },
    }
}

} // verus!
