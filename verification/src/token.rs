//! Stateless session tokens: a compact three-part signed structure
//! `header.payload.signature`.
//!
//! The payload carries the token kind, the subject (user id and mobile),
//! the issue time and the expiry, separated by `'|'`. The signature is the
//! lowercase hex HMAC-SHA-256 of `header.payload` under the server secret.

use vstd::prelude::*;

use crate::crypto::{bytes_to_hex, hex_of, hmac_sha256, hmac_sha256_of, lemma_hex_of_chars};
use crate::decimal::{dec_digits, dec_ok, dec_value, lemma_dec_round_trip, parse_dec_u64,
    u64_to_dec};
use crate::response::{ApiError, ErrorKind};
use crate::validate::{all_digits, is_digit_char};

verus! {

/// Lifetime of an access token, in seconds.
pub const ACCESS_TOKEN_TTL_SECS: u64 = 3600;

/// Lifetime of a refresh token, in seconds.
pub const REFRESH_TOKEN_TTL_SECS: u64 = 2592000;

/// The two token kinds; the refresh path must reject an access token and
/// vice versa.
#[derive(Clone, Copy, Debug, PartialEq, Eq, Structural)]
pub enum TokenKind {
    Access,
    Refresh,
}

/// Why verification failed.
#[derive(Clone, Copy, Debug, PartialEq, Eq, Structural)]
pub enum TokenError {
    /// Structurally valid and correctly signed, but `exp < now`.
    TokenExpired,
    /// Malformed structure or signature mismatch.
    TokenInvalid,
}

/// The claims carried by a token.
#[derive(Debug)]
pub struct Claims {
    pub user_id: u64,
    pub mobile: String,
    pub kind: TokenKind,
    pub iat: u64,
    pub exp: u64,
}

/// Spec-level image of the claims recovered from a token.
pub struct ParsedClaims {
    pub kind: TokenKind,
    pub user_id: nat,
    pub mobile: Seq<char>,
    pub iat: nat,
    pub exp: nat,
}

/// A payload field may hold neither the part separator `'.'` nor the field
/// separator `'|'`.
pub open spec fn token_field_ok(s: Seq<char>) -> bool {
    forall|i: int| 0 <= i < s.len() ==> #[trigger] s[i] != '.' && s[i] != '|'
}

/// The fixed token header, naming the signing scheme.
pub open spec fn header_chars() -> Seq<char> {
    "hs256"@
}

/// Rendering of the token kind in the payload.
pub open spec fn kind_chars(k: TokenKind) -> Seq<char> {
    match k {
        TokenKind::Access => "access"@,
        TokenKind::Refresh => "refresh"@,
    }
}

/// The payload: kind, user id, mobile, issued-at and expiry, separated by
/// `'|'`.
pub open spec fn payload_chars(k: TokenKind, user_id: nat, mobile: Seq<char>, iat: nat, exp: nat)
    -> Seq<char> {
    kind_chars(k) + seq!['|'] + dec_digits(user_id) + seq!['|'] + mobile + seq!['|'] + dec_digits(
        iat,
    ) + seq!['|'] + dec_digits(exp)
}

/// The signed part: `header.payload`.
pub open spec fn signing_chars(k: TokenKind, user_id: nat, mobile: Seq<char>, iat: nat, exp: nat)
    -> Seq<char> {
    header_chars() + seq!['.'] + payload_chars(k, user_id, mobile, iat, exp)
}

/// The whole token: `header.payload.signature`.
pub open spec fn token_chars(
    secret: Seq<u8>,
    k: TokenKind,
    user_id: nat,
    mobile: Seq<char>,
    iat: nat,
    exp: nat,
) -> Seq<char> {
    let si = signing_chars(k, user_id, mobile, iat, exp);
    si + seq!['.'] + hex_of(hmac_sha256_of(secret, si))
}

/// Index of the first occurrence of `c` in `s`, or `-1` when absent.
pub open spec fn find_char(s: Seq<char>, c: char) -> int
    decreases s.len(),
{
    if s.len() == 0 {
        -1
    } else if s[0] == c {
        0
    } else {
        let r = find_char(s.skip(1), c);
        if r < 0 {
            -1
        } else {
            r + 1
        }
    }
}

/// `find_char` returns the least index holding `c`, or `-1` exactly when
/// `c` does not occur.
pub proof fn lemma_find_char_props(s: Seq<char>, c: char)
    ensures
        find_char(s, c) == -1 <==> (forall|i: int| 0 <= i < s.len() ==> s[i] != c),
        find_char(s, c) != -1 ==> {
            &&& 0 <= find_char(s, c) < s.len()
            &&& s[find_char(s, c)] == c
            &&& forall|k: int| 0 <= k < find_char(s, c) ==> s[k] != c
        },
    decreases s.len(),
{
    if s.len() > 0 && s[0] != c {
        lemma_find_char_props(s.skip(1), c);
        let r = find_char(s.skip(1), c);
        assert forall|i: int| 0 <= i < s.skip(1).len() implies s.skip(1)[i] == s[i + 1] by {}
        if r == -1 {
            assert forall|i: int| 0 <= i < s.len() implies s[i] != c by {
                if i > 0 {
                    assert(s.skip(1)[i - 1] == s[i]);
                }
            }
        } else {
            assert(s[r + 1] == s.skip(1)[r]);
            assert forall|k: int| 0 <= k < r + 1 implies s[k] != c by {
                if k > 0 {
                    assert(s.skip(1)[k - 1] == s[k]);
                }
            }
        }
    }
}

/// Splitting `a + [c] + b` at the first `c` recovers `a` and `b`, provided
/// `a` holds no `c`.
pub proof fn lemma_split_at(a: Seq<char>, b: Seq<char>, c: char)
    requires
        forall|i: int| 0 <= i < a.len() ==> a[i] != c,
    ensures
        find_char(a + seq![c] + b, c) == a.len(),
        (a + seq![c] + b).take(a.len() as int) == a,
        (a + seq![c] + b).skip(a.len() as int + 1) == b,
{
    let s = a + seq![c] + b;
    lemma_find_char_props(s, c);
    assert(s[a.len() as int] == c);
    assert(find_char(s, c) != -1);
    let f = find_char(s, c);
    assert(forall|k: int| 0 <= k < f ==> s[k] != c);
    if f < a.len() {
        assert(s[f] == a[f]);
        assert(false);
    }
    if f > a.len() {
        assert(s[a.len() as int] == c);
        assert(false);
    }
    assert(s.take(a.len() as int) =~= a);
    assert(s.skip(a.len() as int + 1) =~= b);
}

/// Position of the first `'.'` in a token.
pub open spec fn tok_d1(t: Seq<char>) -> int {
    find_char(t, '.')
}

/// What follows the first `'.'`.
pub open spec fn tok_rest(t: Seq<char>) -> Seq<char> {
    t.skip(tok_d1(t) + 1)
}

/// Position of the second `'.'`, within `tok_rest`.
pub open spec fn tok_d2(t: Seq<char>) -> int {
    find_char(tok_rest(t), '.')
}

/// The signature part: everything after the second `'.'`.
pub open spec fn tok_sig(t: Seq<char>) -> Seq<char> {
    tok_rest(t).skip(tok_d2(t) + 1)
}

/// The payload part: between the two `'.'`.
pub open spec fn tok_payload(t: Seq<char>) -> Seq<char> {
    tok_rest(t).take(tok_d2(t))
}

/// The signed part: up to the second `'.'` exclusive.
pub open spec fn tok_signing(t: Seq<char>) -> Seq<char> {
    t.take(tok_d1(t) + 1 + tok_d2(t))
}

/// The token splits into exactly three parts and names the right scheme.
pub open spec fn tok_structure_ok(t: Seq<char>) -> bool {
    &&& tok_d1(t) >= 0
    &&& tok_d2(t) >= 0
    &&& find_char(tok_sig(t), '.') == -1
    &&& t.take(tok_d1(t)) == header_chars()
}

/// Splits the payload into its five fields and validates each.
pub open spec fn spec_parse_payload(p: Seq<char>) -> Option<ParsedClaims> {
    let s1 = find_char(p, '|');
    if s1 < 0 {
        None
    } else {
        let kind_part = p.take(s1);
        let r1 = p.skip(s1 + 1);
        let s2 = find_char(r1, '|');
        if s2 < 0 {
            None
        } else {
            let uid_part = r1.take(s2);
            let r2 = r1.skip(s2 + 1);
            let s3 = find_char(r2, '|');
            if s3 < 0 {
                None
            } else {
                let mobile_part = r2.take(s3);
                let r3 = r2.skip(s3 + 1);
                let s4 = find_char(r3, '|');
                if s4 < 0 {
                    None
                } else {
                    let iat_part = r3.take(s4);
                    let exp_part = r3.skip(s4 + 1);
                    if find_char(exp_part, '|') >= 0 {
                        None
                    } else if !(kind_part == "access"@ || kind_part == "refresh"@) {
                        None
                    } else if !(dec_ok(uid_part) && dec_ok(iat_part) && dec_ok(exp_part)) {
                        None
                    } else {
                        Some(
                            ParsedClaims {
                                kind: if kind_part == "access"@ {
                                    TokenKind::Access
                                } else {
                                    TokenKind::Refresh
                                },
                                user_id: dec_value(uid_part),
                                mobile: mobile_part,
                                iat: dec_value(iat_part),
                                exp: dec_value(exp_part),
                            },
                        )
                    }
                }
            }
        }
    }
}

/// Structural parse of a whole token; says nothing about the signature.
pub open spec fn spec_parse_token(t: Seq<char>) -> Option<ParsedClaims> {
    if tok_structure_ok(t) {
        spec_parse_payload(tok_payload(t))
    } else {
        None
    }
}

/// The signature part equals the hex HMAC of the signed part.
pub open spec fn sig_valid(t: Seq<char>, secret: Seq<u8>) -> bool {
    tok_sig(t) == hex_of(hmac_sha256_of(secret, tok_signing(t)))
}

/// Full verification: `TokenInvalid` on malformed structure or signature
/// mismatch, `TokenExpired` when well-formed and signed but `exp < now`,
/// the claims otherwise.
pub open spec fn spec_verify_token(t: Seq<char>, now: u64, secret: Seq<u8>) -> Result<
    ParsedClaims,
    TokenError,
> {
    match spec_parse_token(t) {
        Option::None => Result::Err(TokenError::TokenInvalid),
        Option::Some(c) => if !sig_valid(t, secret) {
            Result::Err(TokenError::TokenInvalid)
        } else if c.exp < now {
            Result::Err(TokenError::TokenExpired)
        } else {
            Result::Ok(c)
        },
    }
}

/// Index of the first occurrence of `c` in `s`, if any.
fn find_char_str(s: &str, c: char) -> (r: Option<usize>)
    ensures
        match r {
            Some(i) => find_char(s@, c) == i as int,
            None => find_char(s@, c) == -1,
        },
{
    let n = s.unicode_len();
    let mut i: usize = 0;
    while i < n
        invariant
            0 <= i <= n,
            n == s@.len(),
            forall|k: int| 0 <= k < i ==> s@[k] != c,
        decreases n - i,
    {
        if s.get_char(i) == c {
            proof {
                lemma_find_char_props(s@, c);
                let f = find_char(s@, c);
                assert(s@[i as int] == c);
                assert(f != -1);
                if f < i {
                    assert(s@[f] != c);
                    assert(false);
                }
                if f > i {
                    assert(s@[i as int] != c);
                    assert(false);
                }
            }
            return Some(i);
        }
        i += 1;
    }
    proof {
        lemma_find_char_props(s@, c);
    }
    None
}

/// Reports whether two strings hold the same characters.
pub fn str_eq(a: &str, b: &str) -> (r: bool)
    ensures
        r == (a@ == b@),
{
    let sa = String::from_str(a);
    let sb = String::from_str(b);
    sa == sb
}

/// Builds and signs a token for the given claims.
fn build_token(kind: TokenKind, user_id: u64, mobile: &str, iat: u64, exp: u64, secret: &[u8])
    -> (t: String)
    requires
        token_field_ok(mobile@),
    ensures
        t@ == token_chars(secret@, kind, user_id as nat, mobile@, iat as nat, exp as nat),
{
    proof {
        reveal_strlit(".");
        reveal_strlit("|");
    }
    let kind_str: &str = match kind {
        TokenKind::Access => "access",
        TokenKind::Refresh => "refresh",
    };
    let mut si = String::from_str("hs256");
    si.append(".");
    si.append(kind_str);
    si.append("|");
    let uid_s = u64_to_dec(user_id);
    si.append(uid_s.as_str());
    si.append("|");
    si.append(mobile);
    si.append("|");
    let iat_s = u64_to_dec(iat);
    si.append(iat_s.as_str());
    si.append("|");
    let exp_s = u64_to_dec(exp);
    si.append(exp_s.as_str());
    proof {
        assert("."@ =~= seq!['.']);
        assert("|"@ =~= seq!['|']);
        assert(si@ =~= signing_chars(kind, user_id as nat, mobile@, iat as nat, exp as nat));
    }
    let mac = hmac_sha256(secret, si.as_str());
    let sig = bytes_to_hex(mac.as_slice());
    let with_dot = si.concat(".");
    let t = with_dot.concat(sig.as_str());
    proof {
        assert(t@ =~= token_chars(
            secret@,
            kind,
            user_id as nat,
            mobile@,
            iat as nat,
            exp as nat,
        ));
    }
    t
}

/// Checks a presented token: splits the three parts, recomputes the
/// signature over `header.payload`, validates every payload field, and
/// compares the expiry against `now`.
pub fn verify_token(token: &str, now: u64, secret: &[u8]) -> (r: Result<Claims, TokenError>)
    ensures
        r is Ok <==> spec_verify_token(token@, now, secret@) is Ok,
        r matches Ok(c) ==> ({
            let p = spec_verify_token(token@, now, secret@)->Ok_0;
            &&& c.kind == p.kind
            &&& c.user_id as nat == p.user_id
            &&& c.mobile@ == p.mobile
            &&& c.iat as nat == p.iat
            &&& c.exp as nat == p.exp
            &&& token_field_ok(c.mobile@)
        }),
        r matches Err(e) ==> spec_verify_token(token@, now, secret@) == Result::<
            ParsedClaims,
            TokenError,
        >::Err(e),
{
    let ghost t = token@;
    let n = token.unicode_len();
    let d1 = match find_char_str(token, '.') {
        Some(i) => i,
        None => {
            return Err(TokenError::TokenInvalid);
        },
    };
    proof {
        lemma_find_char_props(t, '.');
    }
    let rest = token.substring_char(d1 + 1, n);
    proof {
        assert(rest@ =~= tok_rest(t));
    }
    let rn = rest.unicode_len();
    let d2 = match find_char_str(rest, '.') {
        Some(i) => i,
        None => {
            return Err(TokenError::TokenInvalid);
        },
    };
    proof {
        lemma_find_char_props(rest@, '.');
    }
    let sig_s = rest.substring_char(d2 + 1, rn);
    proof {
        assert(sig_s@ =~= tok_sig(t));
    }
    if find_char_str(sig_s, '.').is_some() {
        return Err(TokenError::TokenInvalid);
    }
    let header_s = token.substring_char(0, d1);
    proof {
        assert(header_s@ =~= t.take(tok_d1(t)));
    }
    if !str_eq(header_s, "hs256") {
        return Err(TokenError::TokenInvalid);
    }
    proof {
        assert(tok_structure_ok(t));
    }
    let signing_s = token.substring_char(0, d1 + 1 + d2);
    proof {
        assert(signing_s@ =~= tok_signing(t));
    }
    let mac = hmac_sha256(secret, signing_s);
    let expected = bytes_to_hex(mac.as_slice());
    let sig_string = String::from_str(sig_s);
    if !(sig_string == expected) {
        return Err(TokenError::TokenInvalid);
    }
    proof {
        assert(sig_valid(t, secret@));
    }
    let payload_s = rest.substring_char(0, d2);
    proof {
        assert(payload_s@ =~= tok_payload(t));
    }
    let ghost p = tok_payload(t);
    let pn = payload_s.unicode_len();
    let s1 = match find_char_str(payload_s, '|') {
        Some(i) => i,
        None => {
            return Err(TokenError::TokenInvalid);
        },
    };
    proof {
        lemma_find_char_props(p, '|');
    }
    let kind_s = payload_s.substring_char(0, s1);
    let r1_s = payload_s.substring_char(s1 + 1, pn);
    proof {
        assert(kind_s@ =~= p.take(s1 as int));
        assert(r1_s@ =~= p.skip(s1 as int + 1));
    }
    let r1n = r1_s.unicode_len();
    let s2 = match find_char_str(r1_s, '|') {
        Some(i) => i,
        None => {
            return Err(TokenError::TokenInvalid);
        },
    };
    proof {
        lemma_find_char_props(r1_s@, '|');
    }
    let uid_s = r1_s.substring_char(0, s2);
    let r2_s = r1_s.substring_char(s2 + 1, r1n);
    proof {
        assert(uid_s@ =~= r1_s@.take(s2 as int));
        assert(r2_s@ =~= r1_s@.skip(s2 as int + 1));
    }
    let r2n = r2_s.unicode_len();
    let s3 = match find_char_str(r2_s, '|') {
        Some(i) => i,
        None => {
            return Err(TokenError::TokenInvalid);
        },
    };
    proof {
        lemma_find_char_props(r2_s@, '|');
    }
    let mobile_s = r2_s.substring_char(0, s3);
    let r3_s = r2_s.substring_char(s3 + 1, r2n);
    proof {
        assert(mobile_s@ =~= r2_s@.take(s3 as int));
        assert(r3_s@ =~= r2_s@.skip(s3 as int + 1));
    }
    let r3n = r3_s.unicode_len();
    let s4 = match find_char_str(r3_s, '|') {
        Some(i) => i,
        None => {
            return Err(TokenError::TokenInvalid);
        },
    };
    proof {
        lemma_find_char_props(r3_s@, '|');
    }
    let iat_s = r3_s.substring_char(0, s4);
    let exp_s = r3_s.substring_char(s4 + 1, r3n);
    proof {
        assert(iat_s@ =~= r3_s@.take(s4 as int));
        assert(exp_s@ =~= r3_s@.skip(s4 as int + 1));
    }
    if find_char_str(exp_s, '|').is_some() {
        return Err(TokenError::TokenInvalid);
    }
    let kind: TokenKind = if str_eq(kind_s, "access") {
        TokenKind::Access
    } else if str_eq(kind_s, "refresh") {
        TokenKind::Refresh
    } else {
        return Err(TokenError::TokenInvalid);
    };
    let uid = match parse_dec_u64(uid_s) {
        Some(v) => v,
        None => {
            return Err(TokenError::TokenInvalid);
        },
    };
    let iat = match parse_dec_u64(iat_s) {
        Some(v) => v,
        None => {
            return Err(TokenError::TokenInvalid);
        },
    };
    let exp = match parse_dec_u64(exp_s) {
        Some(v) => v,
        None => {
            return Err(TokenError::TokenInvalid);
        },
    };
    proof {
        assert(spec_parse_payload(p) matches Some(c) && c.kind == kind && c.user_id == uid as nat
            && c.mobile == mobile_s@ && c.iat == iat as nat && c.exp == exp as nat);
    }
    if exp < now {
        return Err(TokenError::TokenExpired);
    }
    proof {
        assert forall|j: int|
            0 <= j < mobile_s@.len() implies #[trigger] mobile_s@[j] != '.' && mobile_s@[j]
            != '|' by {
            assert(mobile_s@[j] == r2_s@[j]);
            assert(r2_s@[j] == r1_s@[s2 + 1 + j]);
            assert(r1_s@[s2 + 1 + j] == p[s1 + 1 + s2 + 1 + j]);
            assert(p[s1 + 1 + s2 + 1 + j] == rest@[s1 + 1 + s2 + 1 + j]);
        }
    }
    let mobile = String::from_str(mobile_s);
    Ok(Claims { user_id: uid, mobile, kind, iat, exp })
}

/// Mints an access token for the subject, expiring `ACCESS_TOKEN_TTL_SECS`
/// after `now`.
pub fn issue_access_token(user_id: u64, mobile: &str, now: u64, secret: &[u8]) -> (t: String)
    requires
        token_field_ok(mobile@),
        now + ACCESS_TOKEN_TTL_SECS <= u64::MAX,
    ensures
        t@ == token_chars(
            secret@,
            TokenKind::Access,
            user_id as nat,
            mobile@,
            now as nat,
            (now + ACCESS_TOKEN_TTL_SECS) as nat,
        ),
{
    build_token(TokenKind::Access, user_id, mobile, now, now + ACCESS_TOKEN_TTL_SECS, secret)
}

/// Mints a refresh token for the subject, expiring
/// `REFRESH_TOKEN_TTL_SECS` after `now`.
pub fn issue_refresh_token(user_id: u64, mobile: &str, now: u64, secret: &[u8]) -> (t: String)
    requires
        token_field_ok(mobile@),
        now + REFRESH_TOKEN_TTL_SECS <= u64::MAX,
    ensures
        t@ == token_chars(
            secret@,
            TokenKind::Refresh,
            user_id as nat,
            mobile@,
            now as nat,
            (now + REFRESH_TOKEN_TTL_SECS) as nat,
        ),
{
    build_token(TokenKind::Refresh, user_id, mobile, now, now + REFRESH_TOKEN_TTL_SECS, secret)
}

/// `c` occurs nowhere in `s`.
pub open spec fn no_char(s: Seq<char>, c: char) -> bool {
    forall|i: int| 0 <= i < s.len() ==> #[trigger] s[i] != c
}

proof fn lemma_no_char_concat(a: Seq<char>, b: Seq<char>, c: char)
    requires
        no_char(a, c),
        no_char(b, c),
    ensures
        no_char(a + b, c),
{
    assert forall|i: int| 0 <= i < (a + b).len() implies #[trigger] (a + b)[i] != c by {
        if i < a.len() {
            assert((a + b)[i] == a[i]);
        } else {
            assert((a + b)[i] == b[i - a.len()]);
        }
    }
}

proof fn lemma_digits_clean(s: Seq<char>)
    requires
        all_digits(s),
    ensures
        no_char(s, '.'),
        no_char(s, '|'),
{
    assert forall|i: int| 0 <= i < s.len() implies #[trigger] s[i] != '.' && s[i] != '|' by {
        assert(is_digit_char(s[i]));
    }
}

proof fn lemma_literals_clean()
    ensures
        no_char(header_chars(), '.'),
        no_char("access"@, '.'),
        no_char("access"@, '|'),
        no_char("refresh"@, '.'),
        no_char("refresh"@, '|'),
        "access"@ != "refresh"@,
{
    reveal_strlit("hs256");
    reveal_strlit("access");
    reveal_strlit("refresh");
    let h = header_chars();
    assert forall|i: int| 0 <= i < h.len() implies #[trigger] h[i] != '.' by {
        if i == 0 {
            assert(h[0] != '.');
        } else if i == 1 {
            assert(h[1] != '.');
        } else if i == 2 {
            assert(h[2] != '.');
        } else if i == 3 {
            assert(h[3] != '.');
        } else {
            assert(h[4] != '.');
        }
    }
    let a = "access"@;
    assert forall|i: int| 0 <= i < a.len() implies #[trigger] a[i] != '.' && a[i] != '|' by {
        if i == 0 {
            assert(a[0] != '.' && a[0] != '|');
        } else if i == 1 {
            assert(a[1] != '.' && a[1] != '|');
        } else if i == 2 {
            assert(a[2] != '.' && a[2] != '|');
        } else if i == 3 {
            assert(a[3] != '.' && a[3] != '|');
        } else if i == 4 {
            assert(a[4] != '.' && a[4] != '|');
        } else {
            assert(a[5] != '.' && a[5] != '|');
        }
    }
    let r = "refresh"@;
    assert forall|i: int| 0 <= i < r.len() implies #[trigger] r[i] != '.' && r[i] != '|' by {
        if i == 0 {
            assert(r[0] != '.' && r[0] != '|');
        } else if i == 1 {
            assert(r[1] != '.' && r[1] != '|');
        } else if i == 2 {
            assert(r[2] != '.' && r[2] != '|');
        } else if i == 3 {
            assert(r[3] != '.' && r[3] != '|');
        } else if i == 4 {
            assert(r[4] != '.' && r[4] != '|');
        } else if i == 5 {
            assert(r[5] != '.' && r[5] != '|');
        } else {
            assert(r[6] != '.' && r[6] != '|');
        }
    }
    assert(a.len() != r.len());
}

/// A token minted for given claims verifies back to exactly those claims:
/// `verify(issue(u, m))` recovers `(u, m)` with the issued kind, as long
/// as it is checked before its expiry.
#[verifier::rlimit(100)]
pub proof fn lemma_token_round_trip(
    secret: Seq<u8>,
    kind: TokenKind,
    user_id: u64,
    mobile: Seq<char>,
    iat: u64,
    exp: u64,
    now: u64,
)
    requires
        token_field_ok(mobile),
        now <= exp,
    ensures
        spec_verify_token(
            token_chars(secret, kind, user_id as nat, mobile, iat as nat, exp as nat),
            now,
            secret,
        ) == Result::<ParsedClaims, TokenError>::Ok(
            ParsedClaims {
                kind,
                user_id: user_id as nat,
                mobile,
                iat: iat as nat,
                exp: exp as nat,
            },
        ),
{
    lemma_literals_clean();
    let h = header_chars();
    let ks = kind_chars(kind);
    let uid_d = dec_digits(user_id as nat);
    let iat_d = dec_digits(iat as nat);
    let exp_d = dec_digits(exp as nat);
    lemma_dec_round_trip(user_id as nat);
    lemma_dec_round_trip(iat as nat);
    lemma_dec_round_trip(exp as nat);
    lemma_digits_clean(uid_d);
    lemma_digits_clean(iat_d);
    lemma_digits_clean(exp_d);
    let pay = payload_chars(kind, user_id as nat, mobile, iat as nat, exp as nat);
    let si = signing_chars(kind, user_id as nat, mobile, iat as nat, exp as nat);
    let sg = hex_of(hmac_sha256_of(secret, si));
    let t = token_chars(secret, kind, user_id as nat, mobile, iat as nat, exp as nat);
    assert(no_char(mobile, '.') && no_char(mobile, '|')) by {
        assert forall|i: int| 0 <= i < mobile.len() implies #[trigger] mobile[i] != '.' && mobile[i]
            != '|' by {
            assert(mobile[i] != '.' && mobile[i] != '|');
        }
    }
    assert(no_char(seq!['|'], '.')) by {
        assert(seq!['|'][0] == '|');
    }
    // The signature is hex, so it holds no '.'.
    lemma_hex_of_chars(hmac_sha256_of(secret, si));
    assert(no_char(sg, '.')) by {
        assert forall|i: int| 0 <= i < sg.len() implies #[trigger] sg[i] != '.' by {
            assert(48 <= sg[i] as int <= 57 || 97 <= sg[i] as int <= 102);
        }
    }
    // The payload holds no '.'.
    assert(no_char(ks, '.'));
    lemma_no_char_concat(ks, seq!['|'], '.');
    lemma_no_char_concat(ks + seq!['|'], uid_d, '.');
    lemma_no_char_concat(ks + seq!['|'] + uid_d, seq!['|'], '.');
    lemma_no_char_concat(ks + seq!['|'] + uid_d + seq!['|'], mobile, '.');
    lemma_no_char_concat(ks + seq!['|'] + uid_d + seq!['|'] + mobile, seq!['|'], '.');
    lemma_no_char_concat(ks + seq!['|'] + uid_d + seq!['|'] + mobile + seq!['|'], iat_d, '.');
    lemma_no_char_concat(
        ks + seq!['|'] + uid_d + seq!['|'] + mobile + seq!['|'] + iat_d,
        seq!['|'],
        '.',
    );
    lemma_no_char_concat(
        ks + seq!['|'] + uid_d + seq!['|'] + mobile + seq!['|'] + iat_d + seq!['|'],
        exp_d,
        '.',
    );
    assert(no_char(pay, '.'));
    // First split: header.
    lemma_split_at(h, pay + seq!['.'] + sg, '.');
    assert(t =~= h + seq!['.'] + (pay + seq!['.'] + sg));
    assert(tok_d1(t) == h.len());
    assert(tok_rest(t) == pay + seq!['.'] + sg);
    assert(t.take(tok_d1(t)) == h);
    // Second split: payload and signature.
    lemma_split_at(pay, sg, '.');
    assert(tok_d2(t) == pay.len());
    assert(tok_payload(t) == pay);
    assert(tok_sig(t) == sg);
    lemma_find_char_props(sg, '.');
    assert(find_char(sg, '.') == -1);
    assert(tok_structure_ok(t));
    // The signed part of the token is the signing input.
    assert(tok_signing(t) =~= si) by {
        assert(tok_d1(t) + 1 + tok_d2(t) == si.len());
        assert forall|i: int| 0 <= i < si.len() implies t[i] == si[i] by {
            assert(t[i] == (si + seq!['.'] + sg)[i]);
        }
    }
    assert(sig_valid(t, secret));
    // Payload fields.
    let rest1 = uid_d + seq!['|'] + (mobile + seq!['|'] + (iat_d + seq!['|'] + exp_d));
    lemma_split_at(ks, rest1, '|');
    assert(pay =~= ks + seq!['|'] + rest1);
    assert(find_char(pay, '|') == ks.len());
    assert(pay.take(ks.len() as int) == ks);
    assert(pay.skip(ks.len() as int + 1) == rest1);
    let rest2 = mobile + seq!['|'] + (iat_d + seq!['|'] + exp_d);
    lemma_split_at(uid_d, rest2, '|');
    assert(rest1 =~= uid_d + seq!['|'] + rest2);
    let rest3 = iat_d + seq!['|'] + exp_d;
    lemma_split_at(mobile, rest3, '|');
    lemma_split_at(iat_d, exp_d, '|');
    lemma_find_char_props(exp_d, '|');
    assert(find_char(exp_d, '|') == -1);
    // Kind strings are distinguished.
    if kind == TokenKind::Access {
        assert(ks == "access"@);
    } else {
        assert(ks == "refresh"@);
        assert(ks != "access"@);
    }
    assert(dec_ok(uid_d) && dec_ok(iat_d) && dec_ok(exp_d));
    assert(spec_parse_payload(pay) == Some(
        ParsedClaims {
            kind,
            user_id: user_id as nat,
            mobile,
            iat: iat as nat,
            exp: exp as nat,
        },
    ));
    assert(!((exp as nat) < now));
}

/// An expired token always fails verification with `TokenExpired`,
/// regardless of its otherwise-valid signature.
pub proof fn lemma_expired_token_rejected(t: Seq<char>, now: u64, secret: Seq<u8>)
    requires
        spec_parse_token(t) matches Some(c) && c.exp < now,
        sig_valid(t, secret),
    ensures
        spec_verify_token(t, now, secret) == Result::<ParsedClaims, TokenError>::Err(
            TokenError::TokenExpired,
        ),
{
}

/// The refresh flow: checks the presented token, requires it to be of the
/// refresh kind, and mints a fresh access token for the same subject.
/// An access token presented here is rejected.
pub fn refresh_access_token(refresh_token: &str, now: u64, secret: &[u8]) -> (r: Result<
    String,
    ApiError,
>)
    requires
        now + ACCESS_TOKEN_TTL_SECS <= u64::MAX,
    ensures
        match r {
            Ok(t) => {
                &&& spec_verify_token(refresh_token@, now, secret@) matches Ok(c) && c.kind
                    == TokenKind::Refresh && t@ == token_chars(
                    secret@,
                    TokenKind::Access,
                    c.user_id,
                    c.mobile,
                    now as nat,
                    (now + ACCESS_TOKEN_TTL_SECS) as nat,
                )
            },
            Err(e) => {
                &&& e.kind == ErrorKind::Unauthorized
                &&& !(spec_verify_token(refresh_token@, now, secret@) matches Ok(c) && c.kind
                    == TokenKind::Refresh)
            },
        },
{
    match verify_token(refresh_token, now, secret) {
        Err(_) => Err(ApiError::unauthorized("Invalid refresh token")),
        Ok(c) => {
            if c.kind == TokenKind::Refresh {
                Ok(issue_access_token(c.user_id, c.mobile.as_str(), now, secret))
            } else {
                Err(ApiError::unauthorized("Refresh token required"))
            }
        },
    }
}

} // verus!
