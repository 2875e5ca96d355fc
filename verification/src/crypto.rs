//! Keyed hashing and hex encoding used to sign and check session tokens
//! and webhook payloads.

use vstd::prelude::*;

use hmac::{Hmac, KeyInit, Mac};
use sha2::Sha256;

verus! {

/// The HMAC-SHA-256 digest of `msg` (UTF-8 encoded) under `key`: a pure
/// function of its arguments, computed by the hmac and sha2 crates.
pub uninterp spec fn hmac_sha256_of(key: Seq<u8>, msg: Seq<char>) -> Seq<u8>;

/// The lowercase hex digit with value `n` (`n < 16`).
pub open spec fn hex_digit_char(n: u8) -> char {
    if n < 10 {
        (48 + n) as char
    } else {
        (87 + n) as char
    }
}

/// Lowercase hex encoding: two digits per byte, high nibble first.
pub open spec fn hex_of(b: Seq<u8>) -> Seq<char> {
    Seq::new(
        b.len() * 2,
        |i: int|
            if i % 2 == 0 {
                hex_digit_char((b[i / 2] / 16) as u8)
            } else {
                hex_digit_char((b[i / 2] % 16) as u8)
            },
    )
}

/// Relies on hmac's `Hmac<Sha256>`: `new_from_slice` accepts keys of any
/// length, and the finalized MAC is a 32-byte digest determined by the key
/// and the message alone.
#[verifier::external_body]
pub fn hmac_sha256(key: &[u8], msg: &str) -> (r: Vec<u8>)
    ensures
        r@ == hmac_sha256_of(key@, msg@),
        r@.len() == 32,
{
    let mut mac = <Hmac<Sha256> as KeyInit>::new_from_slice(key)
        .expect("HMAC accepts keys of any length");
    Mac::update(&mut mac, msg.as_bytes());
    mac.finalize().into_bytes().to_vec()
}

/// Relies on hex::encode: lowercase hex, exactly two digits per input byte,
/// high nibble first.
#[verifier::external_body]
pub fn bytes_to_hex(b: &[u8]) -> (r: String)
    ensures
        r@ == hex_of(b@),
{
    hex::encode(b)
}

/// Relies on String::push: appends exactly the given character.
#[verifier::external_body]
pub fn push_char(s: &mut String, c: char)
    ensures
        final(s)@ == old(s)@.push(c),
{
    s.push(c);
}

/// Every character of a hex encoding is a digit or a lowercase letter
/// `a`..`f`; in particular it is never `'.'` nor `'|'`.
pub proof fn lemma_hex_of_chars(b: Seq<u8>)
    ensures
        hex_of(b).len() == b.len() * 2,
        forall|i: int|
            0 <= i < hex_of(b).len() ==> (48 <= #[trigger] hex_of(b)[i] as int <= 57 || 97 <= hex_of(
                b,
            )[i] as int <= 102),
{
    assert forall|i: int|
        0 <= i < hex_of(b).len() implies (48 <= #[trigger] hex_of(b)[i] as int <= 57 || 97
        <= hex_of(b)[i] as int <= 102) by {
        let v = if i % 2 == 0 {
            (b[i / 2] / 16) as u8
        } else {
            (b[i / 2] % 16) as u8
        };
        assert(v < 16);
        assert(hex_of(b)[i] == hex_digit_char(v));
    }
}

} // verus!
