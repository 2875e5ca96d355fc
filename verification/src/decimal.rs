//! Decimal rendering and parsing of unsigned integers, used by the token
//! payload format.

use vstd::prelude::*;

use crate::crypto::push_char;
use crate::validate::{all_digits, is_digit_char};

verus! {

/// Decimal digits of `n`, most significant first, with no leading zero
/// (`0` is rendered as the single digit `0`).
pub open spec fn dec_digits(n: nat) -> Seq<char>
    decreases n,
{
    if n < 10 {
        seq![(48 + n) as char]
    } else {
        dec_digits(n / 10).push((48 + n % 10) as char)
    }
}

/// Numeric value of a digit string, most significant digit first.
pub open spec fn dec_value(s: Seq<char>) -> nat
    decreases s.len(),
{
    if s.len() == 0 {
        0
    } else {
        dec_value(s.drop_last()) * 10 + (s.last() as int - 48) as nat
    }
}

/// Rendering a number and reading it back gives the number again, and the
/// rendering is a non-empty digit string.
pub proof fn lemma_dec_round_trip(n: nat)
    ensures
        dec_value(dec_digits(n)) == n,
        dec_digits(n).len() >= 1,
        all_digits(dec_digits(n)),
    decreases n,
{
    if n < 10 {
        let c = (48 + n) as char;
        assert(c as int == 48 + n);
        assert(dec_digits(n) =~= seq![c]);
        assert(dec_digits(n)[0] == c);
        assert(dec_digits(n).drop_last() =~= Seq::<char>::empty());
        assert(dec_value(Seq::<char>::empty()) == 0);
        assert(dec_digits(n).last() == c);
    } else {
        lemma_dec_round_trip(n / 10);
        let d = (48 + n % 10) as char;
        assert(d as int == 48 + n % 10);
        assert(dec_digits(n).drop_last() =~= dec_digits(n / 10));
        assert(dec_digits(n).last() == d);
        assert(dec_value(dec_digits(n)) == (n / 10) * 10 + n % 10);
        assert((n / 10) * 10 + n % 10 == n) by (nonlinear_arith);
        assert forall|i: int| 0 <= i < dec_digits(n).len() implies is_digit_char(
            #[trigger] dec_digits(n)[i],
        ) by {
            if i < dec_digits(n).len() - 1 {
                assert(dec_digits(n)[i] == dec_digits(n / 10)[i]);
            } else {
                assert(dec_digits(n)[i] == d);
            }
        }
    }
}

/// A digit string that parses into a `u64`: non-empty, all digits, value
/// within range.
pub open spec fn dec_ok(s: Seq<char>) -> bool {
    s.len() > 0 && all_digits(s) && dec_value(s) <= u64::MAX
}

/// Renders `n` in decimal.
pub fn u64_to_dec(n: u64) -> (r: String)
    ensures
        r@ == dec_digits(n as nat),
    decreases n,
{
    if n < 10 {
        let mut r = String::new();
        let c = (48 + n as u8) as char;
        push_char(&mut r, c);
        proof {
            assert(r@ =~= dec_digits(n as nat));
        }
        r
    } else {
        let mut r = u64_to_dec(n / 10);
        let c = (48 + (n % 10) as u8) as char;
        push_char(&mut r, c);
        r
    }
}

/// One parsing step: extending the digit prefix by one character.
proof fn lemma_dec_value_take_step(s: Seq<char>, i: int)
    requires
        0 <= i < s.len(),
    ensures
        dec_value(s.take(i + 1)) == dec_value(s.take(i)) * 10 + ((s[i] as int - 48) as nat),
{
    assert(s.take(i + 1).drop_last() =~= s.take(i));
    assert(s.take(i + 1).last() == s[i]);
}

/// Parses a decimal digit string. Returns the value when `s` is non-empty,
/// all digits, and the value fits in a `u64`; `None` otherwise.
pub fn parse_dec_u64(s: &str) -> (r: Option<u64>)
    ensures
        match r {
            Some(v) => s@.len() > 0 && all_digits(s@) && dec_value(s@) == v as nat,
            None => !(s@.len() > 0 && all_digits(s@) && dec_value(s@) <= u64::MAX),
        },
{
    let n = s.unicode_len();
    if n == 0 {
        return None;
    }
    let mut acc: u64 = 0;
    let mut i: usize = 0;
    while i < n
        invariant
            0 <= i <= n,
            n == s@.len(),
            acc as nat == dec_value(s@.take(i as int)),
            forall|k: int| 0 <= k < i ==> is_digit_char(#[trigger] s@[k]),
        decreases n - i,
    {
        let c = s.get_char(i);
        let u = c as u32;
        if u < 48 || u > 57 {
            proof {
                assert(!is_digit_char(s@[i as int]));
                assert(!all_digits(s@));
            }
            return None;
        }
        let d = (u - 48) as u64;
        proof {
            lemma_dec_value_take_step(s@, i as int);
            assert((s@[i as int] as int - 48) as nat == d as nat);
            assert(dec_value(s@.take(i as int + 1)) == acc as nat * 10 + d as nat);
        }
        if acc > (u64::MAX - d) / 10 {
            proof {
                assert(acc as nat * 10 + d as nat > u64::MAX) by (nonlinear_arith)
                    requires
                        acc as nat > ((u64::MAX - d) / 10) as nat,
                        d as nat <= 9,
                ;
                lemma_dec_value_prefix_bound(s@, i as int + 1);
            }
            return None;
        }
        proof {
            assert(acc as nat <= ((u64::MAX - d) / 10) as nat);
            assert(acc as nat * 10 + d as nat <= u64::MAX) by (nonlinear_arith)
                requires
                    acc as nat <= ((u64::MAX - d) / 10) as nat,
                    d as nat <= 9,
                    d <= u64::MAX,
            ;
        }
        acc = acc * 10 + d;
        i += 1;
    }
    proof {
        assert(s@.take(n as int) =~= s@);
    }
    Some(acc)
}

/// If some prefix of a digit string already exceeds `u64::MAX`, so does the
/// whole string.
proof fn lemma_dec_value_prefix_bound(s: Seq<char>, i: int)
    requires
        0 <= i <= s.len(),
        dec_value(s.take(i)) > u64::MAX,
    ensures
        dec_value(s) > u64::MAX,
    decreases s.len() - i,
{
    if i < s.len() {
        lemma_dec_value_take_step(s, i);
        assert(dec_value(s.take(i + 1)) >= dec_value(s.take(i)) * 10) by (nonlinear_arith)
            requires
                dec_value(s.take(i + 1)) == dec_value(s.take(i)) * 10 + ((s[i] as int - 48) as nat),
        ;
        assert(dec_value(s.take(i)) * 10 >= dec_value(s.take(i))) by (nonlinear_arith);
        lemma_dec_value_prefix_bound(s, i + 1);
    } else {
        assert(s.take(i) =~= s);
    }
}

} // verus!
