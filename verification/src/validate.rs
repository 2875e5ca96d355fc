//! Syntactic validation of phone numbers and email addresses, performed
//! before any external provider is contacted.

use vstd::prelude::*;

verus! {

/// One decimal digit `'0'..='9'`.
pub open spec fn is_digit_char(c: char) -> bool {
    48 <= c as int && c as int <= 57
}

/// Number of occurrences of `c` in `s`.
pub open spec fn count_char(s: Seq<char>, c: char) -> nat
    decreases s.len(),
{
    if s.len() == 0 {
        0
    } else {
        count_char(s.drop_last(), c) + if s.last() == c {
            1nat
        } else {
            0nat
        }
    }
}

/// Every character of `s` is a decimal digit.
pub open spec fn all_digits(s: Seq<char>) -> bool {
    forall|i: int| 0 <= i < s.len() ==> is_digit_char(#[trigger] s[i])
}

/// A mobile number is a country-code-qualified digit string: an optional
/// leading `'+'` followed by 10 to 15 decimal digits and nothing else.
pub open spec fn valid_mobile_spec(s: Seq<char>) -> bool {
    if s.len() > 0 && s[0] == '+' {
        10 <= s.len() - 1 <= 15 && all_digits(s.skip(1))
    } else {
        10 <= s.len() <= 15 && all_digits(s)
    }
}

/// An email address has a non-empty local part, exactly one `'@'`, a domain
/// holding a `'.'` that is neither its first nor its last character, and no
/// space characters anywhere.
pub open spec fn valid_email_spec(s: Seq<char>) -> bool {
    &&& count_char(s, '@') == 1
    &&& exists|p: int|
        {
            &&& 1 <= p < s.len()
            &&& s[p] == '@'
            &&& exists|j: int| p + 1 < j < s.len() - 1 && s[j] == '.'
        }
    &&& forall|i: int| 0 <= i < s.len() ==> s[i] != ' '
}

proof fn lemma_count_char_take_step(s: Seq<char>, c: char, i: int)
    requires
        0 <= i < s.len(),
    ensures
        count_char(s.take(i + 1), c) == count_char(s.take(i), c) + if s[i] == c {
            1nat
        } else {
            0nat
        },
{
    assert(s.take(i + 1).drop_last() =~= s.take(i));
    assert(s.take(i + 1).last() == s[i]);
}

proof fn lemma_count_char_zero(s: Seq<char>, c: char)
    ensures
        (count_char(s, c) == 0) <==> (forall|i: int| 0 <= i < s.len() ==> s[i] != c),
    decreases s.len(),
{
    if s.len() > 0 {
        lemma_count_char_zero(s.drop_last(), c);
        assert forall|i: int|
            0 <= i < s.len() - 1 implies s.drop_last()[i] == s[i] by {}
    }
}

/// Reports whether `s` is a well-formed mobile number.
pub fn validate_mobile(s: &str) -> (r: bool)
    ensures
        r == valid_mobile_spec(s@),
{
    let n = s.unicode_len();
    let has_plus = n > 0 && s.get_char(0) == '+';
    let start: usize = if has_plus {
        1
    } else {
        0
    };
    if has_plus {
        proof {
            assert(s@.skip(1).len() == n - 1);
        }
    }
    let digit_len = n - start;
    if digit_len < 10 || digit_len > 15 {
        return false;
    }
    let mut i: usize = start;
    while i < n
        invariant
            start <= i <= n,
            n == s@.len(),
            start == if has_plus {
                1int
            } else {
                0int
            },
            has_plus == (s@.len() > 0 && s@[0] == '+'),
            10 <= n - start <= 15,
            forall|k: int| start <= k < i ==> is_digit_char(#[trigger] s@[k]),
        decreases n - i,
    {
        let c = s.get_char(i);
        let u = c as u32;
        if u < 48 || u > 57 {
            proof {
                assert(!is_digit_char(s@[i as int]));
                if has_plus {
                    assert(s@.skip(1)[i - 1] == s@[i as int]);
                    assert(!all_digits(s@.skip(1)));
                } else {
                    assert(!all_digits(s@));
                }
            }
            return false;
        }
        i += 1;
    }
    proof {
        if has_plus {
            assert forall|j: int| 0 <= j < s@.skip(1).len() implies is_digit_char(
                #[trigger] s@.skip(1)[j],
            ) by {
                assert(s@.skip(1)[j] == s@[j + 1]);
            }
            assert(all_digits(s@.skip(1)));
        } else {
            assert(all_digits(s@));
        }
    }
    true
}

/// Reports whether `s` is a well-formed email address.
pub fn validate_email(s: &str) -> (r: bool)
    ensures
        r == valid_email_spec(s@),
{
    let n = s.unicode_len();
    let mut at_count: usize = 0;
    let mut at_pos: usize = 0;
    let mut has_space = false;
    let mut i: usize = 0;
    while i < n
        invariant
            0 <= i <= n,
            n == s@.len(),
            at_count == count_char(s@.take(i as int), '@'),
            at_count > 0 ==> at_pos < i && s@[at_pos as int] == '@',
            at_count == 1 ==> forall|k: int| 0 <= k < i && s@[k] == '@' ==> k == at_pos as int,
            has_space == exists|k: int| 0 <= k < i && s@[k] == ' ',
            at_count <= i,
        decreases n - i,
    {
        let c = s.get_char(i);
        proof {
            lemma_count_char_take_step(s@, '@', i as int);
        }
        if c == '@' {
            if at_count == 0 {
                proof {
                    lemma_count_char_zero(s@.take(i as int), '@');
                    assert forall|k: int| 0 <= k < i implies s@[k] != '@' by {
                        assert(s@.take(i as int)[k] == s@[k]);
                    }
                }
                at_pos = i;
            }
            at_count += 1;
        }
        if c == ' ' {
            has_space = true;
        }
        i += 1;
    }
    proof {
        assert(s@.take(n as int) =~= s@);
    }
    if at_count != 1 || has_space || at_pos == 0 {
        proof {
            if valid_email_spec(s@) {
                assert(count_char(s@, '@') == 1);
                assert(at_count == 1);
                assert(!has_space);
                let p = choose|p: int|
                    {
                        &&& 1 <= p < s@.len()
                        &&& s@[p] == '@'
                        &&& exists|j: int| p + 1 < j < s@.len() - 1 && s@[j] == '.'
                    };
                assert(p == at_pos as int);
                assert(at_pos != 0);
                assert(false);
            }
        }
        return false;
    }
    // The domain must hold a '.' strictly inside it.
    let mut dot_ok = false;
    let mut j: usize = at_pos + 1;
    while j < n
        invariant
            at_pos + 1 <= j <= n || j == at_pos + 1,
            at_pos < n,
            n == s@.len(),
            dot_ok == exists|k: int| at_pos + 1 < k < j && k < n - 1 && s@[k] == '.',
        decreases n - j,
    {
        if j > at_pos + 1 && j + 1 < n && s.get_char(j) == '.' {
            dot_ok = true;
        }
        j += 1;
    }
    proof {
        if dot_ok {
            let p = at_pos as int;
            assert(1 <= p < s@.len() && s@[p] == '@');
            assert(exists|k: int| p + 1 < k < s@.len() - 1 && s@[k] == '.');
            assert(valid_email_spec(s@));
        } else {
            if valid_email_spec(s@) {
                let p = choose|p: int|
                    {
                        &&& 1 <= p < s@.len()
                        &&& s@[p] == '@'
                        &&& exists|j2: int| p + 1 < j2 < s@.len() - 1 && s@[j2] == '.'
                    };
                assert(p == at_pos as int);
                let k = choose|k: int| p + 1 < k < s@.len() - 1 && s@[k] == '.';
                assert(at_pos + 1 < k < n && k < n - 1 && s@[k] == '.');
                assert(false);
            }
        }
    }
    dot_ok
}

} // verus!
