//! Decimal text for the integer values the relay handles: rendering an
//! unsigned number as digits and reading digits back, the base of amount
//! formatting and of payload parsing.

use vstd::prelude::*;

verus! {

/// The digit character of `d`, for `d < 10`.
pub open spec fn digit_char(d: nat) -> char {
    if d == 0 {
        '0'
    } else if d == 1 {
        '1'
    } else if d == 2 {
        '2'
    } else if d == 3 {
        '3'
    } else if d == 4 {
        '4'
    } else if d == 5 {
        '5'
    } else if d == 6 {
        '6'
    } else if d == 7 {
        '7'
    } else if d == 8 {
        '8'
    } else {
        '9'
    }
}

/// The decimal rendering of `n`, without sign and without leading zeros
/// (except for `n == 0`, rendered as "0").
pub open spec fn dec_str(n: nat) -> Seq<char>
    decreases n,
{
    if n < 10 {
        seq![digit_char(n)]
    } else {
        dec_str(n / 10).push(digit_char(n % 10))
    }
}

pub open spec fn is_dec_digit(c: char) -> bool {
    '0' <= c && c <= '9'
}

pub open spec fn digit_val(c: char) -> nat {
    (c as nat - '0' as nat) as nat
}

/// The value of a digit string, most significant digit first.
pub open spec fn dec_val(s: Seq<char>) -> nat
    decreases s.len(),
{
    if s.len() == 0 {
        0
    } else {
        dec_val(s.drop_last()) * 10 + digit_val(s.last())
    }
}

/// A non-empty string of decimal digits.
pub open spec fn is_dec_string(s: Seq<char>) -> bool {
    s.len() > 0 && forall|i: int| 0 <= i < s.len() ==> is_dec_digit(#[trigger] s[i])
}

/// What reading an unsigned number out of `s` yields: the value of the
/// digits, provided `s` is all digits and the value fits in a `u64`.
pub open spec fn parse_u64(s: Seq<char>) -> Option<u64> {
    if is_dec_string(s) && dec_val(s) <= u64::MAX {
        Some(dec_val(s) as u64)
    } else {
        None
    }
}

/// What reading a signed number out of `s` yields: an optional leading minus
/// sign, then digits, the magnitude within the `i64` range.
pub open spec fn parse_i64(s: Seq<char>) -> Option<i64> {
    if s.len() > 0 && s[0] == '-' {
        let rest = s.subrange(1, s.len() as int);
        if is_dec_string(rest) && dec_val(rest) <= i64::MAX as nat + 1 {
            Some((-(dec_val(rest) as int)) as i64)
        } else {
            None
        }
    } else {
        if is_dec_string(s) && dec_val(s) <= i64::MAX as nat {
            Some(dec_val(s) as i64)
        } else {
            None
        }
    }
}

fn digit_str(d: u64) -> (r: &'static str)
    requires
        d < 10,
    ensures
        r@ =~= seq![digit_char(d as nat)],
{
    proof {
        reveal_strlit("0");
        reveal_strlit("1");
        reveal_strlit("2");
        reveal_strlit("3");
        reveal_strlit("4");
        reveal_strlit("5");
        reveal_strlit("6");
        reveal_strlit("7");
        reveal_strlit("8");
        reveal_strlit("9");
    }
    if d == 0 {
        "0"
    } else if d == 1 {
        "1"
    } else if d == 2 {
        "2"
    } else if d == 3 {
        "3"
    } else if d == 4 {
        "4"
    } else if d == 5 {
        "5"
    } else if d == 6 {
        "6"
    } else if d == 7 {
        "7"
    } else if d == 8 {
        "8"
    } else {
        "9"
    }
}

/// Renders `n` in decimal.
pub fn u64_to_string(n: u64) -> (r: String)
    ensures
        r@ == dec_str(n as nat),
    decreases n,
{
    if n < 10 {
        let r = String::from_str(digit_str(n));
        proof {
            assert(r@ =~= dec_str(n as nat));
        }
        r
    } else {
        let q = u64_to_string(n / 10);
        let r = q.concat(digit_str(n % 10));
        proof {
            assert(r@ =~= dec_str(n as nat));
        }
        r
    }
}

/// Reads an unsigned decimal number: all of `s` must be digits and the value
/// must fit in a `u64`.
pub fn parse_u64_str(s: &str) -> (r: Option<u64>)
    ensures
        r == parse_u64(s@),
{
    let n = s.unicode_len();
    if n == 0 {
        return None;
    }
    let mut acc: u64 = 0;
    let mut i: usize = 0;
    while i < n
        invariant
            0 < n == s@.len(),
            0 <= i <= n,
            forall|k: int| 0 <= k < i ==> is_dec_digit(#[trigger] s@[k]),
            acc == dec_val(s@.subrange(0, i as int)),
        decreases n - i,
    {
        let c = s.get_char(i);
        let cv = c as u32;
        if cv < 48 || cv > 57 {
            assert(!is_dec_digit(s@[i as int]));
            return None;
        }
        let d = (cv - 48) as u64;
        assert(is_dec_digit(s@[i as int]) && d == digit_val(s@[i as int]));
        let acc10 = match acc.checked_mul(10) {
            Some(v) => v,
            None => {
                proof {
                    lemma_dec_val_grows(s@, i as int);
                }
                return None;
            },
        };
        acc = match acc10.checked_add(d) {
            Some(v) => v,
            None => {
                proof {
                    lemma_dec_val_grows(s@, i as int);
                }
                return None;
            },
        };
        proof {
            assert(s@.subrange(0, i + 1).drop_last() =~= s@.subrange(0, i as int));
            assert(s@.subrange(0, i + 1).last() == s@[i as int]);
        }
        i = i + 1;
    }
    proof {
        assert(s@.subrange(0, n as int) =~= s@);
    }
    Some(acc)
}

/// If a prefix of a digit string already overflows, the whole does.
proof fn lemma_dec_val_grows(s: Seq<char>, i: int)
    requires
        0 <= i < s.len(),
    ensures
        dec_val(s) >= dec_val(s.subrange(0, i)) * 10 + digit_val(s[i]),
    decreases s.len() - i,
{
    if i == s.len() - 1 {
        assert(s.drop_last() =~= s.subrange(0, i));
        assert(s.last() == s[i]);
    } else {
        lemma_dec_val_grows(s.drop_last(), i);
        assert(s.drop_last().subrange(0, i) =~= s.subrange(0, i));
        assert(s.drop_last()[i] == s[i]);
        assert(dec_val(s) == dec_val(s.drop_last()) * 10 + digit_val(s.last()));
    }
}

/// Reads a signed decimal number: an optional leading minus sign, then
/// digits, the value within the `i64` range.
pub fn parse_i64_str(s: &str) -> (r: Option<i64>)
    ensures
        r == parse_i64(s@),
{
    let n = s.unicode_len();
    if n == 0 {
        return None;
    }
    let c0 = s.get_char(0);
    if c0 == '-' {
        let rest = s.substring_char(1, n);
        match parse_u64_str(rest) {
            Some(v) => {
                if v <= 0x8000_0000_0000_0000u64 {
                    let r = if v == 0x8000_0000_0000_0000u64 {
                        i64::MIN
                    } else {
                        -(v as i64)
                    };
                    Some(r)
                } else {
                    None
                }
            },
            None => {
                proof {
                    if is_dec_string(rest@) && dec_val(rest@) <= i64::MAX as nat + 1 {
                        assert(dec_val(rest@) <= u64::MAX);
                    }
                }
                None
            },
        }
    } else {
        match parse_u64_str(s) {
            Some(v) => {
                if v <= i64::MAX as u64 {
                    Some(v as i64)
                } else {
                    None
                }
            },
            None => {
                proof {
                    if is_dec_string(s@) && dec_val(s@) <= i64::MAX as nat {
                        assert(dec_val(s@) <= u64::MAX);
                    }
                }
                None
            },
        }
    }
}

} // verus!
