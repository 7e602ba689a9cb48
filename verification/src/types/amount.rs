//! CCD amounts. An amount is a count of micro-CCD; it renders as CCD with
//! six decimal places.

use vstd::prelude::*;
use crate::decimal::{dec_str, digit_char, parse_u64, u64_to_string, parse_u64_str};

verus! {

/// A CCD amount in micro-CCD.
#[derive(Clone, Copy, PartialEq, Eq, Structural, Debug)]
pub struct Amount(pub u64);

pub const MICRO_PER_CCD: u64 = 1000000;

/// `k` zero characters.
pub open spec fn zeros(k: nat) -> Seq<char> {
    Seq::new(k, |i: int| '0')
}

/// `s` left-padded with zeros to six characters.
pub open spec fn zero_pad6(s: Seq<char>) -> Seq<char> {
    if s.len() >= 6 {
        s
    } else {
        zeros((6 - s.len()) as nat) + s
    }
}

/// The rendering of `micro` micro-CCD as CCD: the whole part, a dot, and
/// exactly six fraction digits.
pub open spec fn amount_text(micro: nat) -> Seq<char> {
    dec_str(micro / (MICRO_PER_CCD as nat)) + seq!['.'] + zero_pad6(
        dec_str(micro % (MICRO_PER_CCD as nat)),
    )
}

/// What parsing an amount out of a string yields: the amount is written as a
/// plain micro-CCD integer.
pub open spec fn spec_parse_amount(s: Seq<char>) -> Option<Amount> {
    match parse_u64(s) {
        Some(v) => Some(Amount(v)),
        None => None,
    }
}

pub open spec fn pow10(k: nat) -> nat
    decreases k,
{
    if k == 0 {
        1
    } else {
        10 * pow10((k - 1) as nat)
    }
}

proof fn lemma_dec_str_len_le(n: nat, k: nat)
    requires
        k >= 1,
        n < pow10(k),
    ensures
        dec_str(n).len() <= k,
    decreases k,
{
    if n < 10 {
    } else {
        assert(pow10(k) == 10 * pow10((k - 1) as nat));
        lemma_dec_str_len_le(n / 10, (k - 1) as nat);
    }
}

fn pad_to_six(len: usize) -> (r: &'static str)
    requires
        1 <= len <= 6,
    ensures
        r@ =~= zeros((6 - len) as nat),
{
    proof {
        reveal_strlit("00000");
        reveal_strlit("0000");
        reveal_strlit("000");
        reveal_strlit("00");
        reveal_strlit("0");
        reveal_strlit("");
    }
    if len == 1 {
        "00000"
    } else if len == 2 {
        "0000"
    } else if len == 3 {
        "000"
    } else if len == 4 {
        "00"
    } else if len == 5 {
        "0"
    } else {
        ""
    }
}

impl Amount {
    /// Reads an amount written as a plain micro-CCD integer, as the chain
    /// encodes amounts inside summaries.
    pub fn parse(s: &str) -> (r: Option<Amount>)
        ensures
            r == spec_parse_amount(s@),
    {
        match parse_u64_str(s) {
            Some(v) => Some(Amount(v)),
            None => None,
        }
    }

    /// Renders the amount as CCD with six decimal places: `1000000`
    /// micro-CCD is `1.000000`.
    pub fn to_text(&self) -> (r: String)
        ensures
            r@ == amount_text(self.0 as nat),
    {
        let whole = u64_to_string(self.0 / MICRO_PER_CCD);
        let frac = self.0 % MICRO_PER_CCD;
        let frac_str = u64_to_string(frac);
        let flen = frac_str.as_str().unicode_len();
        proof {
            assert(pow10(6) == 1000000) by {
                reveal_with_fuel(pow10, 7);
            }
            lemma_dec_str_len_le(frac as nat, 6);
        }
        let dot = whole.concat(".");
        let padded = dot.concat(pad_to_six(flen));
        let r = padded.concat(frac_str.as_str());
        proof {
            reveal_strlit(".");
            assert(r@ =~= amount_text(self.0 as nat));
        }
        r
    }
}

impl From<u64> for Amount {
    fn from(v: u64) -> (r: Amount) {
        Amount(v)
    }
}

impl vstd::std_specs::convert::FromSpecImpl<u64> for Amount {
    open spec fn obeys_from_spec() -> bool {
        true
    }

    open spec fn from_spec(v: u64) -> Amount {
        Amount(v)
    }
}

} // verus!
