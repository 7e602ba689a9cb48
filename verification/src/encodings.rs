//! Byte-string encodings the relay meets at its edges: base58check for
//! account addresses and hex for the raw address field of a change-feed
//! payload. The encoders themselves live in outside crates; their results
//! are pinned here, exactly where a few lines can state them, by name where
//! they cannot.

use vstd::prelude::*;
use base58check::{FromBase58Check, ToBase58Check};

verus! {

/// What base58check encoding of a payload under a version byte yields; the
/// result is a function of the version and the bytes alone.
pub uninterp spec fn b58check_of(version: u8, payload: Seq<u8>) -> Seq<char>;

/// What base58check decoding of a string yields: the version byte and the
/// payload when the string is well-formed with a sound checksum, nothing
/// otherwise; a function of the string alone.
pub uninterp spec fn b58check_decode_of(s: Seq<char>) -> Option<(u8, Seq<u8>)>;

/// Relies on base58check's `ToBase58Check` for `[u8]`: the encoding depends
/// on the version byte and the payload bytes alone. The underlying base58
/// encoder is written for short inputs, so the payload is kept small.
#[verifier::external_body]
pub(crate) fn b58check_encode(payload: &Vec<u8>, version: u8) -> (r: String)
    requires
        payload@.len() <= 64,
    ensures
        r@ == b58check_of(version, payload@),
{
    payload.as_slice().to_base58check(version)
}

/// Relies on base58check's `FromBase58Check` for `str`: decoding depends on
/// the string alone. Its base58 layer decodes into a 132-byte buffer and its
/// index arithmetic underflows beyond it, so longer inputs are kept out.
#[verifier::external_body]
pub(crate) fn b58check_decode(s: &str) -> (r: Option<(u8, Vec<u8>)>)
    requires
        s@.len() <= 132,
    ensures
        (match r {
            Some(vb) => b58check_decode_of(s@) == Some((vb.0, vb.1@)),
            None => b58check_decode_of(s@) is None,
        }),
{
    s.from_base58check().ok()
}

/// The value of one hex digit character.
pub open spec fn hex_digit_val(c: char) -> Option<u8> {
    if '0' <= c && c <= '9' {
        Some((c as u8 - '0' as u8) as u8)
    } else if 'a' <= c && c <= 'f' {
        Some((c as u8 - 'a' as u8 + 10) as u8)
    } else if 'A' <= c && c <= 'F' {
        Some((c as u8 - 'A' as u8 + 10) as u8)
    } else {
        None
    }
}

pub open spec fn is_hex_string(s: Seq<char>) -> bool {
    s.len() % 2 == 0 && forall|i: int| 0 <= i < s.len() ==> hex_digit_val(#[trigger] s[i]) is Some
}

/// The bytes an even-length hex-digit string spells, one byte per digit pair.
pub open spec fn hex_bytes(s: Seq<char>) -> Seq<u8>
    recommends
        is_hex_string(s),
{
    Seq::new((s.len() / 2) as nat, |i: int| {
        (hex_digit_val(s[2 * i])->Some_0 * 16 + hex_digit_val(s[2 * i + 1])->Some_0) as u8
    })
}

/// What decoding a hex string yields: its digit pairs as bytes when it has
/// even length and holds hex digits only, nothing otherwise.
pub open spec fn hex_decode(s: Seq<char>) -> Option<Seq<u8>> {
    if is_hex_string(s) {
        Some(hex_bytes(s))
    } else {
        None
    }
}

/// Relies on hex::decode: an even-length string of hex digits (either case)
/// decodes to the bytes its digit pairs spell; any other input is refused.
#[verifier::external_body]
pub(crate) fn hex_decode_str(s: &str) -> (r: Option<Vec<u8>>)
    ensures
        (match r {
            Some(b) => hex_decode(s@) == Some(b@),
            None => hex_decode(s@) is None,
        }),
{
    hex::decode(s).ok()
}

} // verus!
