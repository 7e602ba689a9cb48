//! Account addresses, held in their normalized form: the base58check
//! rendering (version byte 1) of the 32 address bytes.

use vstd::prelude::*;
use crate::encodings::{b58check_decode, b58check_decode_of, b58check_encode, b58check_of};

verus! {

/// The error of reading an account address out of a string.
#[derive(Debug, PartialEq, Eq, Structural)]
pub struct ParseAccountAddressError;

/// An account address as its base58check text.
#[derive(Debug)]
pub struct AccountAddress(pub String);

impl View for AccountAddress {
    type V = Seq<char>;

    open spec fn view(&self) -> Seq<char> {
        self.0@
    }
}

/// A string is a well-formed account address when it base58check-decodes
/// under version byte 1 to exactly 32 bytes. The length bound keeps the
/// decoder inside its working range; every well-formed address is far
/// shorter.
pub open spec fn valid_address_str(s: Seq<char>) -> bool {
    s.len() <= 132 && match b58check_decode_of(s) {
        Some((version, bytes)) => version == 1 && bytes.len() == 32,
        None => false,
    }
}

impl PartialEq for AccountAddress {
    fn eq(&self, other: &Self) -> (r: bool) {
        self.0 == other.0
    }
}

impl vstd::std_specs::cmp::PartialEqSpecImpl for AccountAddress {
    open spec fn obeys_eq_spec() -> bool {
        true
    }

    open spec fn eq_spec(&self, other: &Self) -> bool {
        self.0@ == other.0@
    }
}

impl Clone for AccountAddress {
    fn clone(&self) -> (r: Self)
        ensures
            r@ == self@,
    {
        AccountAddress(self.0.clone())
    }
}

impl AccountAddress {
    pub fn new(address: String) -> (r: Self)
        ensures
            r == AccountAddress(address),
            r@ == address@,
    {
        Self(address)
    }

    pub fn address(&self) -> (r: &str)
        ensures
            r@ == self@,
    {
        self.0.as_str()
    }

    /// The 32 address bytes, for an address known to be well-formed.
    pub fn to_bytes(&self) -> (r: Vec<u8>)
        requires
            valid_address_str(self@),
        ensures
            Some((1u8, r@)) == b58check_decode_of(self@),
            r@.len() == 32,
    {
        let decoded = b58check_decode(self.0.as_str());
        match decoded {
            Some((_, bytes)) => bytes,
            None => {
                proof {
                    assert(false);
                }
                Vec::new()
            },
        }
    }

    /// The address bytes of any string: the bytes when it is a well-formed
    /// address, nothing otherwise.
    pub fn try_to_bytes(&self) -> (r: Option<Vec<u8>>)
        ensures
            (match r {
                Some(b) => valid_address_str(self@) && Some((1u8, b@)) == b58check_decode_of(
                    self@,
                ),
                None => !valid_address_str(self@),
            }),
    {
        if self.0.as_str().unicode_len() > 132 {
            return None;
        }
        match b58check_decode(self.0.as_str()) {
            Some((version, bytes)) => {
                if version == 1 && bytes.len() == 32 {
                    Some(self.to_bytes())
                } else {
                    None
                }
            },
            None => None,
        }
    }

    /// The normalized address of 32 raw bytes.
    pub fn from_bytes(bytes: &Vec<u8>) -> (r: Self)
        requires
            bytes@.len() == 32,
        ensures
            r@ == b58check_of(1, bytes@),
    {
        AccountAddress(b58check_encode(bytes, 1))
    }

    /// Reads an address out of a string: accepted exactly when it is the
    /// base58check text, under version byte 1, of 32 bytes.
    pub fn from_str(s: &str) -> (r: Result<Self, ParseAccountAddressError>)
        ensures
            (match r {
                Ok(a) => valid_address_str(s@) && a@ == s@,
                Err(_) => !valid_address_str(s@),
            }),
    {
        if s.unicode_len() > 132 {
            return Err(ParseAccountAddressError);
        }
        match b58check_decode(s) {
            Some((version, bytes)) => {
                if version == 1 && bytes.len() == 32 {
                    Ok(AccountAddress(s.to_owned()))
                } else {
                    Err(ParseAccountAddressError)
                }
            },
            None => Err(ParseAccountAddressError),
        }
    }
}

} // verus!
