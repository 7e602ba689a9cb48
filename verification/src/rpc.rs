//! Reading the node RPC's answers. The round trips themselves live outside
//! the library; what comes back is JSON text, and picking the best block
//! and the account amount out of it, and rendering the balance reply, is
//! logic of this crate.

use vstd::prelude::*;
use crate::json::{Json, json_get};
use crate::types::Amount;
use crate::types::amount::{amount_text, spec_parse_amount};

verus! {

/// The best block named by a consensus-status document.
pub open spec fn spec_best_block(j: Json) -> Option<String> {
    match json_get(j, "bestBlock"@) {
        Some(Json::Str(s)) => Some(s),
        _ => None,
    }
}

pub fn best_block_of(j: &Json) -> (r: Option<String>)
    ensures
        r == spec_best_block(*j),
{
    match j.get("bestBlock") {
        Some(v) => match v {
            Json::Str(s) => Some(s.clone()),
            _ => None,
        },
        None => None,
    }
}

/// The account amount named by an account-info document; an account that
/// the node does not know yields nothing.
pub open spec fn spec_account_amount(j: Json) -> Option<String> {
    match j {
        Json::Obj(_) => match json_get(j, "accountAmount"@) {
            Some(Json::Str(s)) => Some(s),
            _ => None,
        },
        _ => None,
    }
}

pub fn account_amount_of(j: &Json) -> (r: Option<String>)
    ensures
        r == spec_account_amount(*j),
{
    if !j.is_object() {
        return None;
    }
    match j.get("accountAmount") {
        Some(v) => match v {
            Json::Str(s) => Some(s.clone()),
            _ => None,
        },
        None => None,
    }
}

/// The balance reply for a fetched amount: the amount in CCD, when the
/// string is a well-formed micro-CCD integer.
pub open spec fn spec_balance_reply(s: Seq<char>) -> Option<Seq<char>> {
    match spec_parse_amount(s) {
        Some(a) => Some(amount_text(a.0 as nat) + " CCD"@),
        None => None,
    }
}

pub fn balance_reply(amount: &str) -> (r: Option<String>)
    ensures
        (match r {
            Some(t) => spec_balance_reply(amount@) == Some(t@),
            None => spec_balance_reply(amount@) is None,
        }),
{
    match Amount::parse(amount) {
        Some(a) => {
            let mut t = a.to_text();
            t.append(" CCD");
            Some(t)
        },
        None => None,
    }
}

/// The reply when the node knows no such account.
pub fn balance_not_found_reply() -> (r: String)
    ensures
        r@ == "Account address not found"@,
{
    String::from_str("Account address not found")
}

} // verus!
