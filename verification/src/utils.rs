//! Rendering addresses and transaction hashes as chat text: an address or
//! hash is abbreviated to an eight-character prefix wrapped in a link to
//! the network's dashboard or wallet proxy; which network is the caller's
//! choice.

use vstd::prelude::*;
use crate::types::{AccountAddress, Address};
use crate::decimal::{dec_str, u64_to_string};

verus! {

/// String equality against a fixed name.
pub(crate) fn str_is(s: &String, lit: &str) -> (r: bool)
    ensures
        r == (s@ == lit@),
{
    let l: String = lit.to_owned();
    *s == l
}

pub open spec fn spec_api_url(mainnet: bool) -> Seq<char> {
    if mainnet {
        "https://wallet-proxy.mainnet.concordium.software/v0"@
    } else {
        "https://wallet-proxy.testnet.concordium.com/v0"@
    }
}

pub open spec fn spec_dashboard_url(mainnet: bool) -> Seq<char> {
    if mainnet {
        "http://dashboard.mainnet.concordium.software"@
    } else {
        "https://dashboard.testnet.concordium.com"@
    }
}

fn api_url(mainnet: bool) -> (r: &'static str)
    ensures
        r@ == spec_api_url(mainnet),
{
    if mainnet {
        "https://wallet-proxy.mainnet.concordium.software/v0"
    } else {
        "https://wallet-proxy.testnet.concordium.com/v0"
    }
}

fn dashboard_url(mainnet: bool) -> (r: &'static str)
    ensures
        r@ == spec_dashboard_url(mainnet),
{
    if mainnet {
        "http://dashboard.mainnet.concordium.software"
    } else {
        "https://dashboard.testnet.concordium.com"
    }
}

/// An account address as chat text: a link to its balance, the link text
/// being an optional person emoji and the first eight characters.
pub open spec fn spec_format_account_address(
    addr: Seq<char>,
    with_emoji: bool,
    mainnet: bool,
) -> Seq<char> {
    "<a href=\""@ + spec_api_url(mainnet) + "/accBalance/"@ + addr + "\">"@ + (if with_emoji {
        "\u{1f464}"@
    } else {
        Seq::<char>::empty()
    }) + addr.subrange(0, 8) + "</a>"@
}

pub fn format_account_address(account: &AccountAddress, with_emoji: bool, mainnet: bool) -> (r:
    String)
    requires
        account@.len() >= 8,
    ensures
        r@ == spec_format_account_address(account@, with_emoji, mainnet),
{
    let addr = account.address();
    let prefix = addr.substring_char(0, 8);
    let mut r = String::from_str("<a href=\"");
    r.append(api_url(mainnet));
    r.append("/accBalance/");
    r.append(addr);
    r.append("\">");
    if with_emoji {
        r.append("\u{1f464}");
    }
    r.append(prefix);
    r.append("</a>");
    proof {
        assert(r@ =~= spec_format_account_address(account@, with_emoji, mainnet));
    }
    r
}

/// A transfer endpoint as chat text: a linked account address with emoji,
/// or a contract's emoji with its index pair.
pub open spec fn spec_format_address(address: Address, mainnet: bool) -> Seq<char> {
    match address {
        Address::Account(a) => spec_format_account_address(a@, true, mainnet),
        Address::Contract(c) => "\u{1f4dd}&lt;"@ + dec_str(c.index as nat) + ","@ + dec_str(
            c.subindex as nat,
        ) + "&gt;"@,
    }
}

pub fn format_address(address: &Address, mainnet: bool) -> (r: String)
    requires
        address matches Address::Account(a) ==> a@.len() >= 8,
    ensures
        r@ == spec_format_address(*address, mainnet),
{
    match address {
        Address::Account(a) => format_account_address(a, true, mainnet),
        Address::Contract(c) => {
            let mut r = String::from_str("\u{1f4dd}&lt;");
            r.append(u64_to_string(c.index).as_str());
            r.append(",");
            r.append(u64_to_string(c.subindex).as_str());
            r.append("&gt;");
            proof {
                assert(r@ =~= spec_format_address(*address, mainnet));
            }
            r
        },
    }
}

/// A transaction hash as chat text: a link to its dashboard lookup, the
/// link text being the first eight characters.
pub open spec fn spec_format_txhash(hash: Seq<char>, mainnet: bool) -> Seq<char> {
    "<a href=\""@ + spec_dashboard_url(mainnet) + "/lookup/"@ + hash + "\">"@ + hash.subrange(0, 8)
        + "</a>"@
}

pub fn format_txhash(hash: &str, mainnet: bool) -> (r: String)
    requires
        hash@.len() >= 8,
    ensures
        r@ == spec_format_txhash(hash@, mainnet),
{
    let prefix = hash.substring_char(0, 8);
    let mut r = String::from_str("<a href=\"");
    r.append(dashboard_url(mainnet));
    r.append("/lookup/");
    r.append(hash);
    r.append("\">");
    r.append(prefix);
    r.append("</a>");
    proof {
        assert(r@ =~= spec_format_txhash(hash@, mainnet));
    }
    r
}

} // verus!
