//! Decoding block summaries out of parsed JSON trees into the event model.
//! The shape of the summary document is this crate's own knowledge: each
//! function reads one layer of the tree and says exactly which documents it
//! accepts. An unknown event tag decodes to `Event::Unhandled` instead of
//! failing the summary, so one exotic event cannot hide a relevant one.

use vstd::prelude::*;
use crate::json::{Json, json_get, json_of, parse_json};
use crate::types::{
    AccountAddress, Address, AddressWithAmount, Amount, AmountWithSchedule, BlockSummary,
    ContractAddress, Event, OutcomeKind, TransactionOutcome, TransactionSummaryType,
    TransactionType,
};
use crate::types::amount::spec_parse_amount;
use crate::utils::str_is;

verus! {

/// An amount in a summary is a micro-CCD integer written as a string.
pub open spec fn spec_decode_amount(j: Json) -> Option<Amount> {
    match j {
        Json::Str(s) => spec_parse_amount(s@),
        _ => None,
    }
}

pub fn decode_amount(j: &Json) -> (r: Option<Amount>)
    ensures
        r == spec_decode_amount(*j),
{
    match j {
        Json::Str(s) => Amount::parse(s.as_str()),
        _ => None,
    }
}

/// The transaction type names as the chain writes them.
pub open spec fn spec_decode_tx_type(j: Json) -> Option<TransactionType> {
    match j {
        Json::Str(s) => if s@ == "deployModule"@ {
            Some(TransactionType::DeployModule)
        } else if s@ == "initContract"@ {
            Some(TransactionType::InitContract)
        } else if s@ == "update"@ {
            Some(TransactionType::Update)
        } else if s@ == "transfer"@ {
            Some(TransactionType::Transfer)
        } else if s@ == "addBaker"@ {
            Some(TransactionType::AddBaker)
        } else if s@ == "removeBaker"@ {
            Some(TransactionType::RemoveBaker)
        } else if s@ == "updateBakerStake"@ {
            Some(TransactionType::UpdateBakerStake)
        } else if s@ == "updateBakerRestakeEarnings"@ {
            Some(TransactionType::UpdateBakerRestakeEarnings)
        } else if s@ == "updateBakerKeys"@ {
            Some(TransactionType::UpdateBakerKeys)
        } else if s@ == "updateCredentialKeys"@ {
            Some(TransactionType::UpdateCredentialKeys)
        } else if s@ == "encryptedAmountTransfer"@ {
            Some(TransactionType::EncryptedAmountTransfer)
        } else if s@ == "transferToEncrypted"@ {
            Some(TransactionType::TransferToEncrypted)
        } else if s@ == "transferToPublic"@ {
            Some(TransactionType::TransferToPublic)
        } else if s@ == "transferWithSchedule"@ {
            Some(TransactionType::TransferWithSchedule)
        } else if s@ == "updateCredentials"@ {
            Some(TransactionType::UpdateCredentials)
        } else if s@ == "registerData"@ {
            Some(TransactionType::RegisterData)
        } else if s@ == "transferWithMemo"@ {
            Some(TransactionType::TransferWithMemo)
        } else if s@ == "encryptedAmountTransferWithMemo"@ {
            Some(TransactionType::EncryptedAmountTransferWithMemo)
        } else if s@ == "transferWithScheduleAndMemo"@ {
            Some(TransactionType::TransferWithScheduleAndMemo)
        } else {
            None
        },
        _ => None,
    }
}

pub fn decode_tx_type(j: &Json) -> (r: Option<TransactionType>)
    ensures
        r == spec_decode_tx_type(*j),
{
    match j {
        Json::Str(s) => if str_is(s, "deployModule") {
            Some(TransactionType::DeployModule)
        } else if str_is(s, "initContract") {
            Some(TransactionType::InitContract)
        } else if str_is(s, "update") {
            Some(TransactionType::Update)
        } else if str_is(s, "transfer") {
            Some(TransactionType::Transfer)
        } else if str_is(s, "addBaker") {
            Some(TransactionType::AddBaker)
        } else if str_is(s, "removeBaker") {
            Some(TransactionType::RemoveBaker)
        } else if str_is(s, "updateBakerStake") {
            Some(TransactionType::UpdateBakerStake)
        } else if str_is(s, "updateBakerRestakeEarnings") {
            Some(TransactionType::UpdateBakerRestakeEarnings)
        } else if str_is(s, "updateBakerKeys") {
            Some(TransactionType::UpdateBakerKeys)
        } else if str_is(s, "updateCredentialKeys") {
            Some(TransactionType::UpdateCredentialKeys)
        } else if str_is(s, "encryptedAmountTransfer") {
            Some(TransactionType::EncryptedAmountTransfer)
        } else if str_is(s, "transferToEncrypted") {
            Some(TransactionType::TransferToEncrypted)
        } else if str_is(s, "transferToPublic") {
            Some(TransactionType::TransferToPublic)
        } else if str_is(s, "transferWithSchedule") {
            Some(TransactionType::TransferWithSchedule)
        } else if str_is(s, "updateCredentials") {
            Some(TransactionType::UpdateCredentials)
        } else if str_is(s, "registerData") {
            Some(TransactionType::RegisterData)
        } else if str_is(s, "transferWithMemo") {
            Some(TransactionType::TransferWithMemo)
        } else if str_is(s, "encryptedAmountTransferWithMemo") {
            Some(TransactionType::EncryptedAmountTransferWithMemo)
        } else if str_is(s, "transferWithScheduleAndMemo") {
            Some(TransactionType::TransferWithScheduleAndMemo)
        } else {
            None
        },
        _ => None,
    }
}

/// The transaction summary type: a tagged document with the variant under
/// `type` and, for an account transaction, the transaction type under
/// `contents`.
pub open spec fn spec_decode_summary_type(j: Json) -> Option<TransactionSummaryType> {
    match json_get(j, "type"@) {
        Some(Json::Str(t)) => if t@ == "accountTransaction"@ {
            match json_get(j, "contents"@) {
                Some(c) => match spec_decode_tx_type(c) {
                    Some(tt) => Some(TransactionSummaryType::AccountTransaction(tt)),
                    None => None,
                },
                None => None,
            }
        } else if t@ == "credentialDeploymentTransaction"@ {
            Some(TransactionSummaryType::CredentialDeploymentTransaction)
        } else if t@ == "updateTransaction"@ {
            Some(TransactionSummaryType::UpdateTransaction)
        } else {
            None
        },
        _ => None,
    }
}

pub fn decode_summary_type(j: &Json) -> (r: Option<TransactionSummaryType>)
    ensures
        r == spec_decode_summary_type(*j),
{
    match j.get("type") {
        Some(tj) => match tj {
            Json::Str(t) => if str_is(t, "accountTransaction") {
                match j.get("contents") {
                    Some(c) => match decode_tx_type(c) {
                        Some(tt) => Some(TransactionSummaryType::AccountTransaction(tt)),
                        None => None,
                    },
                    None => None,
                }
            } else if str_is(t, "credentialDeploymentTransaction") {
                Some(TransactionSummaryType::CredentialDeploymentTransaction)
            } else if str_is(t, "updateTransaction") {
                Some(TransactionSummaryType::UpdateTransaction)
            } else {
                None
            },
            _ => None,
        },
        None => None,
    }
}

/// A transfer endpoint: `{type: AddressAccount, address: <text>}` or
/// `{type: AddressContract, address: {index, subindex}}`.
pub open spec fn spec_decode_address(j: Json) -> Option<Address> {
    match json_get(j, "type"@) {
        Some(Json::Str(t)) => if t@ == "AddressAccount"@ {
            match json_get(j, "address"@) {
                Some(Json::Str(s)) => Some(Address::Account(AccountAddress(s))),
                _ => None,
            }
        } else if t@ == "AddressContract"@ {
            match json_get(j, "address"@) {
                Some(c) => match (json_get(c, "index"@), json_get(c, "subindex"@)) {
                    (Some(Json::UInt(ix)), Some(Json::UInt(sub))) => Some(
                        Address::Contract(ContractAddress { index: ix, subindex: sub }),
                    ),
                    _ => None,
                },
                None => None,
            }
        } else {
            None
        },
        _ => None,
    }
}

pub fn decode_address(j: &Json) -> (r: Option<Address>)
    ensures
        r == spec_decode_address(*j),
{
    match j.get("type") {
        Some(tj) => match tj {
            Json::Str(t) => if str_is(t, "AddressAccount") {
                match j.get("address") {
                    Some(aj) => match aj {
                        Json::Str(s) => Some(Address::Account(AccountAddress(s.clone()))),
                        _ => None,
                    },
                    None => None,
                }
            } else if str_is(t, "AddressContract") {
                match j.get("address") {
                    Some(c) => {
                        let ix = match c.get("index") {
                            Some(v) => v.as_u64(),
                            None => None,
                        };
                        let sub = match c.get("subindex") {
                            Some(v) => v.as_u64(),
                            None => None,
                        };
                        match (ix, sub) {
                            (Some(ix), Some(sub)) => Some(
                                Address::Contract(ContractAddress { index: ix, subindex: sub }),
                            ),
                            _ => None,
                        }
                    },
                    None => None,
                }
            } else {
                None
            },
            _ => None,
        },
        None => None,
    }
}

/// One schedule tranche: a `[release_time, "amount"]` pair.
pub open spec fn spec_decode_schedule_entry(j: Json) -> Option<(u64, String)> {
    match j {
        Json::Arr(pair) => if pair@.len() == 2 {
            match (pair@[0], pair@[1]) {
                (Json::UInt(t), Json::Str(s)) => Some((t, s)),
                _ => None,
            }
        } else {
            None
        },
        _ => None,
    }
}

pub fn decode_schedule_entry(j: &Json) -> (r: Option<(u64, String)>)
    ensures
        r == spec_decode_schedule_entry(*j),
{
    match j {
        Json::Arr(pair) => {
            if pair.len() != 2 {
                return None;
            }
            let t = match pair[0].as_u64() {
                Some(t) => t,
                None => {
                    return None;
                },
            };
            match &pair[1] {
                Json::Str(s) => Some((t, s.clone())),
                _ => None,
            }
        },
        _ => None,
    }
}

/// A whole release schedule decodes when every element is a tranche pair.
pub open spec fn schedule_decodable(j: Json) -> bool {
    match j {
        Json::Arr(items) => forall|i: int|
            0 <= i < items@.len() ==> spec_decode_schedule_entry(#[trigger] items@[i]) is Some,
        _ => false,
    }
}

pub fn decode_schedule(j: &Json) -> (r: Option<AmountWithSchedule>)
    ensures
        (match r {
            Some(sch) => {
                &&& schedule_decodable(*j)
                &&& *j matches Json::Arr(items) && sch.0@.len() == items@.len() && forall|i: int|
                    0 <= i < items@.len() ==> Some(#[trigger] sch.0@[i])
                        == spec_decode_schedule_entry(items@[i])
            },
            None => !schedule_decodable(*j),
        }),
{
    match j {
        Json::Arr(items) => {
            let n = items.len();
            let mut out: Vec<(u64, String)> = Vec::new();
            let mut i: usize = 0;
            while i < n
                invariant
                    *j == Json::Arr(*items),
                    n == items@.len(),
                    0 <= i <= n,
                    out@.len() == i,
                    forall|k: int|
                        0 <= k < i ==> Some(#[trigger] out@[k]) == spec_decode_schedule_entry(
                            items@[k],
                        ),
                decreases n - i,
            {
                match decode_schedule_entry(&items[i]) {
                    Some(e) => {
                        out.push(e);
                    },
                    None => {
                        return None;
                    },
                }
                i = i + 1;
            }
            proof {
                assert forall|k: int|
                    0 <= k < items@.len() implies spec_decode_schedule_entry(
                    #[trigger] items@[k],
                ) is Some by {
                    assert(Some(out@[k]) == spec_decode_schedule_entry(items@[k]));
                }
            }
            Some(AmountWithSchedule(out))
        },
        _ => None,
    }
}

/// One baker reward: `{address: <text>, amount: "<micro>"}`.
pub open spec fn spec_decode_address_with_amount(j: Json) -> Option<AddressWithAmount> {
    match (json_get(j, "address"@), json_get(j, "amount"@)) {
        (Some(Json::Str(s)), Some(aj)) => match spec_decode_amount(aj) {
            Some(a) => Some(AddressWithAmount { address: s, amount: a }),
            None => None,
        },
        _ => None,
    }
}

pub fn decode_address_with_amount(j: &Json) -> (r: Option<AddressWithAmount>)
    ensures
        r == spec_decode_address_with_amount(*j),
{
    let sj = match j.get("address") {
        Some(v) => v,
        None => {
            return None;
        },
    };
    let aj = match j.get("amount") {
        Some(v) => v,
        None => {
            return None;
        },
    };
    match sj {
        Json::Str(s) => match decode_amount(aj) {
            Some(a) => Some(AddressWithAmount { address: s.clone(), amount: a }),
            None => None,
        },
        _ => None,
    }
}

/// A release schedule document and a decoded schedule agree tranche by
/// tranche.
pub open spec fn is_schedule(j: Json, sch: AmountWithSchedule) -> bool {
    match j {
        Json::Arr(items) => sch.0@.len() == items@.len() && forall|i: int|
            0 <= i < items@.len() ==> Some(#[trigger] sch.0@[i]) == spec_decode_schedule_entry(
                items@[i],
            ),
        _ => false,
    }
}

/// An event document decodes when it carries a string `tag` and, for the
/// payload-bearing tags, well-formed fields. Any unknown string tag decodes
/// (to `Unhandled`).
pub open spec fn event_decodable(j: Json) -> bool {
    match json_get(j, "tag"@) {
        Some(Json::Str(t)) => if t@ == "Transferred"@ {
            match (json_get(j, "from"@), json_get(j, "to"@), json_get(j, "amount"@)) {
                (Some(fj), Some(tj), Some(aj)) => spec_decode_address(fj) is Some
                    && spec_decode_address(tj) is Some && spec_decode_amount(aj) is Some,
                _ => false,
            }
        } else if t@ == "TransferredWithSchedule"@ {
            match (json_get(j, "from"@), json_get(j, "to"@), json_get(j, "amount"@)) {
                (Some(fj), Some(tj), Some(aj)) => spec_decode_address(fj) is Some
                    && spec_decode_address(tj) is Some && schedule_decodable(aj),
                _ => false,
            }
        } else if t@ == "TransferMemo"@ {
            match json_get(j, "memo"@) {
                Some(Json::Str(_)) => true,
                _ => false,
            }
        } else {
            true
        },
        _ => false,
    }
}

/// The name of each inert event tag, as the chain writes it.
pub open spec fn inert_event_of_tag(t: Seq<char>) -> Option<Event> {
    if t == "ModuleDeployed"@ {
        Some(Event::ModuleDeployed)
    } else if t == "ContractInitialized"@ {
        Some(Event::ContractInitialized)
    } else if t == "Updated"@ {
        Some(Event::Updated)
    } else if t == "AccountCreated"@ {
        Some(Event::AccountCreated)
    } else if t == "CredentialDeployed"@ {
        Some(Event::CredentialDeployed)
    } else if t == "BakerAdded"@ {
        Some(Event::BakerAdded)
    } else if t == "BakerRemoved"@ {
        Some(Event::BakerRemoved)
    } else if t == "BakerStakeIncreased"@ {
        Some(Event::BakerStakeIncreased)
    } else if t == "BakerStakeDecreased"@ {
        Some(Event::BakerStakeDecreased)
    } else if t == "BakerSetRestakeEarnings"@ {
        Some(Event::BakerSetRestakeEarnings)
    } else if t == "BakerKeysUpdated"@ {
        Some(Event::BakerKeysUpdated)
    } else if t == "CredentialKeysUpdated"@ {
        Some(Event::CredentialKeysUpdated)
    } else if t == "NewEncryptedAmount"@ {
        Some(Event::NewEncryptedAmount)
    } else if t == "EncryptedAmountsRemoved"@ {
        Some(Event::EncryptedAmountsRemoved)
    } else if t == "AmountAddedByDecryption"@ {
        Some(Event::AmountAddedByDecryption)
    } else if t == "EncryptedSelfAmountAdded"@ {
        Some(Event::EncryptedSelfAmountAdded)
    } else if t == "UpdateEnqueued"@ {
        Some(Event::UpdateEnqueued)
    } else if t == "CredentialsUpdated"@ {
        Some(Event::CredentialsUpdated)
    } else if t == "DataRegistered"@ {
        Some(Event::DataRegistered)
    } else {
        None
    }
}

/// An event document and a decoded event agree: the payload-bearing tags
/// carry their fields, the inert tags their variant, and any other string
/// tag is `Unhandled`.
pub open spec fn is_event(j: Json, e: Event) -> bool {
    match json_get(j, "tag"@) {
        Some(Json::Str(t)) => if t@ == "Transferred"@ {
            &&& e matches Event::Transferred { from, to, amount }
            &&& match (json_get(j, "from"@), json_get(j, "to"@), json_get(j, "amount"@)) {
                (Some(fj), Some(tj), Some(aj)) => {
                    &&& Some(e->Transferred_from) == spec_decode_address(fj)
                    &&& Some(e->Transferred_to) == spec_decode_address(tj)
                    &&& Some(e->Transferred_amount) == spec_decode_amount(aj)
                },
                _ => false,
            }
        } else if t@ == "TransferredWithSchedule"@ {
            &&& e matches Event::TransferredWithSchedule { from, to, amount }
            &&& match (json_get(j, "from"@), json_get(j, "to"@), json_get(j, "amount"@)) {
                (Some(fj), Some(tj), Some(aj)) => {
                    &&& Some(e->TransferredWithSchedule_from) == spec_decode_address(fj)
                    &&& Some(e->TransferredWithSchedule_to) == spec_decode_address(tj)
                    &&& is_schedule(aj, e->TransferredWithSchedule_amount)
                },
                _ => false,
            }
        } else if t@ == "TransferMemo"@ {
            match json_get(j, "memo"@) {
                Some(Json::Str(m)) => e == (Event::TransferMemo { memo: m }),
                _ => false,
            }
        } else {
            match inert_event_of_tag(t@) {
                Some(ie) => e == ie,
                None => e == Event::Unhandled,
            }
        },
        _ => false,
    }
}

/// The inert event of a tag, for the executable decoder.
fn inert_event_for(t: &String) -> (r: Option<Event>)
    ensures
        r == inert_event_of_tag(t@),
{
    if str_is(t, "ModuleDeployed") {
        Some(Event::ModuleDeployed)
    } else if str_is(t, "ContractInitialized") {
        Some(Event::ContractInitialized)
    } else if str_is(t, "Updated") {
        Some(Event::Updated)
    } else if str_is(t, "AccountCreated") {
        Some(Event::AccountCreated)
    } else if str_is(t, "CredentialDeployed") {
        Some(Event::CredentialDeployed)
    } else if str_is(t, "BakerAdded") {
        Some(Event::BakerAdded)
    } else if str_is(t, "BakerRemoved") {
        Some(Event::BakerRemoved)
    } else if str_is(t, "BakerStakeIncreased") {
        Some(Event::BakerStakeIncreased)
    } else if str_is(t, "BakerStakeDecreased") {
        Some(Event::BakerStakeDecreased)
    } else if str_is(t, "BakerSetRestakeEarnings") {
        Some(Event::BakerSetRestakeEarnings)
    } else if str_is(t, "BakerKeysUpdated") {
        Some(Event::BakerKeysUpdated)
    } else if str_is(t, "CredentialKeysUpdated") {
        Some(Event::CredentialKeysUpdated)
    } else if str_is(t, "NewEncryptedAmount") {
        Some(Event::NewEncryptedAmount)
    } else if str_is(t, "EncryptedAmountsRemoved") {
        Some(Event::EncryptedAmountsRemoved)
    } else if str_is(t, "AmountAddedByDecryption") {
        Some(Event::AmountAddedByDecryption)
    } else if str_is(t, "EncryptedSelfAmountAdded") {
        Some(Event::EncryptedSelfAmountAdded)
    } else if str_is(t, "UpdateEnqueued") {
        Some(Event::UpdateEnqueued)
    } else if str_is(t, "CredentialsUpdated") {
        Some(Event::CredentialsUpdated)
    } else if str_is(t, "DataRegistered") {
        Some(Event::DataRegistered)
    } else {
        None
    }
}

pub fn decode_event(j: &Json) -> (r: Option<Event>)
    ensures
        (match r {
            Some(e) => is_event(*j, e) && event_decodable(*j),
            None => !event_decodable(*j),
        }),
{
    let tj = match j.get("tag") {
        Some(v) => v,
        None => {
            return None;
        },
    };
    let t = match tj {
        Json::Str(t) => t,
        _ => {
            return None;
        },
    };
    if str_is(t, "Transferred") {
        let fj = match j.get("from") {
            Some(v) => v,
            None => {
                return None;
            },
        };
        let toj = match j.get("to") {
            Some(v) => v,
            None => {
                return None;
            },
        };
        let aj = match j.get("amount") {
            Some(v) => v,
            None => {
                return None;
            },
        };
        match (decode_address(fj), decode_address(toj), decode_amount(aj)) {
            (Some(from), Some(to), Some(amount)) => Some(Event::Transferred { from, to, amount }),
            _ => None,
        }
    } else if str_is(t, "TransferredWithSchedule") {
        let fj = match j.get("from") {
            Some(v) => v,
            None => {
                return None;
            },
        };
        let toj = match j.get("to") {
            Some(v) => v,
            None => {
                return None;
            },
        };
        let aj = match j.get("amount") {
            Some(v) => v,
            None => {
                return None;
            },
        };
        match (decode_address(fj), decode_address(toj), decode_schedule(aj)) {
            (Some(from), Some(to), Some(amount)) => Some(
                Event::TransferredWithSchedule { from, to, amount },
            ),
            _ => None,
        }
    } else if str_is(t, "TransferMemo") {
        match j.get("memo") {
            Some(mj) => match mj {
                Json::Str(m) => Some(Event::TransferMemo { memo: m.clone() }),
                _ => None,
            },
            None => None,
        }
    } else {
        match inert_event_for(t) {
            Some(e) => Some(e),
            None => Some(Event::Unhandled),
        }
    }
}

/// Every element of an event list decodes.
pub open spec fn event_items_decodable(items: Seq<Json>) -> bool {
    forall|i: int| 0 <= i < items.len() ==> event_decodable(#[trigger] items[i])
}

/// An event list document decodes when every element does.
pub open spec fn events_decodable(j: Json) -> bool {
    match j {
        Json::Arr(items) => event_items_decodable(items@),
        _ => false,
    }
}

/// An event list document and decoded events agree element by element.
pub open spec fn is_events(j: Json, evs: Seq<Event>) -> bool {
    match j {
        Json::Arr(items) => evs.len() == items@.len() && forall|i: int|
            0 <= i < items@.len() ==> is_event(#[trigger] items@[i], evs[i]),
        _ => false,
    }
}

#[verifier::rlimit(30)]
pub fn decode_events(j: &Json) -> (r: Option<Vec<Event>>)
    ensures
        (match r {
            Some(evs) => is_events(*j, evs@) && events_decodable(*j),
            None => !events_decodable(*j),
        }),
{
    match j {
        Json::Arr(items) => {
            let n = items.len();
            let mut out: Vec<Event> = Vec::new();
            let mut i: usize = 0;
            while i < n
                invariant
                    *j == Json::Arr(*items),
                    n == items@.len(),
                    0 <= i <= n,
                    out@.len() == i,
                    forall|k: int|
                        0 <= k < i ==> is_event(items@[k], #[trigger] out@[k]) && event_decodable(
                            items@[k],
                        ),
                decreases n - i,
            {
                match decode_event(&items[i]) {
                    Some(e) => {
                        out.push(e);
                    },
                    None => {
                        proof {
                            assert(!event_decodable(items@[i as int]));
                            assert(!event_items_decodable(items@));
                        }
                        return None;
                    },
                }
                i = i + 1;
            }
            proof {
                assert forall|k: int| 0 <= k < items@.len() implies event_decodable(
                    #[trigger] items@[k],
                ) by {
                    assert(is_event(items@[k], out@[k]));
                    assert(event_decodable(items@[k]));
                }
                assert(event_items_decodable(items@));
            }
            Some(out)
        },
        _ => None,
    }
}

/// A transaction outcome document decodes under `outcome: success` with a
/// decodable event list, or `outcome: reject`.
pub open spec fn outcome_decodable(j: Json) -> bool {
    match json_get(j, "outcome"@) {
        Some(Json::Str(t)) => if t@ == "success"@ {
            match json_get(j, "events"@) {
                Some(ej) => events_decodable(ej),
                None => false,
            }
        } else {
            t@ == "reject"@
        },
        _ => false,
    }
}

pub open spec fn is_outcome(j: Json, o: TransactionOutcome) -> bool {
    match json_get(j, "outcome"@) {
        Some(Json::Str(t)) => if t@ == "success"@ {
            &&& o matches TransactionOutcome::Success { events }
            &&& match json_get(j, "events"@) {
                Some(ej) => is_events(ej, o->Success_events@),
                None => false,
            }
        } else if t@ == "reject"@ {
            o == TransactionOutcome::Reject
        } else {
            false
        },
        _ => false,
    }
}

pub fn decode_outcome(j: &Json) -> (r: Option<TransactionOutcome>)
    ensures
        (match r {
            Some(o) => is_outcome(*j, o) && outcome_decodable(*j),
            None => !outcome_decodable(*j),
        }),
{
    let tj = match j.get("outcome") {
        Some(v) => v,
        None => {
            return None;
        },
    };
    let t = match tj {
        Json::Str(t) => t,
        _ => {
            return None;
        },
    };
    if str_is(t, "success") {
        let ej = match j.get("events") {
            Some(v) => v,
            None => {
                return None;
            },
        };
        match decode_events(ej) {
            Some(events) => Some(TransactionOutcome::Success { events }),
            None => None,
        }
    } else if str_is(t, "reject") {
        Some(TransactionOutcome::Reject)
    } else {
        None
    }
}

/// A baker-reward list document and decoded rewards agree element by
/// element.
pub open spec fn is_rewards(j: Json, rs: Seq<AddressWithAmount>) -> bool {
    match j {
        Json::Arr(items) => rs.len() == items@.len() && forall|i: int|
            0 <= i < items@.len() ==> Some(#[trigger] rs[i]) == spec_decode_address_with_amount(
                items@[i],
            ),
        _ => false,
    }
}

pub open spec fn rewards_decodable(j: Json) -> bool {
    match j {
        Json::Arr(items) => forall|i: int|
            0 <= i < items@.len() ==> spec_decode_address_with_amount(#[trigger] items@[i]) is Some,
        _ => false,
    }
}

fn decode_rewards(j: &Json) -> (r: Option<Vec<AddressWithAmount>>)
    ensures
        (match r {
            Some(rs) => is_rewards(*j, rs@) && rewards_decodable(*j),
            None => !rewards_decodable(*j),
        }),
{
    match j {
        Json::Arr(items) => {
            let n = items.len();
            let mut out: Vec<AddressWithAmount> = Vec::new();
            let mut i: usize = 0;
            while i < n
                invariant
                    *j == Json::Arr(*items),
                    n == items@.len(),
                    0 <= i <= n,
                    out@.len() == i,
                    forall|k: int|
                        0 <= k < i ==> Some(#[trigger] out@[k]) == spec_decode_address_with_amount(
                            items@[k],
                        ),
                decreases n - i,
            {
                match decode_address_with_amount(&items[i]) {
                    Some(e) => {
                        out.push(e);
                    },
                    None => {
                        return None;
                    },
                }
                i = i + 1;
            }
            proof {
                assert forall|k: int| 0 <= k < items@.len() implies spec_decode_address_with_amount(
                    #[trigger] items@[k],
                ) is Some by {
                    assert(Some(out@[k]) == spec_decode_address_with_amount(items@[k]));
                }
            }
            Some(out)
        },
        _ => None,
    }
}

/// A special outcome document decodes under one of the four known tags; a
/// baking-rewards document needs a decodable reward list.
pub open spec fn outcome_kind_decodable(j: Json) -> bool {
    match json_get(j, "tag"@) {
        Some(Json::Str(t)) => if t@ == "BakingRewards"@ {
            match json_get(j, "bakerRewards"@) {
                Some(rj) => rewards_decodable(rj),
                None => false,
            }
        } else {
            t@ == "Mint"@ || t@ == "FinalizationRewards"@ || t@ == "BlockReward"@
        },
        _ => false,
    }
}

pub open spec fn is_outcome_kind(j: Json, k: OutcomeKind) -> bool {
    match json_get(j, "tag"@) {
        Some(Json::Str(t)) => if t@ == "BakingRewards"@ {
            &&& k matches OutcomeKind::BakingRewards { baker_rewards }
            &&& match json_get(j, "bakerRewards"@) {
                Some(rj) => is_rewards(rj, k->baker_rewards@),
                None => false,
            }
        } else if t@ == "Mint"@ {
            k == OutcomeKind::Mint
        } else if t@ == "FinalizationRewards"@ {
            k == OutcomeKind::FinalizationRewards
        } else if t@ == "BlockReward"@ {
            k == OutcomeKind::BlockReward
        } else {
            false
        },
        _ => false,
    }
}

pub fn decode_outcome_kind(j: &Json) -> (r: Option<OutcomeKind>)
    ensures
        (match r {
            Some(k) => is_outcome_kind(*j, k) && outcome_kind_decodable(*j),
            None => !outcome_kind_decodable(*j),
        }),
{
    let tj = match j.get("tag") {
        Some(v) => v,
        None => {
            return None;
        },
    };
    let t = match tj {
        Json::Str(t) => t,
        _ => {
            return None;
        },
    };
    if str_is(t, "BakingRewards") {
        let rj = match j.get("bakerRewards") {
            Some(v) => v,
            None => {
                return None;
            },
        };
        match decode_rewards(rj) {
            Some(baker_rewards) => Some(OutcomeKind::BakingRewards { baker_rewards }),
            None => None,
        }
    } else if str_is(t, "Mint") {
        Some(OutcomeKind::Mint)
    } else if str_is(t, "FinalizationRewards") {
        Some(OutcomeKind::FinalizationRewards)
    } else if str_is(t, "BlockReward") {
        Some(OutcomeKind::BlockReward)
    } else {
        None
    }
}

/// The optional sender of a transaction summary: absent or `null` means no
/// sender, a string is the sender's address, anything else refuses the
/// summary.
pub open spec fn spec_decode_sender(o: Option<Json>) -> Option<Option<AccountAddress>> {
    match o {
        None => Some(None),
        Some(Json::Null) => Some(None),
        Some(Json::Str(s)) => Some(Some(AccountAddress(s))),
        _ => None,
    }
}

fn decode_sender(o: Option<&Json>) -> (r: Option<Option<AccountAddress>>)
    ensures
        (match o {
            Some(v) => r == spec_decode_sender(Some(*v)),
            None => r == spec_decode_sender(None::<Json>),
        }),
{
    match o {
        None => Some(None),
        Some(j) => match j {
            Json::Null => Some(None),
            Json::Str(ss) => Some(Some(AccountAddress(ss.clone()))),
            _ => None,
        },
    }
}

/// A transaction summary document decodes when each field it needs is
/// present and well-formed; the sender may be absent.
pub open spec fn tx_summary_decodable(tj: Json) -> bool {
    &&& spec_decode_sender(json_get(tj, "sender"@)) is Some
    &&& json_get(tj, "hash"@) matches Some(Json::Str(_))
    &&& match json_get(tj, "cost"@) {
        Some(cj) => spec_decode_amount(cj) is Some,
        None => false,
    }
    &&& json_get(tj, "energyCost"@) matches Some(Json::UInt(_))
    &&& match json_get(tj, "type"@) {
        Some(tyj) => spec_decode_summary_type(tyj) is Some,
        None => false,
    }
    &&& match json_get(tj, "result"@) {
        Some(rj) => outcome_decodable(rj),
        None => false,
    }
    &&& json_get(tj, "index"@) matches Some(Json::UInt(_))
}

/// A transaction summary document and a decoded summary agree field by
/// field.
pub open spec fn is_tx_summary(tj: Json, s: BlockSummary) -> bool {
    &&& s matches BlockSummary::TransactionSummary {
        sender,
        hash,
        cost,
        energy_cost,
        ty,
        result,
        index,
    }
    &&& Some(sender) == spec_decode_sender(json_get(tj, "sender"@))
    &&& match json_get(tj, "hash"@) {
        Some(Json::Str(h)) => hash == h,
        _ => false,
    }
    &&& match json_get(tj, "cost"@) {
        Some(cj) => Some(cost) == spec_decode_amount(cj),
        None => false,
    }
    &&& json_get(tj, "energyCost"@) == Some(Json::UInt(energy_cost))
    &&& match json_get(tj, "type"@) {
        Some(tyj) => Some(ty) == spec_decode_summary_type(tyj),
        None => false,
    }
    &&& match json_get(tj, "result"@) {
        Some(rj) => is_outcome(rj, result),
        None => false,
    }
    &&& json_get(tj, "index"@) == Some(Json::UInt(index))
}

/// A block summary document decodes as a transaction summary under `Left`
/// or as a special outcome under `Right`.
pub open spec fn summary_decodable(j: Json) -> bool {
    match json_get(j, "Left"@) {
        Some(tj) => tx_summary_decodable(tj),
        None => match json_get(j, "Right"@) {
            Some(oj) => outcome_kind_decodable(oj),
            None => false,
        },
    }
}

/// A block summary document and a decoded summary agree.
pub open spec fn is_summary(j: Json, s: BlockSummary) -> bool {
    match json_get(j, "Left"@) {
        Some(tj) => is_tx_summary(tj, s),
        None => match json_get(j, "Right"@) {
            Some(oj) => {
                &&& s matches BlockSummary::SpecialTransactionOutcome(k)
                &&& is_outcome_kind(oj, k)
            },
            None => false,
        },
    }
}

fn decode_tx_summary(tj: &Json) -> (r: Option<BlockSummary>)
    ensures
        (match r {
            Some(s) => is_tx_summary(*tj, s) && tx_summary_decodable(*tj),
            None => !tx_summary_decodable(*tj),
        }),
{
    let sender = match decode_sender(tj.get("sender")) {
        Some(s) => s,
        None => {
            return None;
        },
    };
    let hash = match tj.get("hash") {
        Some(hj) => match hj {
            Json::Str(h) => h.clone(),
            _ => {
                return None;
            },
        },
        None => {
            return None;
        },
    };
    let cost = match tj.get("cost") {
        Some(cj) => match decode_amount(cj) {
            Some(c) => c,
            None => {
                return None;
            },
        },
        None => {
            return None;
        },
    };
    let energy_cost = match tj.get("energyCost") {
        Some(ej) => match ej.as_u64() {
            Some(e) => e,
            None => {
                return None;
            },
        },
        None => {
            return None;
        },
    };
    let ty = match tj.get("type") {
        Some(tyj) => match decode_summary_type(tyj) {
            Some(t) => t,
            None => {
                return None;
            },
        },
        None => {
            return None;
        },
    };
    let result = match tj.get("result") {
        Some(rj) => match decode_outcome(rj) {
            Some(o) => o,
            None => {
                return None;
            },
        },
        None => {
            return None;
        },
    };
    let index = match tj.get("index") {
        Some(ij) => match ij.as_u64() {
            Some(ix) => ix,
            None => {
                return None;
            },
        },
        None => {
            return None;
        },
    };
    Some(BlockSummary::TransactionSummary { sender, hash, cost, energy_cost, ty, result, index })
}

/// Decodes one block summary document.
pub fn decode_summary(j: &Json) -> (r: Option<BlockSummary>)
    ensures
        (match r {
            Some(s) => is_summary(*j, s) && summary_decodable(*j),
            None => !summary_decodable(*j),
        }),
{
    match j.get("Left") {
        Some(tj) => decode_tx_summary(tj),
        None => match j.get("Right") {
            Some(oj) => match decode_outcome_kind(oj) {
                Some(k) => Some(BlockSummary::SpecialTransactionOutcome(k)),
                None => None,
            },
            None => None,
        },
    }
}

/// Decodes a block summary straight from its JSON text. Nothing comes back
/// for text that is not JSON or whose document the summary schema refuses:
/// the pipeline skips such an update and goes on.
pub fn decode_summary_text(s: &str) -> (r: Option<BlockSummary>)
    ensures
        (match r {
            Some(bs) => json_of(s@) matches Some(jj) && is_summary(jj, bs) && summary_decodable(
                jj,
            ),
            None => !(json_of(s@) matches Some(jj) && summary_decodable(jj)),
        }),
{
    match parse_json(s) {
        Some(j) => decode_summary(&j),
        None => None,
    }
}

} // verus!
