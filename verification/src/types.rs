//! The decoded event model: one change-feed update, its block summary, the
//! transaction and event variants, and the special (non-transaction)
//! outcomes.

pub mod account_address;
pub mod amount;

use vstd::prelude::*;
pub use account_address::{AccountAddress, ParseAccountAddressError};
pub use amount::Amount;
use crate::decimal::parse_u64;

verus! {

/// One row of the account-transaction index: the durable cursor value, the
/// account the row is about, and the decoded summary.
#[derive(Debug)]
pub struct AccountUpdate {
    pub index_id: i64,
    pub account: AccountAddress,
    pub summary: BlockSummary,
}

/// One decoded block summary: a transaction outcome or a special outcome.
#[derive(Debug)]
pub enum BlockSummary {
    TransactionSummary {
        sender: Option<AccountAddress>,
        hash: String,
        cost: Amount,
        energy_cost: u64,
        ty: TransactionSummaryType,
        result: TransactionOutcome,
        index: u64,
    },
    SpecialTransactionOutcome(OutcomeKind),
}

#[derive(Debug)]
pub enum TransactionSummaryType {
    AccountTransaction(TransactionType),
    CredentialDeploymentTransaction,
    UpdateTransaction,
}

#[derive(Debug, PartialEq, Eq, Structural, Clone, Copy)]
pub enum TransactionType {
    DeployModule,
    InitContract,
    Update,
    Transfer,
    AddBaker,
    RemoveBaker,
    UpdateBakerStake,
    UpdateBakerRestakeEarnings,
    UpdateBakerKeys,
    UpdateCredentialKeys,
    EncryptedAmountTransfer,
    TransferToEncrypted,
    TransferToPublic,
    TransferWithSchedule,
    UpdateCredentials,
    RegisterData,
    TransferWithMemo,
    EncryptedAmountTransferWithMemo,
    TransferWithScheduleAndMemo,
}

#[derive(Debug)]
pub enum TransactionOutcome {
    Success { events: Vec<Event> },
    Reject,
}

/// Transaction execution events. Only `Transferred` and
/// `TransferredWithSchedule` carry subscriber-relevant payloads; the other
/// named variants are inert, and a tag this model does not know decodes to
/// `Unhandled` rather than failing the whole summary.
#[derive(Debug)]
pub enum Event {
    ModuleDeployed,
    ContractInitialized,
    Updated,
    Transferred { from: Address, to: Address, amount: Amount },
    AccountCreated,
    CredentialDeployed,
    BakerAdded,
    BakerRemoved,
    BakerStakeIncreased,
    BakerStakeDecreased,
    BakerSetRestakeEarnings,
    BakerKeysUpdated,
    CredentialKeysUpdated,
    NewEncryptedAmount,
    EncryptedAmountsRemoved,
    AmountAddedByDecryption,
    EncryptedSelfAmountAdded,
    UpdateEnqueued,
    TransferredWithSchedule { from: Address, to: Address, amount: AmountWithSchedule },
    CredentialsUpdated,
    DataRegistered,
    TransferMemo { memo: String },
    Unhandled,
}

/// An ordered release schedule: `(release_time, amount)` pairs, the amount
/// written as a micro-CCD integer string.
#[derive(Debug)]
pub struct AmountWithSchedule(pub Vec<(u64, String)>);

/// The value of one schedule entry's amount string; zero where it is not a
/// plain integer (such an entry makes the schedule ill-formed).
pub open spec fn entry_val(s: Seq<char>) -> nat {
    match parse_u64(s) {
        Some(v) => v as nat,
        None => 0,
    }
}

/// The sum of all scheduled amounts.
pub open spec fn schedule_sum(entries: Seq<(u64, String)>) -> nat
    decreases entries.len(),
{
    if entries.len() == 0 {
        0
    } else {
        schedule_sum(entries.drop_last()) + entry_val(entries.last().1@)
    }
}

/// Every entry's amount is a plain micro-CCD integer.
pub open spec fn schedule_wf(entries: Seq<(u64, String)>) -> bool {
    forall|i: int| 0 <= i < entries.len() ==> parse_u64(#[trigger] entries[i].1@) is Some
}

impl AmountWithSchedule {
    /// The total of the schedule when every entry parses and the sum fits;
    /// nothing otherwise.
    pub fn checked_total(&self) -> (r: Option<Amount>)
        ensures
            (match r {
                Some(a) => schedule_wf(self.0@) && schedule_sum(self.0@) == a.0,
                None => !(schedule_wf(self.0@) && schedule_sum(self.0@) <= u64::MAX),
            }),
    {
        let n = self.0.len();
        let mut acc: u64 = 0;
        let mut i: usize = 0;
        while i < n
            invariant
                n == self.0@.len(),
                0 <= i <= n,
                schedule_wf(self.0@.subrange(0, i as int)),
                acc == schedule_sum(self.0@.subrange(0, i as int)),
            decreases n - i,
        {
            let entry = &self.0[i];
            let v = match crate::decimal::parse_u64_str(entry.1.as_str()) {
                Some(v) => v,
                None => {
                    proof {
                        assert(!schedule_wf(self.0@));
                    }
                    return None;
                },
            };
            acc = match acc.checked_add(v) {
                Some(a) => a,
                None => {
                    proof {
                        lemma_schedule_sum_prefix(self.0@, i + 1);
                        assert(self.0@.subrange(0, i + 1).drop_last() =~= self.0@.subrange(
                            0,
                            i as int,
                        ));
                        if schedule_wf(self.0@) {
                            assert(schedule_sum(self.0@) > u64::MAX);
                        }
                    }
                    return None;
                },
            };
            proof {
                assert(self.0@.subrange(0, i + 1).drop_last() =~= self.0@.subrange(0, i as int));
                assert(self.0@.subrange(0, i + 1).last() == self.0@[i as int]);
            }
            i = i + 1;
        }
        proof {
            assert(self.0@.subrange(0, n as int) =~= self.0@);
        }
        Some(Amount(acc))
    }

    /// The total of the schedule. Asks that every entry parse and the sum
    /// fit; `checked_total` decides both at run time.
    pub fn total_amount(&self) -> (r: Amount)
        requires
            schedule_wf(self.0@),
            schedule_sum(self.0@) <= u64::MAX,
        ensures
            r.0 == schedule_sum(self.0@),
    {
        match self.checked_total() {
            Some(a) => a,
            None => {
                proof {
                    assert(false);
                }
                Amount(0)
            },
        }
    }
}

/// A prefix sum never exceeds the whole sum.
proof fn lemma_schedule_sum_prefix(entries: Seq<(u64, String)>, i: int)
    requires
        0 <= i <= entries.len(),
    ensures
        schedule_sum(entries.subrange(0, i)) <= schedule_sum(entries),
    decreases entries.len() - i,
{
    if i == entries.len() {
        assert(entries.subrange(0, i) =~= entries);
    } else {
        lemma_schedule_sum_prefix(entries.drop_last(), i);
        assert(entries.drop_last().subrange(0, i) =~= entries.subrange(0, i));
    }
}

#[derive(Debug)]
pub struct TransferMemo {
    pub memo: String,
}

#[derive(Debug, PartialEq, Eq, Structural, Clone, Copy)]
pub struct ContractAddress {
    pub index: u64,
    pub subindex: u64,
}

/// A transfer endpoint: an account or a contract instance.
#[derive(Debug)]
pub enum Address {
    Account(AccountAddress),
    Contract(ContractAddress),
}

/// Special transaction outcomes; only baking rewards carry a
/// subscriber-relevant payload.
#[derive(Debug)]
pub enum OutcomeKind {
    BakingRewards { baker_rewards: Vec<AddressWithAmount> },
    Mint,
    FinalizationRewards,
    BlockReward,
}

#[derive(Debug)]
pub struct AddressWithAmount {
    pub address: String,
    pub amount: Amount,
}

} // verus!
