//! The matcher and the ingestion pipeline: picking the subscriber-relevant
//! event out of a decoded update, rendering the notification text, fanning
//! it out to the account's subscribers, and replaying the backlog since the
//! committed cursor in strict order.

use vstd::prelude::*;
use crate::db::SubscriptionStore;
use crate::sender::Message;
use crate::types::amount::amount_text;
use crate::types::{
    AccountAddress, Address, AddressWithAmount, Amount, BlockSummary, Event, OutcomeKind,
    TransactionOutcome, TransactionSummaryType, TransactionType, AccountUpdate, schedule_sum,
    schedule_wf,
};
use crate::utils::{
    format_account_address, format_address, format_txhash, spec_format_account_address,
    spec_format_address, spec_format_txhash,
};
use crate::decimal::{parse_i64, parse_i64_str};
use crate::encodings::{b58check_encode, b58check_of, hex_decode, hex_decode_str};
use crate::codec::{decode_summary_text, is_summary, summary_decodable};
use crate::json::json_of;

verus! {

/// The transaction types whose successful outcomes may notify subscribers.
pub open spec fn relevant_tx_type(ty: TransactionSummaryType) -> bool {
    match ty {
        TransactionSummaryType::AccountTransaction(tt) => {
            ||| tt == TransactionType::Transfer
            ||| tt == TransactionType::TransferWithMemo
            ||| tt == TransactionType::TransferWithSchedule
            ||| tt == TransactionType::TransferWithScheduleAndMemo
        },
        _ => false,
    }
}

fn is_relevant_tx_type(ty: &TransactionSummaryType) -> (r: bool)
    ensures
        r == relevant_tx_type(*ty),
{
    match ty {
        TransactionSummaryType::AccountTransaction(tt) => match tt {
            TransactionType::Transfer => true,
            TransactionType::TransferWithMemo => true,
            TransactionType::TransferWithSchedule => true,
            TransactionType::TransferWithScheduleAndMemo => true,
            _ => false,
        },
        _ => false,
    }
}

/// An event is relevant to an address when it is a transfer (plain or
/// scheduled) whose recipient is that account; contract recipients never
/// match.
pub open spec fn spec_relevant(e: Event, addr: Seq<char>) -> bool {
    match e {
        Event::Transferred { to, .. } => to matches Address::Account(a) && a@ == addr,
        Event::TransferredWithSchedule { to, .. } => to matches Address::Account(a) && a@ == addr,
        _ => false,
    }
}

/// The first event relevant to the address; later relevant events in the
/// same transaction are deliberately ignored.
pub open spec fn spec_event_for(events: Seq<Event>, addr: Seq<char>) -> Option<Event>
    decreases events.len(),
{
    if events.len() == 0 {
        None
    } else if spec_relevant(events[0], addr) {
        Some(events[0])
    } else {
        spec_event_for(events.subrange(1, events.len() as int), addr)
    }
}

/// A found event is in fact a relevant transfer.
proof fn lemma_event_for_relevant(events: Seq<Event>, addr: Seq<char>)
    requires
        spec_event_for(events, addr) is Some,
    ensures
        spec_relevant(spec_event_for(events, addr)->Some_0, addr),
    decreases events.len(),
{
    if events.len() == 0 {
    } else if spec_relevant(events[0], addr) {
    } else {
        lemma_event_for_relevant(events.subrange(1, events.len() as int), addr);
    }
}

fn is_relevant(e: &Event, address: &AccountAddress) -> (r: bool)
    ensures
        r == spec_relevant(*e, address@),
{
    match e {
        Event::Transferred { to, .. } => match to {
            Address::Account(a) => a == address,
            _ => false,
        },
        Event::TransferredWithSchedule { to, .. } => match to {
            Address::Account(a) => a == address,
            _ => false,
        },
        _ => false,
    }
}

/// Scans the events for the first `Transferred` or
/// `TransferredWithSchedule` paid to the given account.
pub fn event_for(events: Vec<Event>, address: &AccountAddress) -> (r: Option<Event>)
    ensures
        (match r {
            Some(e) => spec_event_for(events@, address@) == Some(e),
            None => spec_event_for(events@, address@) is None,
        }),
{
    let n = events.len();
    let mut i: usize = 0;
    proof {
        assert(events@.subrange(0, n as int) =~= events@);
    }
    while i < n
        invariant
            n == events@.len(),
            0 <= i <= n,
            spec_event_for(events@, address@) == spec_event_for(
                events@.subrange(i as int, n as int),
                address@,
            ),
        decreases n - i,
    {
        proof {
            let sub = events@.subrange(i as int, n as int);
            assert(sub[0] == events@[i as int]);
            assert(sub.subrange(1, sub.len() as int) =~= events@.subrange(i + 1, n as int));
        }
        if is_relevant(&events[i], address) {
            let mut events = events;
            let e = events.remove(i);
            return Some(e);
        }
        i = i + 1;
    }
    proof {
        assert(events@.subrange(n as int, n as int).len() == 0);
    }
    None
}

/// The first baker reward paid to the account.
pub open spec fn spec_reward_for(
    rewards: Seq<AddressWithAmount>,
    addr: Seq<char>,
) -> Option<AddressWithAmount>
    decreases rewards.len(),
{
    if rewards.len() == 0 {
        None
    } else if rewards[0].address@ == addr {
        Some(rewards[0])
    } else {
        spec_reward_for(rewards.subrange(1, rewards.len() as int), addr)
    }
}

fn reward_for(rewards: Vec<AddressWithAmount>, address: &AccountAddress) -> (r: Option<
    AddressWithAmount,
>)
    ensures
        (match r {
            Some(rw) => spec_reward_for(rewards@, address@) == Some(rw),
            None => spec_reward_for(rewards@, address@) is None,
        }),
{
    let acct: String = address.address().to_owned();
    let n = rewards.len();
    let mut i: usize = 0;
    proof {
        assert(rewards@.subrange(0, n as int) =~= rewards@);
    }
    while i < n
        invariant
            acct@ == address@,
            n == rewards@.len(),
            0 <= i <= n,
            spec_reward_for(rewards@, address@) == spec_reward_for(
                rewards@.subrange(i as int, n as int),
                address@,
            ),
        decreases n - i,
    {
        proof {
            let sub = rewards@.subrange(i as int, n as int);
            assert(sub[0] == rewards@[i as int]);
            assert(sub.subrange(1, sub.len() as int) =~= rewards@.subrange(i + 1, n as int));
        }
        if rewards[i].address == acct {
            let mut rewards = rewards;
            let rw = rewards.remove(i);
            return Some(rw);
        }
        i = i + 1;
    }
    proof {
        assert(rewards@.subrange(n as int, n as int).len() == 0);
    }
    None
}

/// The sender line of a notification: present only when the summary named a
/// sender.
pub open spec fn spec_format_sender(sender: Option<AccountAddress>, mainnet: bool) -> Seq<char> {
    match sender {
        Some(a) => "Sender: "@ + spec_format_account_address(a@, false, mainnet) + "\n"@,
        None => Seq::<char>::empty(),
    }
}

pub fn format_sender(sender: Option<AccountAddress>, mainnet: bool) -> (r: String)
    requires
        sender matches Some(a) ==> a@.len() >= 8,
    ensures
        r@ == spec_format_sender(sender, mainnet),
{
    match sender {
        Some(a) => {
            let mut r = String::from_str("Sender: ");
            r.append(format_account_address(&a, false, mainnet).as_str());
            r.append("\n");
            proof {
                assert(r@ =~= spec_format_sender(Some(a), mainnet));
            }
            r
        },
        None => {
            let r = String::new();
            proof {
                assert(r@ =~= spec_format_sender(None::<AccountAddress>, mainnet));
            }
            r
        },
    }
}

/// A transfer endpoint renders whenever an account address in it is at
/// least eight characters long (the prefix shown in the link).
pub open spec fn addr_renderable(a: Address) -> bool {
    match a {
        Address::Account(x) => x@.len() >= 8,
        Address::Contract(_) => true,
    }
}

/// A matched event renders when its addresses, the hash and the sender
/// carry printable prefixes, and a schedule's total parses and fits.
pub open spec fn event_renderable(e: Event, sender: Option<AccountAddress>, hash: Seq<char>) -> bool {
    &&& hash.len() >= 8
    &&& (sender matches Some(a) ==> a@.len() >= 8)
    &&& match e {
        Event::Transferred { from, to, .. } => addr_renderable(from) && addr_renderable(to),
        Event::TransferredWithSchedule { from, to, amount } => addr_renderable(from)
            && addr_renderable(to) && schedule_wf(amount.0@) && schedule_sum(amount.0@)
            <= u64::MAX,
        _ => true,
    }
}

fn is_event_renderable(e: &Event, sender: &Option<AccountAddress>, hash: &String) -> (r: bool)
    ensures
        (match sender {
            Some(a) => r == event_renderable(*e, Some(*a), hash@),
            None => r == event_renderable(*e, None::<AccountAddress>, hash@),
        }),
{
    if hash.as_str().unicode_len() < 8 {
        return false;
    }
    match sender {
        Some(a) => {
            if a.address().unicode_len() < 8 {
                return false;
            }
        },
        None => {},
    }
    match e {
        Event::Transferred { from, to, .. } => is_addr_renderable(from) && is_addr_renderable(to),
        Event::TransferredWithSchedule { from, to, amount } => {
            if !(is_addr_renderable(from) && is_addr_renderable(to)) {
                false
            } else {
                match amount.checked_total() {
                    Some(_) => true,
                    None => false,
                }
            }
        },
        _ => true,
    }
}

fn is_addr_renderable(a: &Address) -> (r: bool)
    ensures
        r == addr_renderable(*a),
{
    match a {
        Address::Account(x) => x.address().unicode_len() >= 8,
        Address::Contract(_) => true,
    }
}

/// The notification text of a matched transfer event.
pub open spec fn spec_event_text(
    e: Event,
    sender: Option<AccountAddress>,
    hash: Seq<char>,
    cost: Amount,
    mainnet: bool,
) -> Seq<char> {
    match e {
        Event::Transferred { from, to, amount } => "Transferred "@ + amount_text(amount.0 as nat)
            + " CCD from "@ + spec_format_address(from, mainnet) + " to "@ + spec_format_address(
            to,
            mainnet,
        ) + "\nTx Hash: "@ + spec_format_txhash(hash, mainnet) + "\n"@ + spec_format_sender(
            sender,
            mainnet,
        ) + "Cost: "@ + amount_text(cost.0 as nat) + " CCD"@,
        Event::TransferredWithSchedule { from, to, amount } => "Transferred with schedule "@
            + amount_text(schedule_sum(amount.0@)) + " CCD from "@ + spec_format_address(
            from,
            mainnet,
        ) + " to "@ + spec_format_address(to, mainnet) + "\nTx Hash: "@ + spec_format_txhash(
            hash,
            mainnet,
        ) + "\n"@ + spec_format_sender(sender, mainnet) + "Cost: "@ + amount_text(cost.0 as nat)
            + " CCD"@,
        _ => Seq::<char>::empty(),
    }
}

/// The notification text of a baker reward.
pub open spec fn spec_reward_text(amount: Amount) -> Seq<char> {
    "Baker reward "@ + amount_text(amount.0 as nat) + " CCD"@
}

fn render_reward(amount: Amount) -> (r: String)
    ensures
        r@ == spec_reward_text(amount),
{
    let mut r = String::from_str("Baker reward ");
    r.append(amount.to_text().as_str());
    r.append(" CCD");
    proof {
        assert(r@ =~= spec_reward_text(amount));
    }
    r
}

fn render_event(
    e: &Event,
    sender: Option<AccountAddress>,
    hash: &String,
    cost: Amount,
    mainnet: bool,
) -> (r: String)
    requires
        e matches Event::Transferred { .. } || e matches Event::TransferredWithSchedule { .. },
        event_renderable(*e, sender, hash@),
    ensures
        r@ == spec_event_text(*e, sender, hash@, cost, mainnet),
{
    let (label, total, from, to) = match e {
        Event::Transferred { from, to, amount } => ("Transferred ", *amount, from, to),
        Event::TransferredWithSchedule { from, to, amount } => (
            "Transferred with schedule ",
            amount.total_amount(),
            from,
            to,
        ),
        _ => {
            proof {
                assert(false);
            }
            ("", Amount(0), &Address::Contract(crate::types::ContractAddress { index: 0, subindex: 0 }), &Address::Contract(crate::types::ContractAddress { index: 0, subindex: 0 }))
        },
    };
    let mut r = String::from_str(label);
    r.append(total.to_text().as_str());
    r.append(" CCD from ");
    r.append(format_address(from, mainnet).as_str());
    r.append(" to ");
    r.append(format_address(to, mainnet).as_str());
    r.append("\nTx Hash: ");
    r.append(format_txhash(hash.as_str(), mainnet).as_str());
    r.append("\n");
    r.append(format_sender(sender, mainnet).as_str());
    r.append("Cost: ");
    r.append(cost.to_text().as_str());
    r.append(" CCD");
    proof {
        assert(r@ =~= spec_event_text(*e, sender, hash@, cost, mainnet));
    }
    r
}

/// What one decoded update yields: the cursor value, the recipients from
/// the derived index, and the rendered text — or nothing, when the update
/// is not a successful relevant transfer to the account (or a baker reward
/// for it), the account has no index entry, or the event cannot be
/// rendered.
pub open spec fn spec_notification(
    store: SubscriptionStore,
    u: AccountUpdate,
    mainnet: bool,
) -> Option<(i64, Seq<i64>, Seq<char>)> {
    match u.summary {
        BlockSummary::TransactionSummary { sender, hash, cost, ty, result, .. } => {
            if relevant_tx_type(ty) {
                match result {
                    TransactionOutcome::Success { events } => {
                        match spec_event_for(events@, u.account@) {
                            Some(e) => if event_renderable(e, sender, hash@) {
                                match store.idx_lookup(u.account@) {
                                    Some(ids) => Some(
                                        (
                                            u.index_id,
                                            ids,
                                            spec_event_text(e, sender, hash@, cost, mainnet),
                                        ),
                                    ),
                                    None => None,
                                }
                            } else {
                                None
                            },
                            None => None,
                        }
                    },
                    TransactionOutcome::Reject => None,
                }
            } else {
                None
            }
        },
        BlockSummary::SpecialTransactionOutcome(kind) => match kind {
            OutcomeKind::BakingRewards { baker_rewards } => {
                match spec_reward_for(baker_rewards@, u.account@) {
                    Some(rw) => match store.idx_lookup(rw.address@) {
                        Some(ids) => Some((u.index_id, ids, spec_reward_text(rw.amount))),
                        None => None,
                    },
                    None => None,
                }
            },
            _ => None,
        },
    }
}

/// Matches one decoded update against the derived index and renders the
/// notification for the account's subscribers, exactly as
/// `spec_notification` lays down. Rejected outcomes, irrelevant transaction
/// types, contract recipients and unknown events never notify.
pub fn handle_update(store: &SubscriptionStore, update: AccountUpdate, mainnet: bool) -> (r:
    Option<Message>)
    ensures
        (match (r, spec_notification(*store, update, mainnet)) {
            (Some(m), Some(n)) => m.index_id == n.0 && m.user_ids@ == n.1 && m.text@ == n.2,
            (None, None) => true,
            _ => false,
        }),
{
    let AccountUpdate { index_id, account, summary } = update;
    match summary {
        BlockSummary::TransactionSummary { sender, hash, cost, energy_cost: _, ty, result, index: _ } => {
            if !is_relevant_tx_type(&ty) {
                return None;
            }
            match result {
                TransactionOutcome::Success { events } => {
                    match event_for(events, &account) {
                        Some(e) => {
                            proof {
                                lemma_event_for_relevant(events@, account@);
                            }
                            if !is_event_renderable(&e, &sender, &hash) {
                                return None;
                            }
                            match store.subscriber_ids(account.address()) {
                                Some(ids) => {
                                    let text = render_event(&e, sender, &hash, cost, mainnet);
                                    Some(Message::new(index_id, ids, text))
                                },
                                None => None,
                            }
                        },
                        None => None,
                    }
                },
                TransactionOutcome::Reject => None,
            }
        },
        BlockSummary::SpecialTransactionOutcome(kind) => match kind {
            OutcomeKind::BakingRewards { baker_rewards } => {
                match reward_for(baker_rewards, &account) {
                    Some(rw) => match store.subscriber_ids(rw.address.as_str()) {
                        Some(ids) => Some(
                            Message::new(index_id, ids, render_reward(rw.amount)),
                        ),
                        None => None,
                    },
                    None => None,
                }
            },
            _ => None,
        },
    }
}

/// Law: a summary whose outcome is a rejection never notifies, whatever
/// events its document carried.
pub proof fn lemma_reject_never_notifies(
    store: SubscriptionStore,
    u: AccountUpdate,
    mainnet: bool,
)
    requires
        u.summary matches BlockSummary::TransactionSummary {
            result: TransactionOutcome::Reject,
            ..
        },
    ensures
        spec_notification(store, u, mainnet) is None,
{
}

/// Law: fan-out — on a well-formed store, the recipients of a notification
/// are exactly the users holding a live subscription row for the matched
/// account, each listed once.
pub proof fn lemma_fanout_recipients(
    store: SubscriptionStore,
    u: AccountUpdate,
    mainnet: bool,
    n: (i64, Seq<i64>, Seq<char>),
)
    requires
        store.wf(),
        spec_notification(store, u, mainnet) == Some(n),
    ensures
        exists|a: Seq<char>|
            (#[trigger] store.idx_lookup(a)) == Some(n.1) && forall|x: i64|
                n.1.contains(x) <==> store.has_row(x, a),
{
    crate::db::lemma_index_matches_rows(store);
    match u.summary {
        BlockSummary::TransactionSummary { .. } => {
            let a = u.account@;
            assert(store.idx_lookup(a) == Some(n.1));
            assert forall|x: i64| n.1.contains(x) <==> store.has_row(x, a) by {
                assert(store.index_has(a, x) <==> store.has_row(x, a));
            }
        },
        BlockSummary::SpecialTransactionOutcome(kind) => {
            match kind {
                OutcomeKind::BakingRewards { baker_rewards } => {
                    let rw = spec_reward_for(baker_rewards@, u.account@)->Some_0;
                    let a = rw.address@;
                    assert(store.idx_lookup(a) == Some(n.1));
                    assert forall|x: i64| n.1.contains(x) <==> store.has_row(x, a) by {
                        assert(store.index_has(a, x) <==> store.has_row(x, a));
                    }
                },
                _ => {},
            }
        },
    }
}

/// Law: address-form equivalence — a notification depends on the account
/// only through its normalized text. Whether an address arrived as raw hex
/// in a payload (and was normalized to base58check text) or as the
/// structured address object carrying that same text, the matcher behaves
/// identically.
pub proof fn lemma_notification_depends_on_address_text(
    store: SubscriptionStore,
    u1: AccountUpdate,
    u2: AccountUpdate,
    mainnet: bool,
)
    requires
        u1.index_id == u2.index_id,
        u1.account@ == u2.account@,
        u1.summary == u2.summary,
    ensures
        spec_notification(store, u1, mainnet) == spec_notification(store, u2, mainnet),
{
}

/// The smallest position at or after `from` holding `c`.
pub open spec fn find_char(s: Seq<char>, c: char, from: int) -> Option<int>
    decreases s.len() - from,
{
    if !(0 <= from < s.len()) {
        None
    } else if s[from] == c {
        Some(from)
    } else {
        find_char(s, c, from + 1)
    }
}

/// What reading a change-feed payload yields: the text up to the first bar
/// is the cursor value, between the bars stands the address as two marker
/// characters and the hex of its 32 bytes, and everything after the second
/// bar is the summary JSON. The address comes out normalized to its
/// base58check text.
pub open spec fn spec_parse_payload(p: Seq<char>) -> Option<(i64, Seq<char>, Seq<char>)> {
    match find_char(p, '|', 0) {
        Some(i) => match find_char(p, '|', i + 1) {
            Some(j) => {
                let hexpart = p.subrange(i + 1, j);
                match parse_i64(p.subrange(0, i)) {
                    Some(id) => if hexpart.len() >= 2 {
                        match hex_decode(hexpart.subrange(2, hexpart.len() as int)) {
                            Some(bytes) => if bytes.len() == 32 {
                                Some((id, b58check_of(1, bytes), p.subrange(j + 1, p.len() as int)))
                            } else {
                                None
                            },
                            None => None,
                        }
                    } else {
                        None
                    },
                    None => None,
                }
            },
            None => None,
        },
        None => None,
    }
}

fn find_bar(s: &str, from: usize) -> (r: Option<usize>)
    requires
        from <= s@.len(),
    ensures
        (match r {
            Some(i) => find_char(s@, '|', from as int) == Some(i as int) && from <= i < s@.len(),
            None => find_char(s@, '|', from as int) is None,
        }),
{
    let n = s.unicode_len();
    let mut i: usize = from;
    while i < n
        invariant
            n == s@.len(),
            from <= i <= n,
            find_char(s@, '|', from as int) == find_char(s@, '|', i as int),
        decreases n - i,
    {
        let c = s.get_char(i);
        if c == '|' {
            return Some(i);
        }
        i = i + 1;
    }
    None
}

/// Splits one change-feed payload `index_id | hex-address | summary-json`
/// into the cursor value, the normalized base58check address, and the
/// summary text. Nothing comes back for a payload without two bars, a
/// malformed number, or a malformed or non-32-byte address hex.
pub fn parse_payload(payload: &str) -> (r: Option<(i64, String, String)>)
    ensures
        (match r {
            Some(t) => spec_parse_payload(payload@) == Some((t.0, t.1@, t.2@)),
            None => spec_parse_payload(payload@) is None,
        }),
{
    let n = payload.unicode_len();
    let i = match find_bar(payload, 0) {
        Some(i) => i,
        None => {
            return None;
        },
    };
    let j = match find_bar(payload, i + 1) {
        Some(j) => j,
        None => {
            return None;
        },
    };
    let idpart = payload.substring_char(0, i);
    let id = match parse_i64_str(idpart) {
        Some(id) => id,
        None => {
            return None;
        },
    };
    let hexpart = payload.substring_char(i + 1, j);
    if hexpart.unicode_len() < 2 {
        return None;
    }
    let hexdigits = hexpart.substring_char(2, hexpart.unicode_len());
    let bytes = match hex_decode_str(hexdigits) {
        Some(b) => b,
        None => {
            proof {
                assert(hexpart@.subrange(2, hexpart@.len() as int) == hexdigits@);
            }
            return None;
        },
    };
    if bytes.len() != 32 {
        return None;
    }
    let address = b58check_encode(&bytes, 1);
    let summary: String = payload.substring_char(j + 1, n).to_owned();
    proof {
        assert(hexpart@.subrange(2, hexpart@.len() as int) == hexdigits@);
    }
    Some((id, address, summary))
}

/// Decodes one live change-feed payload into an account update; nothing
/// comes back for a payload the parser or the summary schema refuses, and
/// the pipeline skips it.
pub fn decode_update(payload: &str) -> (r: Option<AccountUpdate>)
    ensures
        (match r {
            Some(u) => spec_parse_payload(payload@) matches Some(t) && u.index_id == t.0
                && u.account@ == t.1 && (json_of(t.2) matches Some(jj) && is_summary(
                jj,
                u.summary,
            ) && summary_decodable(jj)),
            None => !(spec_parse_payload(payload@) matches Some(t) && json_of(t.2) matches Some(jj)
                && summary_decodable(jj)),
        }),
{
    let (index_id, address, summary_text) = match parse_payload(payload) {
        Some(t) => t,
        None => {
            return None;
        },
    };
    match decode_summary_text(summary_text.as_str()) {
        Some(summary) => Some(
            AccountUpdate { index_id, account: AccountAddress::new(address), summary },
        ),
        None => None,
    }
}

/// The update one backlog row stands for, once its summary is decoded.
pub open spec fn row_update(row: (i64, String, String), bs: BlockSummary) -> AccountUpdate {
    AccountUpdate { index_id: row.0, account: AccountAddress(row.1), summary: bs }
}

/// The row's summary text parses and decodes to `bs`.
pub open spec fn is_row_summary(row: (i64, String, String), bs: BlockSummary) -> bool {
    json_of(row.2@) matches Some(jj) && is_summary(jj, bs)
}

/// The row's summary text parses and its document is decodable.
pub open spec fn row_decodes(row: (i64, String, String)) -> bool {
    json_of(row.2@) matches Some(jj) && summary_decodable(jj)
}

/// The row decodes and its update notifies with exactly this message.
pub open spec fn row_produces(
    store: SubscriptionStore,
    row: (i64, String, String),
    mainnet: bool,
    m: Message,
) -> bool {
    exists|bs: BlockSummary|
        {
            &&& #[trigger] is_row_summary(row, bs)
            &&& match spec_notification(store, row_update(row, bs), mainnet) {
                Some(n) => m.index_id == n.0 && m.user_ids@ == n.1 && m.text@ == n.2,
                None => false,
            }
        }
}

/// The row is passed over: its text does not decode, or its update matches
/// no subscriber-relevant event.
pub open spec fn row_skips(
    store: SubscriptionStore,
    row: (i64, String, String),
    mainnet: bool,
) -> bool {
    ||| !row_decodes(row)
    ||| exists|bs: BlockSummary|
        #[trigger] is_row_summary(row, bs) && spec_notification(store, row_update(row, bs), mainnet)
            is None
}

/// The messages are exactly what the rows yield, row by row in order: each
/// row either contributes its notification or is skipped.
pub open spec fn msgs_match_rows(
    store: SubscriptionStore,
    rows: Seq<(i64, String, String)>,
    msgs: Seq<Message>,
    mainnet: bool,
) -> bool
    decreases rows.len(),
{
    if rows.len() == 0 {
        msgs.len() == 0
    } else {
        ||| (msgs.len() > 0 && row_produces(store, rows[0], mainnet, msgs[0]) && msgs_match_rows(
            store,
            rows.subrange(1, rows.len() as int),
            msgs.subrange(1, msgs.len() as int),
            mainnet,
        ))
        ||| (row_skips(store, rows[0], mainnet) && msgs_match_rows(
            store,
            rows.subrange(1, rows.len() as int),
            msgs,
            mainnet,
        ))
    }
}

proof fn lemma_match_snoc_produce(
    store: SubscriptionStore,
    rows: Seq<(i64, String, String)>,
    msgs: Seq<Message>,
    row: (i64, String, String),
    m: Message,
    mainnet: bool,
)
    requires
        msgs_match_rows(store, rows, msgs, mainnet),
        row_produces(store, row, mainnet, m),
    ensures
        msgs_match_rows(store, rows.push(row), msgs.push(m), mainnet),
    decreases rows.len(),
{
    let rs = rows.push(row);
    let ms = msgs.push(m);
    if rows.len() == 0 {
        assert(msgs.len() == 0);
        assert(rs[0] == row);
        assert(ms[0] == m);
        assert(rs.subrange(1, rs.len() as int) =~= Seq::<(i64, String, String)>::empty());
        assert(ms.subrange(1, ms.len() as int) =~= Seq::<Message>::empty());
        assert(msgs_match_rows(
            store,
            rs.subrange(1, rs.len() as int),
            ms.subrange(1, ms.len() as int),
            mainnet,
        ));
    } else {
        assert(rs[0] == rows[0]);
        let rtail = rows.subrange(1, rows.len() as int);
        if msgs.len() > 0 && row_produces(store, rows[0], mainnet, msgs[0]) && msgs_match_rows(
            store,
            rtail,
            msgs.subrange(1, msgs.len() as int),
            mainnet,
        ) {
            lemma_match_snoc_produce(
                store,
                rtail,
                msgs.subrange(1, msgs.len() as int),
                row,
                m,
                mainnet,
            );
            assert(ms[0] == msgs[0]);
            assert(rs.subrange(1, rs.len() as int) =~= rtail.push(row));
            assert(ms.subrange(1, ms.len() as int) =~= msgs.subrange(
                1,
                msgs.len() as int,
            ).push(m));
            assert(msgs_match_rows(
                store,
                rs.subrange(1, rs.len() as int),
                ms.subrange(1, ms.len() as int),
                mainnet,
            ));
        } else {
            assert(row_skips(store, rows[0], mainnet) && msgs_match_rows(
                store,
                rtail,
                msgs,
                mainnet,
            ));
            lemma_match_snoc_produce(store, rtail, msgs, row, m, mainnet);
            assert(rs.subrange(1, rs.len() as int) =~= rtail.push(row));
            assert(msgs_match_rows(store, rs.subrange(1, rs.len() as int), ms, mainnet));
        }
    }
}

proof fn lemma_match_snoc_skip(
    store: SubscriptionStore,
    rows: Seq<(i64, String, String)>,
    msgs: Seq<Message>,
    row: (i64, String, String),
    mainnet: bool,
)
    requires
        msgs_match_rows(store, rows, msgs, mainnet),
        row_skips(store, row, mainnet),
    ensures
        msgs_match_rows(store, rows.push(row), msgs, mainnet),
    decreases rows.len(),
{
    let rs = rows.push(row);
    if rows.len() == 0 {
        assert(msgs.len() == 0);
        assert(rs[0] == row);
        assert(rs.subrange(1, rs.len() as int) =~= Seq::<(i64, String, String)>::empty());
        assert(msgs_match_rows(store, rs.subrange(1, rs.len() as int), msgs, mainnet));
    } else {
        assert(rs[0] == rows[0]);
        let rtail = rows.subrange(1, rows.len() as int);
        if msgs.len() > 0 && row_produces(store, rows[0], mainnet, msgs[0]) && msgs_match_rows(
            store,
            rtail,
            msgs.subrange(1, msgs.len() as int),
            mainnet,
        ) {
            lemma_match_snoc_skip(store, rtail, msgs.subrange(1, msgs.len() as int), row, mainnet);
            assert(rs.subrange(1, rs.len() as int) =~= rtail.push(row));
            assert(msgs_match_rows(
                store,
                rs.subrange(1, rs.len() as int),
                msgs.subrange(1, msgs.len() as int),
                mainnet,
            ));
        } else {
            lemma_match_snoc_skip(store, rtail, msgs, row, mainnet);
            assert(rs.subrange(1, rs.len() as int) =~= rtail.push(row));
            assert(msgs_match_rows(store, rs.subrange(1, rs.len() as int), msgs, mainnet));
        }
    }
}

/// The committed cursor after a catch-up pass: unchanged when there was no
/// baseline or no backlog, else the last row's id — whether or not that row
/// matched anyone.
pub open spec fn spec_catchup_cursor(
    cursor: Option<i64>,
    rows: Seq<(i64, String, String)>,
) -> Option<i64> {
    match cursor {
        None => None,
        Some(c) => if rows.len() == 0 {
            Some(c)
        } else {
            Some(rows.last().0)
        },
    }
}

/// Replays the backlog since the committed cursor: each row, in ascending
/// id order, is decoded, matched and turned into its notification; rows
/// that decode to nothing relevant (or to nothing at all) are skipped, yet
/// the cursor still advances to the last attempted row. With no stored
/// cursor there is no baseline and nothing is replayed.
pub fn process_updates_since_last_ati(
    store: &SubscriptionStore,
    cursor: Option<i64>,
    rows: Vec<(i64, String, String)>,
    mainnet: bool,
) -> (r: (Vec<Message>, Option<i64>))
    requires
        cursor is None ==> rows@.len() == 0,
        forall|p: int, q: int|
            0 <= p < q < rows@.len() ==> (#[trigger] rows@[p]).0 < (#[trigger] rows@[q]).0,
        cursor matches Some(c) ==> forall|k: int| 0 <= k < rows@.len() ==> (#[trigger] rows@[k]).0 > c,
    ensures
        r.1 == spec_catchup_cursor(cursor, rows@),
        msgs_match_rows(*store, rows@, r.0@, mainnet),
        forall|p: int, q: int|
            0 <= p < q < r.0@.len() ==> (#[trigger] r.0@[p]).index_id < (#[trigger] r.0@[
                q
            ]).index_id,
{
    let n = rows.len();
    let mut msgs: Vec<Message> = Vec::new();
    let mut i: usize = 0;
    proof {
        assert(rows@.subrange(0, 0) =~= Seq::<(i64, String, String)>::empty());
    }
    while i < n
        invariant
            n == rows@.len(),
            0 <= i <= n,
            forall|p: int, q: int|
                0 <= p < q < rows@.len() ==> (#[trigger] rows@[p]).0 < (#[trigger] rows@[q]).0,
            msgs_match_rows(*store, rows@.subrange(0, i as int), msgs@, mainnet),
            forall|p: int|
                0 <= p < msgs@.len() ==> exists|k: int|
                    0 <= k < i && (#[trigger] msgs@[p]).index_id == rows@[k].0,
            forall|p: int, q: int|
                0 <= p < q < msgs@.len() ==> (#[trigger] msgs@[p]).index_id < (#[trigger] msgs@[
                    q
                ]).index_id,
        decreases n - i,
    {
        let ghost prefix = rows@.subrange(0, i as int);
        let ghost old_msgs = msgs@;
        match decode_summary_text(rows[i].2.as_str()) {
            Some(bs) => {
                let ghost gbs = bs;
                let u = AccountUpdate {
                    index_id: rows[i].0,
                    account: AccountAddress::new(rows[i].1.clone()),
                    summary: bs,
                };
                proof {
                    assert(u == row_update(rows@[i as int], gbs));
                    assert(is_row_summary(rows@[i as int], gbs));
                }
                match handle_update(store, u, mainnet) {
                    Some(m) => {
                        proof {
                            assert(row_produces(*store, rows@[i as int], mainnet, m));
                            lemma_match_snoc_produce(
                                *store,
                                prefix,
                                old_msgs,
                                rows@[i as int],
                                m,
                                mainnet,
                            );
                        }
                        let ghost mid = m.index_id;
                        msgs.push(m);
                        proof {
                            assert forall|p: int, q: int|
                                0 <= p < q < msgs@.len() implies (#[trigger] msgs@[p]).index_id < (
                            #[trigger] msgs@[q]).index_id by {
                                if q == msgs@.len() - 1 {
                                    let k = choose|k: int|
                                        0 <= k < i && (#[trigger] old_msgs[p]).index_id == rows@[
                                            k
                                        ].0;
                                    assert(rows@[k].0 < rows@[i as int].0);
                                }
                            }
                        }
                    },
                    None => {
                        proof {
                            assert(row_skips(*store, rows@[i as int], mainnet));
                            lemma_match_snoc_skip(
                                *store,
                                prefix,
                                old_msgs,
                                rows@[i as int],
                                mainnet,
                            );
                        }
                    },
                }
            },
            None => {
                proof {
                    assert(!row_decodes(rows@[i as int]));
                    assert(row_skips(*store, rows@[i as int], mainnet));
                    lemma_match_snoc_skip(*store, prefix, old_msgs, rows@[i as int], mainnet);
                }
            },
        }
        proof {
            assert(rows@.subrange(0, i + 1) =~= prefix.push(rows@[i as int]));
        }
        i = i + 1;
    }
    proof {
        assert(rows@.subrange(0, n as int) =~= rows@);
    }
    let new_cursor = match cursor {
        None => None,
        Some(c) => {
            if n == 0 {
                Some(c)
            } else {
                Some(rows[n - 1].0)
            }
        },
    };
    (msgs, new_cursor)
}

} // verus!
