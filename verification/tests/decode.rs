use congruity::codec::decode_summary_text;
use congruity::db::SubscriptionStore;
use congruity::sender::Message;
use congruity::types::{AccountAddress, AccountUpdate, BlockSummary, Event, TransactionOutcome};
use congruity::updates::handle_update;

fn addr(s: &str) -> AccountAddress {
    AccountAddress::new(s.to_string())
}

fn account_json(s: &str) -> String {
    format!("{{\"type\":\"AddressAccount\",\"address\":\"{}\"}}", s)
}

fn transfer_summary(outcome: &str, events_json: &str) -> String {
    format!(
        "{{\"Left\":{{\"sender\":null,\"hash\":\"feedc0de90aa\",\"cost\":\"150\",\"energyCost\":59,\
         \"type\":{{\"type\":\"accountTransaction\",\"contents\":\"transfer\"}},\
         \"result\":{{\"outcome\":\"{}\",\"events\":{}}},\"index\":0}}}}",
        outcome, events_json
    )
}

fn transferred_event(to: &str, amount: &str) -> String {
    format!(
        "{{\"tag\":\"Transferred\",\"from\":{},\"to\":{},\"amount\":\"{}\"}}",
        account_json("senderacct"),
        account_json(to),
        amount
    )
}

fn notify(store: &SubscriptionStore, account: &str, summary: &str) -> Option<Message> {
    let decoded = decode_summary_text(summary)?;
    let update = AccountUpdate { index_id: 42, account: addr(account), summary: decoded };
    handle_update(store, update, false)
}

#[test]
fn unknown_event_tag_does_not_hide_the_transfer() {
    let mut store = SubscriptionStore::new();
    store.subscribe(9, &addr("receiveracct"));
    let events = format!(
        "[{{\"tag\":\"SomethingFromTheFuture\",\"weird\":[1,2]}},{}]",
        transferred_event("receiveracct", "1000000")
    );
    let summary = transfer_summary("success", &events);
    let msg = notify(&store, "receiveracct", &summary).expect("one notification");
    assert_eq!(msg.user_ids, vec![9]);
    assert_eq!(msg.index_id, 42);
    assert!(msg.text.starts_with("Transferred 1.000000 CCD from "));
}

#[test]
fn unknown_event_decodes_to_unhandled() {
    let events = "[{\"tag\":\"SomethingFromTheFuture\"}]";
    let summary = transfer_summary("success", events);
    let decoded = decode_summary_text(&summary).expect("summary decodes");
    match decoded {
        BlockSummary::TransactionSummary { result: TransactionOutcome::Success { events }, .. } => {
            assert!(matches!(events[0], Event::Unhandled));
        },
        _ => panic!("expected a transaction summary"),
    }
}

#[test]
fn rejected_outcome_never_notifies() {
    let mut store = SubscriptionStore::new();
    store.subscribe(9, &addr("receiveracct"));
    let events = format!("[{}]", transferred_event("receiveracct", "1000000"));
    let summary = transfer_summary("reject", &events);
    assert!(notify(&store, "receiveracct", &summary).is_none());
}

#[test]
fn contract_recipient_never_matches() {
    let mut store = SubscriptionStore::new();
    store.subscribe(9, &addr("receiveracct"));
    let events = format!(
        "[{{\"tag\":\"Transferred\",\"from\":{},\"to\":{{\"type\":\"AddressContract\",\
         \"address\":{{\"index\":5,\"subindex\":7}}}},\"amount\":\"1000000\"}}]",
        account_json("senderacct")
    );
    let summary = transfer_summary("success", &events);
    assert!(notify(&store, "receiveracct", &summary).is_none());
}

#[test]
fn irrelevant_transaction_type_never_notifies() {
    let mut store = SubscriptionStore::new();
    store.subscribe(9, &addr("receiveracct"));
    let events = format!("[{}]", transferred_event("receiveracct", "1000000"));
    let summary = format!(
        "{{\"Left\":{{\"sender\":null,\"hash\":\"feedc0de90aa\",\"cost\":\"150\",\"energyCost\":59,\
         \"type\":{{\"type\":\"accountTransaction\",\"contents\":\"deployModule\"}},\
         \"result\":{{\"outcome\":\"success\",\"events\":{}}},\"index\":0}}}}",
        events
    );
    assert!(notify(&store, "receiveracct", &summary).is_none());
}

#[test]
fn first_matching_event_wins() {
    let mut store = SubscriptionStore::new();
    store.subscribe(9, &addr("receiveracct"));
    let events = format!(
        "[{},{}]",
        transferred_event("receiveracct", "1000000"),
        transferred_event("receiveracct", "2000000")
    );
    let summary = transfer_summary("success", &events);
    let msg = notify(&store, "receiveracct", &summary).expect("one notification");
    assert!(msg.text.starts_with("Transferred 1.000000 CCD"));
}

#[test]
fn malformed_summary_is_skipped() {
    assert!(decode_summary_text("this is not json").is_none());
    assert!(decode_summary_text("{\"Middle\":{}}").is_none());
    let bad_amount = transfer_summary(
        "success",
        &format!("[{}]", transferred_event("receiveracct", "not-a-number")),
    );
    assert!(decode_summary_text(&bad_amount).is_none());
}

#[test]
fn baking_reward_notifies_the_bakers_subscribers() {
    let mut store = SubscriptionStore::new();
    store.subscribe(3, &addr("bakeraccount"));
    let summary = "{\"Right\":{\"tag\":\"BakingRewards\",\"bakerRewards\":[\
                   {\"address\":\"otherbaker\",\"amount\":\"5\"},\
                   {\"address\":\"bakeraccount\",\"amount\":\"2500000\"}]}}";
    let msg = notify(&store, "bakeraccount", summary).expect("reward notification");
    assert_eq!(msg.user_ids, vec![3]);
    assert_eq!(msg.text, "Baker reward 2.500000 CCD");
}

#[test]
fn mint_and_other_special_outcomes_are_inert() {
    let mut store = SubscriptionStore::new();
    store.subscribe(3, &addr("bakeraccount"));
    let summary = "{\"Right\":{\"tag\":\"Mint\"}}";
    assert!(notify(&store, "bakeraccount", summary).is_none());
}

#[test]
fn missing_sender_field_is_tolerated() {
    let mut store = SubscriptionStore::new();
    store.subscribe(9, &addr("receiveracct"));
    let events = format!("[{}]", transferred_event("receiveracct", "1000000"));
    let summary = format!(
        "{{\"Left\":{{\"hash\":\"feedc0de90aa\",\"cost\":\"150\",\"energyCost\":59,\
         \"type\":{{\"type\":\"accountTransaction\",\"contents\":\"transfer\"}},\
         \"result\":{{\"outcome\":\"success\",\"events\":{}}},\"index\":0}}}}",
        events
    );
    let msg = notify(&store, "receiveracct", &summary).expect("notification");
    assert!(!msg.text.contains("Sender:"));
}

#[test]
fn present_sender_appears_in_the_text() {
    let mut store = SubscriptionStore::new();
    store.subscribe(9, &addr("receiveracct"));
    let events = format!("[{}]", transferred_event("receiveracct", "1000000"));
    let summary = format!(
        "{{\"Left\":{{\"sender\":\"senderacct\",\"hash\":\"feedc0de90aa\",\"cost\":\"150\",\
         \"energyCost\":59,\"type\":{{\"type\":\"accountTransaction\",\"contents\":\"transfer\"}},\
         \"result\":{{\"outcome\":\"success\",\"events\":{}}},\"index\":0}}}}",
        events
    );
    let msg = notify(&store, "receiveracct", &summary).expect("notification");
    assert!(msg.text.contains("Sender: "));
}

#[test]
fn scheduled_transfer_reports_the_total() {
    let mut store = SubscriptionStore::new();
    store.subscribe(9, &addr("receiveracct"));
    let events = format!(
        "[{{\"tag\":\"TransferredWithSchedule\",\"from\":{},\"to\":{},\
         \"amount\":[[1600000000,\"400000\"],[1700000000,\"600000\"]]}}]",
        account_json("senderacct"),
        account_json("receiveracct")
    );
    let summary = format!(
        "{{\"Left\":{{\"sender\":null,\"hash\":\"feedc0de90aa\",\"cost\":\"150\",\"energyCost\":59,\
         \"type\":{{\"type\":\"accountTransaction\",\"contents\":\"transferWithSchedule\"}},\
         \"result\":{{\"outcome\":\"success\",\"events\":{}}},\"index\":0}}}}",
        events
    );
    let msg = notify(&store, "receiveracct", &summary).expect("notification");
    assert!(msg.text.starts_with("Transferred with schedule 1.000000 CCD from "));
}
