use congruity::db::SubscriptionStore;
use congruity::sender::{delivery_actions, DeliveryAction, Message};
use congruity::types::AccountAddress;
use congruity::updates::{decode_update, parse_payload, process_updates_since_last_ati};

fn addr(s: &str) -> AccountAddress {
    AccountAddress::new(s.to_string())
}

fn account_json(s: &str) -> String {
    format!("{{\"type\":\"AddressAccount\",\"address\":\"{}\"}}", s)
}

fn transfer_to(to: &str) -> String {
    format!(
        "{{\"Left\":{{\"sender\":null,\"hash\":\"feedc0de90aa\",\"cost\":\"150\",\"energyCost\":59,\
         \"type\":{{\"type\":\"accountTransaction\",\"contents\":\"transfer\"}},\
         \"result\":{{\"outcome\":\"success\",\"events\":[{{\"tag\":\"Transferred\",\
         \"from\":{},\"to\":{},\"amount\":\"1000000\"}}]}},\"index\":0}}}}",
        account_json("senderacct"),
        account_json(to)
    )
}

#[test]
fn catch_up_processes_rows_in_order_and_commits_the_last_id() {
    let mut store = SubscriptionStore::new();
    store.subscribe(9, &addr("watchedacct"));
    let rows = vec![
        (5i64, "coldacct".to_string(), transfer_to("coldacct")),
        (7i64, "coldacct".to_string(), transfer_to("coldacct")),
        (9i64, "watchedacct".to_string(), transfer_to("watchedacct")),
    ];
    let (msgs, cursor) = process_updates_since_last_ati(&store, Some(3), rows, false);
    assert_eq!(cursor, Some(9));
    assert_eq!(msgs.len(), 1);
    assert_eq!(msgs[0].index_id, 9);
    assert_eq!(msgs[0].user_ids, vec![9]);
}

#[test]
fn catch_up_cursor_advances_even_when_nothing_matches() {
    let store = SubscriptionStore::new();
    let rows = vec![
        (5i64, "coldacct".to_string(), transfer_to("coldacct")),
        (7i64, "coldacct".to_string(), transfer_to("coldacct")),
        (9i64, "coldacct".to_string(), transfer_to("coldacct")),
    ];
    let (msgs, cursor) = process_updates_since_last_ati(&store, Some(3), rows, false);
    assert!(msgs.is_empty());
    assert_eq!(cursor, Some(9));
}

#[test]
fn catch_up_without_a_stored_cursor_replays_nothing() {
    let store = SubscriptionStore::new();
    let (msgs, cursor) = process_updates_since_last_ati(&store, None, vec![], false);
    assert!(msgs.is_empty());
    assert_eq!(cursor, None);
}

#[test]
fn catch_up_with_empty_backlog_keeps_the_cursor() {
    let store = SubscriptionStore::new();
    let (msgs, cursor) = process_updates_since_last_ati(&store, Some(11), vec![], false);
    assert!(msgs.is_empty());
    assert_eq!(cursor, Some(11));
}

#[test]
fn catch_up_skips_a_malformed_row_and_goes_on() {
    let mut store = SubscriptionStore::new();
    store.subscribe(9, &addr("watchedacct"));
    let rows = vec![
        (5i64, "watchedacct".to_string(), "{broken".to_string()),
        (9i64, "watchedacct".to_string(), transfer_to("watchedacct")),
    ];
    let (msgs, cursor) = process_updates_since_last_ati(&store, Some(3), rows, false);
    assert_eq!(msgs.len(), 1);
    assert_eq!(msgs[0].index_id, 9);
    assert_eq!(cursor, Some(9));
}

#[test]
fn fan_out_sends_to_each_subscriber_and_commits_once() {
    let mut store = SubscriptionStore::new();
    store.subscribe(1, &addr("watchedacct"));
    store.subscribe(2, &addr("watchedacct"));
    store.subscribe(3, &addr("watchedacct"));
    let rows = vec![(21i64, "watchedacct".to_string(), transfer_to("watchedacct"))];
    let (msgs, _) = process_updates_since_last_ati(&store, Some(3), rows, false);
    assert_eq!(msgs.len(), 1);
    assert_eq!(msgs[0].user_ids, vec![1, 2, 3]);
    let actions = delivery_actions(&msgs[0]);
    assert_eq!(actions.len(), 4);
    let sends = actions
        .iter()
        .filter(|a| matches!(a, DeliveryAction::Send { .. }))
        .count();
    let commits: Vec<i64> = actions
        .iter()
        .filter_map(|a| match a {
            DeliveryAction::CommitCursor { index_id } => Some(*index_id),
            _ => None,
        })
        .collect();
    assert_eq!(sends, 3);
    assert_eq!(commits, vec![21]);
    assert!(matches!(actions[3], DeliveryAction::CommitCursor { .. }));
}

#[test]
fn payload_parses_and_normalizes_the_hex_address() {
    let bytes: Vec<u8> = (0u8..32u8).collect();
    let normalized = AccountAddress::from_bytes(&bytes);
    let hex: String = bytes.iter().map(|b| format!("{:02x}", b)).collect();
    let summary = transfer_to(normalized.address());
    let payload = format!("17|\\x{}|{}", hex, summary);
    let (index_id, address, summary_text) = parse_payload(&payload).expect("payload parses");
    assert_eq!(index_id, 17);
    assert_eq!(address, normalized.address());
    assert_eq!(summary_text, summary);
}

#[test]
fn hex_and_structured_address_forms_match_the_same_way() {
    let bytes: Vec<u8> = (0u8..32u8).collect();
    let normalized = AccountAddress::from_bytes(&bytes);
    let mut store = SubscriptionStore::new();
    store.subscribe(9, &normalized);
    // the payload carries the account as raw hex; the summary carries the
    // same account as a structured address object
    let hex: String = bytes.iter().map(|b| format!("{:02x}", b)).collect();
    let payload = format!("17|\\x{}|{}", hex, transfer_to(normalized.address()));
    let update = decode_update(&payload).expect("payload decodes");
    let msg: Message =
        congruity::updates::handle_update(&store, update, false).expect("notification");
    assert_eq!(msg.user_ids, vec![9]);
    assert_eq!(msg.index_id, 17);
}

#[test]
fn malformed_payloads_are_refused() {
    assert!(parse_payload("no bars here").is_none());
    assert!(parse_payload("12|onlyonebar").is_none());
    assert!(parse_payload("abc|\\x0011|{}").is_none());
    assert!(parse_payload("12|\\xzz11|{}").is_none());
    assert!(parse_payload("12|\\x0011|{}").is_none());
}
