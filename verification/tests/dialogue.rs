use congruity::db::SubscriptionStore;
use congruity::states::{Dialogue, ReceiveAddressState, StartState};
use congruity::transitions::{apply_event, no_text_reply, Action};
use congruity::types::AccountAddress;

fn valid_address() -> AccountAddress {
    let bytes: Vec<u8> = (10u8..42u8).collect();
    AccountAddress::from_bytes(&bytes)
}

fn reply_text(a: &Action) -> &str {
    match a {
        Action::Reply(s) => s.as_str(),
        _ => panic!("expected a plain reply"),
    }
}

#[test]
fn subscribe_flow_adds_the_row_and_replies() {
    let mut store = SubscriptionStore::new();
    let addr = valid_address();
    let d0 = Dialogue::default();
    let (d1, a1) = apply_event(d0, 7, "/subscribe", &mut store);
    assert_eq!(d1, Dialogue::ReceiveAddress(ReceiveAddressState::Subscribe));
    assert_eq!(reply_text(&a1), "OK, send me address of the account");
    let (d2, a2) = apply_event(d1, 7, addr.address(), &mut store);
    assert_eq!(d2, Dialogue::Start(StartState));
    assert_eq!(reply_text(&a2), "Subscribed successfully");
    assert_eq!(store.subscriber_ids(addr.address()).unwrap(), vec![7]);
    // subscribing the same pair again is reported, not repeated
    let (d3, _) = apply_event(d2, 7, "/subscribe", &mut store);
    let (_, a4) = apply_event(d3, 7, addr.address(), &mut store);
    assert_eq!(reply_text(&a4), "You're already subscribed for this address");
    assert_eq!(store.subscriber_ids(addr.address()).unwrap(), vec![7]);
}

#[test]
fn invalid_address_is_rejected_without_touching_the_store() {
    let mut store = SubscriptionStore::new();
    let (d1, _) = apply_event(Dialogue::default(), 7, "/subscribe", &mut store);
    let (d2, a2) = apply_event(d1, 7, "definitely not an address", &mut store);
    assert_eq!(d2, Dialogue::Start(StartState));
    assert_eq!(reply_text(&a2), "Invalid account address");
    assert!(store.subscriptions(7).is_empty());
}

#[test]
fn unsubscribe_offers_the_keyboard_and_all() {
    let mut store = SubscriptionStore::new();
    let a = valid_address();
    let bytes: Vec<u8> = (50u8..82u8).collect();
    let b = AccountAddress::from_bytes(&bytes);
    store.subscribe(7, &a);
    store.subscribe(7, &b);
    let (d1, action) = apply_event(Dialogue::default(), 7, "/unsubscribe", &mut store);
    assert_eq!(d1, Dialogue::ReceiveAddress(ReceiveAddressState::Unsubscribe));
    match action {
        Action::ReplyWithKeyboard(text, labels) => {
            assert_eq!(text, "OK, send me address of the account");
            assert_eq!(
                labels,
                vec![a.address().to_string(), b.address().to_string(), "all".to_string()]
            );
        },
        _ => panic!("expected a keyboard"),
    }
    let (_, a2) = apply_event(d1, 7, "all", &mut store);
    assert_eq!(reply_text(&a2), "Unsubscribed successfully");
    assert!(store.subscriptions(7).is_empty());
}

#[test]
fn unsubscribe_single_address_flow() {
    let mut store = SubscriptionStore::new();
    let a = valid_address();
    store.subscribe(7, &a);
    let (d1, _) = apply_event(Dialogue::default(), 7, "/unsubscribe", &mut store);
    let (_, a2) = apply_event(d1, 7, a.address(), &mut store);
    assert_eq!(reply_text(&a2), "Unsubscribed successfully");
    let (d3, _) = apply_event(Dialogue::default(), 7, "/subscribe", &mut store);
    let (_, _) = apply_event(d3, 7, a.address(), &mut store);
    let (d5, _) = apply_event(Dialogue::default(), 7, "/unsubscribe", &mut store);
    let bytes: Vec<u8> = (60u8..92u8).collect();
    let other = AccountAddress::from_bytes(&bytes);
    let (_, a6) = apply_event(d5, 7, other.address(), &mut store);
    assert_eq!(reply_text(&a6), "You're not subscribed for this address");
}

#[test]
fn subscriptions_command_lists_or_reports_none() {
    let mut store = SubscriptionStore::new();
    let (_, a1) = apply_event(Dialogue::default(), 7, "/subscriptions", &mut store);
    assert_eq!(reply_text(&a1), "No subscriptions were found");
    let a = valid_address();
    store.subscribe(7, &a);
    let (_, a2) = apply_event(Dialogue::default(), 7, "/subscriptions", &mut store);
    assert_eq!(reply_text(&a2), a.address());
}

#[test]
fn balance_flow_hands_the_address_back_as_an_action() {
    let mut store = SubscriptionStore::new();
    let a = valid_address();
    let (d1, _) = apply_event(Dialogue::default(), 7, "/balance", &mut store);
    assert_eq!(d1, Dialogue::ReceiveAddress(ReceiveAddressState::Balance));
    let (d2, action) = apply_event(d1, 7, a.address(), &mut store);
    assert_eq!(d2, Dialogue::Start(StartState));
    match action {
        Action::FetchBalance(got) => assert_eq!(got.address(), a.address()),
        _ => panic!("expected a balance fetch"),
    }
}

#[test]
fn chatter_and_unknown_commands_get_fixed_replies() {
    let mut store = SubscriptionStore::new();
    let (d1, a1) = apply_event(Dialogue::default(), 7, "hello there", &mut store);
    assert_eq!(d1, Dialogue::default());
    assert_eq!(reply_text(&a1), "Don't understand \u{1f937}\u{200d}\u{2642}\u{fe0f}");
    let (_, a2) = apply_event(Dialogue::default(), 7, "/frobnicate", &mut store);
    assert_eq!(reply_text(&a2), "Unknown command");
    let (_, a3) = apply_event(Dialogue::default(), 7, "/help", &mut store);
    assert!(reply_text(&a3).contains("/balance - get current balance for an address"));
    assert_eq!(no_text_reply(), "Send me a command");
}
