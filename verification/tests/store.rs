use congruity::db::{SubscriptionRow, SubscriptionStore};
use congruity::types::AccountAddress;

fn addr(s: &str) -> AccountAddress {
    AccountAddress::new(s.to_string())
}

#[test]
fn subscribe_applies_then_reports_duplicate() {
    let mut store = SubscriptionStore::new();
    let a = addr("accountone");
    assert!(store.subscribe(7, &a));
    assert!(!store.subscribe(7, &a));
    let ids = store.subscriber_ids("accountone").expect("entry exists");
    assert_eq!(ids, vec![7]);
    assert_eq!(ids.iter().filter(|u| **u == 7).count(), 1);
}

#[test]
fn subscribe_two_users_fans_out_to_both() {
    let mut store = SubscriptionStore::new();
    let a = addr("accountone");
    assert!(store.subscribe(1, &a));
    assert!(store.subscribe(2, &a));
    let ids = store.subscriber_ids("accountone").unwrap();
    assert_eq!(ids, vec![1, 2]);
}

#[test]
fn unsubscribe_removes_row_and_index_entry() {
    let mut store = SubscriptionStore::new();
    let a = addr("accountone");
    let b = addr("accounttwo");
    assert!(store.subscribe(1, &a));
    assert!(store.subscribe(1, &b));
    assert!(store.unsubscribe(1, &a));
    assert!(!store.unsubscribe(1, &a));
    let ids = store.subscriber_ids("accountone").unwrap_or_default();
    assert!(ids.is_empty());
    assert_eq!(store.subscriber_ids("accounttwo").unwrap(), vec![1]);
}

#[test]
fn unsubscribe_all_clears_every_account_of_the_user() {
    let mut store = SubscriptionStore::new();
    let a = addr("accountone");
    let b = addr("accounttwo");
    assert!(store.subscribe(1, &a));
    assert!(store.subscribe(1, &b));
    assert!(store.subscribe(2, &a));
    assert!(store.unsubscribe_all(1));
    assert!(!store.unsubscribe_all(1));
    assert_eq!(store.subscriber_ids("accountone").unwrap(), vec![2]);
    assert!(store.subscriber_ids("accounttwo").unwrap_or_default().is_empty());
}

#[test]
fn subscriptions_lists_accounts_in_row_order() {
    let mut store = SubscriptionStore::new();
    store.subscribe(5, &addr("first"));
    store.subscribe(5, &addr("second"));
    store.subscribe(6, &addr("third"));
    assert_eq!(store.subscriptions(5), vec!["first".to_string(), "second".to_string()]);
    assert_eq!(store.subscriptions(6), vec!["third".to_string()]);
    assert!(store.subscriptions(7).is_empty());
}

#[test]
fn subscriber_ids_of_unknown_account_is_none() {
    let store = SubscriptionStore::new();
    assert!(store.subscriber_ids("nobody").is_none());
}

#[test]
fn rebuild_index_matches_incremental_updates() {
    let mut store = SubscriptionStore::new();
    store.subscribe(1, &addr("accountone"));
    store.subscribe(2, &addr("accountone"));
    store.subscribe(2, &addr("accounttwo"));
    store.unsubscribe(1, &addr("accountone"));
    let before_one = store.subscriber_ids("accountone").unwrap_or_default();
    let before_two = store.subscriber_ids("accounttwo").unwrap_or_default();
    let rebuilt = store.rebuild_index();
    let mut after_one = rebuilt.subscriber_ids("accountone").unwrap_or_default();
    let mut after_two = rebuilt.subscriber_ids("accounttwo").unwrap_or_default();
    let mut sorted_one = before_one.clone();
    sorted_one.sort();
    after_one.sort();
    let mut sorted_two = before_two.clone();
    sorted_two.sort();
    after_two.sort();
    assert_eq!(sorted_one, after_one);
    assert_eq!(sorted_two, after_two);
}

#[test]
fn load_subscriptions_builds_the_index_from_rows() {
    let rows = vec![
        SubscriptionRow { user_id: 1, account: "accountone".to_string() },
        SubscriptionRow { user_id: 2, account: "accountone".to_string() },
        SubscriptionRow { user_id: 1, account: "accounttwo".to_string() },
    ];
    let store = SubscriptionStore::load_subscriptions(rows);
    assert_eq!(store.subscriber_ids("accountone").unwrap(), vec![1, 2]);
    assert_eq!(store.subscriber_ids("accounttwo").unwrap(), vec![1]);
}
