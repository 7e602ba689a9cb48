//! The dialogue state machine: one step per received message, from state
//! and text to the next state, the store mutation it implies, and the
//! action the front-end must carry out. The front-end only performs
//! actions; every decision is taken here.

use vstd::prelude::*;
use crate::command::{Command, parse_command, spec_parse_command, help_text, spec_help_text};
use crate::db::{SubscriptionStore, accounts_of};
use crate::states::{Dialogue, ReceiveAddressState, StartState};
use crate::types::AccountAddress;
use crate::types::account_address::valid_address_str;
use crate::utils::str_is;

verus! {

/// What the front-end must do after one message.
#[derive(Debug)]
pub enum Action {
    /// Send this reply.
    Reply(String),
    /// Send this reply together with a one-time keyboard of these button
    /// labels.
    ReplyWithKeyboard(String, Vec<String>),
    /// Fetch this account's balance over the node RPC and reply with the
    /// result.
    FetchBalance(AccountAddress),
}

pub open spec fn is_reply(a: Action, t: Seq<char>) -> bool {
    a matches Action::Reply(s) && s@ == t
}

/// Lines joined by newlines.
pub open spec fn join_lines(xs: Seq<Seq<char>>) -> Seq<char>
    decreases xs.len(),
{
    if xs.len() == 0 {
        Seq::empty()
    } else if xs.len() == 1 {
        xs[0]
    } else {
        join_lines(xs.drop_last()) + "\n"@ + xs.last()
    }
}

fn join_strings(xs: &Vec<String>) -> (r: String)
    ensures
        r@ == join_lines(xs@.map_values(|s: String| s@)),
{
    let n = xs.len();
    let mut r = String::new();
    let mut i: usize = 0;
    proof {
        assert(xs@.subrange(0, 0).map_values(|s: String| s@) =~= Seq::<Seq<char>>::empty());
    }
    while i < n
        invariant
            n == xs@.len(),
            0 <= i <= n,
            r@ == join_lines(xs@.subrange(0, i as int).map_values(|s: String| s@)),
        decreases n - i,
    {
        if i > 0 {
            r.append("\n");
        }
        r.append(xs[i].as_str());
        proof {
            let prev = xs@.subrange(0, i as int).map_values(|s: String| s@);
            let cur = xs@.subrange(0, i + 1).map_values(|s: String| s@);
            assert(cur.drop_last() =~= prev);
            assert(cur.last() == xs@[i as int]@);
            if i == 0 {
                assert(r@ =~= cur[0]);
            } else {
                assert(r@ =~= join_lines(prev) + "\n"@ + cur.last());
            }
        }
        i = i + 1;
    }
    proof {
        assert(xs@.subrange(0, n as int) =~= xs@);
    }
    r
}

/// The keyboard labels offered for unsubscribing: every subscribed
/// account, and "all" when there is more than one.
pub open spec fn unsubscribe_labels(subs: Seq<Seq<char>>) -> Seq<Seq<char>> {
    if subs.len() > 1 {
        subs.push("all"@)
    } else {
        subs
    }
}

/// What one dialogue step settles, case by case: the next state, how the
/// store changed, and the action owed to the front-end.
pub open spec fn transition_post(
    d: Dialogue,
    user_id: i64,
    text: Seq<char>,
    pre: SubscriptionStore,
    post: SubscriptionStore,
    d2: Dialogue,
    action: Action,
) -> bool {
    match d {
        Dialogue::Start(_) => {
            &&& post == pre
            &&& if text.len() > 0 && text[0] == '/' {
                match spec_parse_command(text) {
                    None => d2 == d && is_reply(action, "Unknown command"@),
                    Some(Command::Start) => d2 == d && is_reply(action, spec_help_text()),
                    Some(Command::Help) => d2 == d && is_reply(action, spec_help_text()),
                    Some(Command::Balance) => d2 == Dialogue::ReceiveAddress(
                        ReceiveAddressState::Balance,
                    ) && is_reply(action, "OK, send me address of the account"@),
                    Some(Command::Subscribe) => d2 == Dialogue::ReceiveAddress(
                        ReceiveAddressState::Subscribe,
                    ) && is_reply(action, "OK, send me address of the account"@),
                    Some(Command::Subscriptions) => d2 == d && is_reply(
                        action,
                        if accounts_of(pre.rows@, user_id).len() > 0 {
                            join_lines(accounts_of(pre.rows@, user_id))
                        } else {
                            "No subscriptions were found"@
                        },
                    ),
                    Some(Command::Unsubscribe) => if accounts_of(pre.rows@, user_id).len() == 0 {
                        d2 == d && is_reply(action, "No subscriptions were found"@)
                    } else {
                        &&& d2 == Dialogue::ReceiveAddress(ReceiveAddressState::Unsubscribe)
                        &&& action matches Action::ReplyWithKeyboard(s, labels)
                        &&& s@ == "OK, send me address of the account"@
                        &&& labels@.map_values(|l: String| l@) == unsubscribe_labels(
                            accounts_of(pre.rows@, user_id),
                        )
                    },
                }
            } else {
                d2 == d && is_reply(action, "Don't understand \u{1f937}\u{200d}\u{2642}\u{fe0f}"@)
            }
        },
        Dialogue::ReceiveAddress(p) => {
            &&& d2 == Dialogue::Start(StartState)
            &&& if p == ReceiveAddressState::Unsubscribe && text == "all"@ {
                &&& SubscriptionStore::unsubscribe_all_post(
                    pre,
                    post,
                    user_id,
                    pre.has_user(user_id),
                )
                &&& is_reply(
                    action,
                    if pre.has_user(user_id) {
                        "Unsubscribed successfully"@
                    } else {
                        "No subscriptions were found"@
                    },
                )
            } else if !valid_address_str(text) {
                post == pre && is_reply(action, "Invalid account address"@)
            } else {
                match p {
                    ReceiveAddressState::Balance => {
                        &&& post == pre
                        &&& action matches Action::FetchBalance(a) && a@ == text
                    },
                    ReceiveAddressState::Subscribe => {
                        &&& SubscriptionStore::subscribe_post(
                            pre,
                            post,
                            user_id,
                            text,
                            !pre.has_row(user_id, text),
                        )
                        &&& is_reply(
                            action,
                            if !pre.has_row(user_id, text) {
                                "Subscribed successfully"@
                            } else {
                                "You're already subscribed for this address"@
                            },
                        )
                    },
                    ReceiveAddressState::Unsubscribe => {
                        &&& SubscriptionStore::unsubscribe_post(
                            pre,
                            post,
                            user_id,
                            text,
                            pre.has_row(user_id, text),
                        )
                        &&& is_reply(
                            action,
                            if pre.has_row(user_id, text) {
                                "Unsubscribed successfully"@
                            } else {
                                "You're not subscribed for this address"@
                            },
                        )
                    },
                }
            }
        },
    }
}

/// Advances one chat's dialogue by one received message, mutating the
/// subscription store where the message completes a subscribe or
/// unsubscribe, and says what the front-end must do next.
pub fn apply_event(d: Dialogue, user_id: i64, text: &str, store: &mut SubscriptionStore) -> (r: (
    Dialogue,
    Action,
))
    requires
        old(store).wf(),
    ensures
        transition_post(d, user_id, text@, *old(store), *final(store), r.0, r.1),
        final(store).wf(),
{
    match d {
        Dialogue::Start(_) => {
            let n = text.unicode_len();
            let is_cmd = n > 0 && text.get_char(0) == '/';
            if is_cmd {
                match parse_command(text) {
                    None => (d, Action::Reply(String::from_str("Unknown command"))),
                    Some(Command::Start) => (d, Action::Reply(help_text())),
                    Some(Command::Help) => (d, Action::Reply(help_text())),
                    Some(Command::Balance) => (
                        Dialogue::ReceiveAddress(ReceiveAddressState::Balance),
                        Action::Reply(String::from_str("OK, send me address of the account")),
                    ),
                    Some(Command::Subscribe) => (
                        Dialogue::ReceiveAddress(ReceiveAddressState::Subscribe),
                        Action::Reply(String::from_str("OK, send me address of the account")),
                    ),
                    Some(Command::Subscriptions) => {
                        let subs = store.subscriptions(user_id);
                        if subs.len() > 0 {
                            let joined = join_strings(&subs);
                            proof {
                                assert(subs@.map_values(|s: String| s@) =~= accounts_of(
                                    store.rows@,
                                    user_id,
                                ));
                            }
                            (d, Action::Reply(joined))
                        } else {
                            (d, Action::Reply(String::from_str("No subscriptions were found")))
                        }
                    },
                    Some(Command::Unsubscribe) => {
                        let mut subs = store.subscriptions(user_id);
                        if subs.len() == 0 {
                            (d, Action::Reply(String::from_str("No subscriptions were found")))
                        } else {
                            let ghost plain = subs@.map_values(|s: String| s@);
                            proof {
                                assert(plain =~= accounts_of(store.rows@, user_id));
                            }
                            if subs.len() > 1 {
                                subs.push(String::from_str("all"));
                            }
                            proof {
                                assert(subs@.map_values(|l: String| l@) =~= unsubscribe_labels(
                                    accounts_of(store.rows@, user_id),
                                ));
                            }
                            (
                                Dialogue::ReceiveAddress(ReceiveAddressState::Unsubscribe),
                                Action::ReplyWithKeyboard(
                                    String::from_str("OK, send me address of the account"),
                                    subs,
                                ),
                            )
                        }
                    },
                }
            } else {
                (
                    d,
                    Action::Reply(
                        String::from_str("Don't understand \u{1f937}\u{200d}\u{2642}\u{fe0f}"),
                    ),
                )
            }
        },
        Dialogue::ReceiveAddress(p) => {
            let t: String = text.to_owned();
            let is_all = match p {
                ReceiveAddressState::Unsubscribe => str_is(&t, "all"),
                _ => false,
            };
            if is_all {
                let applied = store.unsubscribe_all(user_id);
                let reply = if applied {
                    String::from_str("Unsubscribed successfully")
                } else {
                    String::from_str("No subscriptions were found")
                };
                (Dialogue::Start(StartState), Action::Reply(reply))
            } else {
                match AccountAddress::from_str(text) {
                    Err(_) => (
                        Dialogue::Start(StartState),
                        Action::Reply(String::from_str("Invalid account address")),
                    ),
                    Ok(addr) => match p {
                        ReceiveAddressState::Balance => (
                            Dialogue::Start(StartState),
                            Action::FetchBalance(addr),
                        ),
                        ReceiveAddressState::Subscribe => {
                            let applied = store.subscribe(user_id, &addr);
                            let reply = if applied {
                                String::from_str("Subscribed successfully")
                            } else {
                                String::from_str("You're already subscribed for this address")
                            };
                            (Dialogue::Start(StartState), Action::Reply(reply))
                        },
                        ReceiveAddressState::Unsubscribe => {
                            let applied = store.unsubscribe(user_id, &addr);
                            let reply = if applied {
                                String::from_str("Unsubscribed successfully")
                            } else {
                                String::from_str("You're not subscribed for this address")
                            };
                            (Dialogue::Start(StartState), Action::Reply(reply))
                        },
                    },
                }
            }
        },
    }
}

/// The reply to a message that carries no text at all.
pub fn no_text_reply() -> (r: String)
    ensures
        r@ == "Send me a command"@,
{
    String::from_str("Send me a command")
}

} // verus!
