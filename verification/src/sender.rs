//! The delivery side: one queued notification, and the plan the delivery
//! worker executes for it — one send per recipient, then exactly one cursor
//! commit, in that order. A recipient that cannot be reached must not block
//! the others or the commit, so the plan is a flat list of independent
//! actions.

use vstd::prelude::*;

verus! {

/// One notification waiting for delivery: the cursor value to commit after
/// the attempt, the recipients, and the text.
#[derive(Debug)]
pub struct Message {
    pub index_id: i64,
    pub user_ids: Vec<i64>,
    pub text: String,
}

impl Message {
    pub fn new(index_id: i64, user_ids: Vec<i64>, text: String) -> (r: Self)
        ensures
            r.index_id == index_id,
            r.user_ids == user_ids,
            r.text == text,
    {
        Self { index_id, user_ids, text }
    }
}

/// One step of the delivery worker.
#[derive(Debug)]
pub enum DeliveryAction {
    /// Send the text to one recipient; a failure is logged and swallowed.
    Send { user_id: i64, text: String },
    /// Persist the committed cursor.
    CommitCursor { index_id: i64 },
}

/// The worker's plan for one message: a send to every recipient in order,
/// then one cursor commit — however many recipients there are, the cursor
/// is committed exactly once, after all attempts.
pub fn delivery_actions(msg: &Message) -> (r: Vec<DeliveryAction>)
    ensures
        r@.len() == msg.user_ids@.len() + 1,
        forall|k: int|
            0 <= k < msg.user_ids@.len() ==> ((#[trigger] r@[k]) matches DeliveryAction::Send {
                user_id,
                text,
            } && user_id == msg.user_ids@[k] && text@ == msg.text@),
        r@.last() matches DeliveryAction::CommitCursor { index_id } && index_id == msg.index_id,
{
    let n = msg.user_ids.len();
    let mut r: Vec<DeliveryAction> = Vec::new();
    let mut i: usize = 0;
    while i < n
        invariant
            n == msg.user_ids@.len(),
            0 <= i <= n,
            r@.len() == i,
            forall|k: int|
                0 <= k < i ==> ((#[trigger] r@[k]) matches DeliveryAction::Send { user_id, text }
                    && user_id == msg.user_ids@[k] && text@ == msg.text@),
        decreases n - i,
    {
        r.push(DeliveryAction::Send { user_id: msg.user_ids[i], text: msg.text.clone() });
        i = i + 1;
    }
    r.push(DeliveryAction::CommitCursor { index_id: msg.index_id });
    r
}

} // verus!
