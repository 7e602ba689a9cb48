//! The subscription store: the authoritative rows `(user_id, account)` and
//! the derived fan-out index `account -> user ids`, kept consistent on every
//! mutation. The rows are the source of truth; the index is a rebuildable
//! cache and is never trusted against them.

use vstd::prelude::*;
use crate::types::AccountAddress;

verus! {

/// One authoritative subscription row.
#[derive(Debug)]
pub struct SubscriptionRow {
    pub user_id: i64,
    pub account: String,
}

/// One derived-index entry: the subscribers of one account.
#[derive(Debug)]
pub struct IndexEntry {
    pub account: String,
    pub user_ids: Vec<i64>,
}

/// The authoritative subscription rows and the derived fan-out index.
#[derive(Debug)]
pub struct SubscriptionStore {
    pub rows: Vec<SubscriptionRow>,
    pub index: Vec<IndexEntry>,
}

/// The subscriber list under account `a`: the first entry with that key (a
/// well-formed index holds each key once).
pub open spec fn entries_lookup(entries: Seq<IndexEntry>, a: Seq<char>) -> Option<Seq<i64>>
    decreases entries.len(),
{
    if entries.len() == 0 {
        None
    } else if entries[0].account@ == a {
        Some(entries[0].user_ids@)
    } else {
        entries_lookup(entries.subrange(1, entries.len() as int), a)
    }
}

pub open spec fn entry_keys_unique(entries: Seq<IndexEntry>) -> bool {
    forall|i: int, j: int|
        0 <= i < j < entries.len() ==> (#[trigger] entries[i].account@) != (
        #[trigger] entries[j].account@)
}

impl SubscriptionStore {
    /// A live subscription row for `(u, a)` exists.
    pub open spec fn has_row(self, u: i64, a: Seq<char>) -> bool {
        exists|i: int|
            0 <= i < self.rows@.len() && (#[trigger] self.rows@[i]).user_id == u
                && self.rows@[i].account@ == a
    }

    /// The rows as plain pairs, in storage order.
    pub open spec fn rows_view(self) -> Seq<(i64, Seq<char>)> {
        self.rows@.map(|i: int, r: SubscriptionRow| (r.user_id, r.account@))
    }

    pub open spec fn idx_lookup(self, a: Seq<char>) -> Option<Seq<i64>> {
        entries_lookup(self.index@, a)
    }

    /// The derived index lists `u` under `a`.
    pub open spec fn index_has(self, a: Seq<char>, u: i64) -> bool {
        match self.idx_lookup(a) {
            Some(ids) => ids.contains(u),
            None => false,
        }
    }

    pub open spec fn rows_unique(self) -> bool {
        forall|i: int, j: int|
            0 <= i < j < self.rows@.len() ==> !((#[trigger] self.rows@[i]).user_id == (
            #[trigger] self.rows@[j]).user_id && self.rows@[i].account@ == self.rows@[j].account@)
    }

    pub open spec fn ids_unique(self) -> bool {
        forall|e: int, i: int, j: int|
            0 <= e < self.index@.len() && 0 <= i < j < self.index@[e].user_ids@.len()
                ==> (#[trigger] self.index@[e].user_ids@[i]) != (#[trigger] self.index@[
                e
            ].user_ids@[j])
    }

    /// Every listed subscriber has a live row, and every live row is listed:
    /// the derived index agrees with the authoritative rows.
    pub open spec fn consistent(self) -> bool {
        &&& forall|e: int, k: int|
            0 <= e < self.index@.len() && 0 <= k < self.index@[e].user_ids@.len()
                ==> self.has_row(#[trigger] self.index@[e].user_ids@[k], self.index@[e].account@)
        &&& forall|i: int|
            0 <= i < self.rows@.len() ==> self.index_has(
                (#[trigger] self.rows@[i]).account@,
                self.rows@[i].user_id,
            )
    }

    /// Well-formed: no duplicate rows, no duplicate index keys or ids, and
    /// the index agrees with the rows.
    pub open spec fn wf(self) -> bool {
        &&& self.rows_unique()
        &&& entry_keys_unique(self.index@)
        &&& self.ids_unique()
        &&& self.consistent()
    }

    /// An empty store.
    pub fn new() -> (r: Self)
        ensures
            r.wf(),
            r.rows@.len() == 0,
            r.index@.len() == 0,
    {
        let r = SubscriptionStore { rows: Vec::new(), index: Vec::new() };
        proof {
            assert(r.rows@.len() == 0);
        }
        r
    }

    /// The position of the row `(u, a)`, if it is live.
    fn find_row(&self, u: i64, a: &String) -> (r: Option<usize>)
        ensures
            (match r {
                Some(i) => i < self.rows@.len() && self.rows@[i as int].user_id == u
                    && self.rows@[i as int].account@ == a@,
                None => !self.has_row(u, a@),
            }),
    {
        let n = self.rows.len();
        let mut i: usize = 0;
        while i < n
            invariant
                n == self.rows@.len(),
                0 <= i <= n,
                forall|k: int|
                    0 <= k < i ==> !((#[trigger] self.rows@[k]).user_id == u && self.rows@[
                        k
                    ].account@ == a@),
            decreases n - i,
        {
            if self.rows[i].user_id == u && self.rows[i].account == *a {
                return Some(i);
            }
            i = i + 1;
        }
        None
    }

    /// The position of the index entry keyed by `a`, if there is one.
    fn find_entry(&self, a: &String) -> (r: Option<usize>)
        ensures
            (match r {
                Some(i) => i < self.index@.len() && self.index@[i as int].account@ == a@
                    && forall|k: int|
                    0 <= k < i ==> (#[trigger] self.index@[k]).account@ != a@,
                None => forall|k: int|
                    0 <= k < self.index@.len() ==> (#[trigger] self.index@[k]).account@ != a@,
            }),
    {
        let n = self.index.len();
        let mut i: usize = 0;
        while i < n
            invariant
                n == self.index@.len(),
                0 <= i <= n,
                forall|k: int| 0 <= k < i ==> (#[trigger] self.index@[k]).account@ != a@,
            decreases n - i,
        {
            if self.index[i].account == *a {
                return Some(i);
            }
            i = i + 1;
        }
        None
    }
}

impl SubscriptionStore {
    /// What one subscribe settles: `applied` says whether the pair was new,
    /// the rows gain exactly the new pair, and the store stays well-formed
    /// (so the derived index lists the user under the account).
    pub open spec fn subscribe_post(
        pre: Self,
        post: Self,
        u: i64,
        a: Seq<char>,
        applied: bool,
    ) -> bool {
        &&& applied == !pre.has_row(u, a)
        &&& post.wf()
        &&& post.rows_view() == (if applied {
            pre.rows_view().push((u, a))
        } else {
            pre.rows_view()
        })
        &&& forall|x: i64, b: Seq<char>|
            #![trigger post.has_row(x, b)]
            post.has_row(x, b) <==> (pre.has_row(x, b) || (applied && x == u && b == a))
    }

    /// Subscribes `user_id` to `address`: inserts the row unless it is
    /// already live (then nothing changes and `applied` is false), and adds
    /// the user to the account's derived-index entry.
    pub fn subscribe(&mut self, user_id: i64, address: &AccountAddress) -> (applied: bool)
        requires
            old(self).wf(),
        ensures
            Self::subscribe_post(*old(self), *final(self), user_id, address@, applied),
    {
        let a: String = address.address().to_owned();
        match self.find_row(user_id, &a) {
            Some(_) => {
                proof {
                    assert(self.rows_view() =~= old(self).rows_view());
                }
                false
            },
            None => {
                let ghost pre = *self;
                let row_account = a.clone();
                self.rows.push(SubscriptionRow { user_id, account: row_account });
                proof {
                    assert(self.rows@.last().user_id == user_id);
                    assert(self.rows@.last().account@ == a@);
                    assert(self.rows_view() =~= pre.rows_view().push((user_id, a@)));
                    lemma_push_row_has_row(pre, *self, user_id, a@);
                }
                let ghost mid = *self;
                match self.find_entry(&a) {
                    Some(pos) => {
                        proof {
                            lemma_lookup_at(mid.index@, pos as int);
                            assert(mid.idx_lookup(a@) == Some(mid.index@[pos as int].user_ids@));
                        }
                        let mut e = self.index.remove(pos);
                        let ghost old_ids = e.user_ids@;
                        proof {
                            // the user is not yet listed: a listed user has a
                            // live row, and the (user, account) row was absent
                            if old_ids.contains(user_id) {
                                let k = choose|k: int|
                                    0 <= k < old_ids.len() && old_ids[k] == user_id;
                                assert(pre.has_row(
                                    pre.index@[pos as int].user_ids@[k],
                                    pre.index@[pos as int].account@,
                                ));
                            }
                        }
                        e.user_ids.push(user_id);
                        self.index.insert(pos, e);
                        proof {
                            let entries = self.index@;
                            assert(entries =~= mid.index@.update(pos as int, entries[pos as int]));
                            assert(entries[pos as int].account@ == a@);
                            assert(entries[pos as int].user_ids@ == old_ids.push(user_id));
                            lemma_subscribe_index_update(pre, mid, *self, user_id, a@, pos as int);
                        }
                    },
                    None => {
                        proof {
                            lemma_lookup_absent(mid.index@, a@);
                        }
                        let mut ids: Vec<i64> = Vec::new();
                        ids.push(user_id);
                        self.index.push(IndexEntry { account: a, user_ids: ids });
                        proof {
                            lemma_subscribe_index_push(pre, mid, *self, user_id);
                        }
                    },
                }
                proof {
                    lemma_push_row_has_row(pre, *self, user_id, a@);
                    assert(self.rows_view() =~= pre.rows_view().push((user_id, a@)));
                }
                true
            },
        }
    }

    /// The subscribers of `account`, straight from the derived index.
    pub fn subscriber_ids(&self, account: &str) -> (r: Option<Vec<i64>>)
        ensures
            (match r {
                Some(ids) => self.idx_lookup(account@) == Some(ids@),
                None => self.idx_lookup(account@) is None,
            }),
    {
        let a: String = account.to_owned();
        match self.find_entry(&a) {
            Some(pos) => {
                proof {
                    lemma_lookup_at_first(self.index@, pos as int, a@);
                }
                let ids = clone_ids(&self.index[pos].user_ids);
                Some(ids)
            },
            None => {
                proof {
                    lemma_lookup_absent(self.index@, a@);
                }
                None
            },
        }
    }
}

impl SubscriptionStore {
    /// What one unsubscribe settles: `applied` says whether the pair was
    /// live; exactly that row goes away, order kept; the store stays
    /// well-formed (so the index no longer lists the user under the
    /// account).
    pub open spec fn unsubscribe_post(
        pre: Self,
        post: Self,
        u: i64,
        a: Seq<char>,
        applied: bool,
    ) -> bool {
        &&& applied == pre.has_row(u, a)
        &&& post.wf()
        &&& forall|x: i64, b: Seq<char>|
            #![trigger post.has_row(x, b)]
            post.has_row(x, b) <==> (pre.has_row(x, b) && !(x == u && b == a))
        &&& applied ==> exists|i: int|
            0 <= i < pre.rows_view().len() && (#[trigger] pre.rows_view()[i]) == (u, a)
                && post.rows_view() == pre.rows_view().remove(i)
        &&& !applied ==> post.rows_view() == pre.rows_view()
    }

    /// Unsubscribes `user_id` from `address`: deletes the row if it is live
    /// (otherwise nothing changes and `applied` is false) and removes the
    /// user from the account's derived-index entry.
    pub fn unsubscribe(&mut self, user_id: i64, address: &AccountAddress) -> (applied: bool)
        requires
            old(self).wf(),
        ensures
            Self::unsubscribe_post(*old(self), *final(self), user_id, address@, applied),
    {
        let a: String = address.address().to_owned();
        match self.find_row(user_id, &a) {
            None => {
                proof {
                    assert(self.rows_view() =~= old(self).rows_view());
                }
                false
            },
            Some(rpos) => {
                let ghost pre = *self;
                self.rows.remove(rpos);
                proof {
                    lemma_remove_row_has_row(pre, *self, user_id, a@, rpos as int);
                    assert forall|i: int| 0 <= i < self.rows@.len() implies (
                    #[trigger] self.rows_view()[i]) == pre.rows_view().remove(rpos as int)[i] by {
                        if i < rpos {
                            assert(self.rows@[i] == pre.rows@[i]);
                        } else {
                            assert(self.rows@[i] == pre.rows@[i + 1]);
                        }
                    }
                    assert(self.rows_view() =~= pre.rows_view().remove(rpos as int));
                    assert(pre.rows_view()[rpos as int] == (user_id, a@));
                }
                let ghost mid = *self;
                match self.find_entry(&a) {
                    None => {
                        proof {
                            assert(pre.index_has(a@, user_id));
                            assert(self.index@ == pre.index@);
                            lemma_lookup_absent(self.index@, a@);
                            assert(false);
                        }
                        false
                    },
                    Some(pos) => {
                        proof {
                            lemma_lookup_at(pre.index@, pos as int);
                            assert(pre.index_has(a@, user_id));
                        }
                        let mut e = self.index.remove(pos);
                        let ghost eids = e.user_ids@;
                        let k = match find_id(&e.user_ids, user_id) {
                            Some(k) => k,
                            None => {
                                proof {
                                    assert(eids.contains(user_id));
                                    assert(false);
                                }
                                0
                            },
                        };
                        e.user_ids.remove(k);
                        self.index.insert(pos, e);
                        proof {
                            assert(self.index@ =~= pre.index@.update(
                                pos as int,
                                self.index@[pos as int],
                            ));
                            lemma_unsubscribe_index_update(
                                pre,
                                *self,
                                user_id,
                                a@,
                                rpos as int,
                                pos as int,
                                k as int,
                            );
                            lemma_remove_row_has_row(pre, *self, user_id, a@, rpos as int);
                            assert forall|i: int| 0 <= i < self.rows@.len() implies (
                            #[trigger] self.rows_view()[i]) == pre.rows_view().remove(
                                rpos as int,
                            )[i] by {
                                if i < rpos {
                                    assert(self.rows@[i] == pre.rows@[i]);
                                } else {
                                    assert(self.rows@[i] == pre.rows@[i + 1]);
                                }
                            }
                            assert(self.rows_view() =~= pre.rows_view().remove(rpos as int));
                            assert(pre.rows_view()[rpos as int] == (user_id, a@));
                        }
                        true
                    },
                }
            },
        }
    }
}

impl SubscriptionStore {
    /// Some live row belongs to `u`.
    pub open spec fn has_user(self, u: i64) -> bool {
        exists|i: int| 0 <= i < self.rows@.len() && (#[trigger] self.rows@[i]).user_id == u
    }

    /// What unsubscribing a user from everything settles: `applied` says
    /// whether the user held any row; afterwards exactly the user's rows are
    /// gone and the store is well-formed.
    pub open spec fn unsubscribe_all_post(pre: Self, post: Self, u: i64, applied: bool) -> bool {
        &&& applied == pre.has_user(u)
        &&& post.wf()
        &&& forall|x: i64, b: Seq<char>|
            #![trigger post.has_row(x, b)]
            post.has_row(x, b) <==> (pre.has_row(x, b) && x != u)
    }

    /// Any live row of `u`.
    fn find_user_row(&self, u: i64) -> (r: Option<usize>)
        ensures
            (match r {
                Some(i) => i < self.rows@.len() && self.rows@[i as int].user_id == u,
                None => !self.has_user(u),
            }),
    {
        let n = self.rows.len();
        let mut i: usize = 0;
        while i < n
            invariant
                n == self.rows@.len(),
                0 <= i <= n,
                forall|k: int| 0 <= k < i ==> (#[trigger] self.rows@[k]).user_id != u,
            decreases n - i,
        {
            if self.rows[i].user_id == u {
                return Some(i);
            }
            i = i + 1;
        }
        None
    }

    /// Deletes every subscription of `user_id`, row by row, each deletion
    /// also clearing the derived index.
    pub fn unsubscribe_all(&mut self, user_id: i64) -> (applied: bool)
        requires
            old(self).wf(),
        ensures
            Self::unsubscribe_all_post(*old(self), *final(self), user_id, applied),
    {
        let ghost pre = *self;
        let mut applied = false;
        loop
            invariant
                self.wf(),
                applied ==> pre.has_user(user_id),
                !applied ==> *self == pre,
                forall|x: i64, b: Seq<char>|
                    #![trigger self.has_row(x, b)]
                    x != user_id ==> (self.has_row(x, b) <==> pre.has_row(x, b)),
                forall|b: Seq<char>|
                    #![trigger self.has_row(user_id, b)]
                    self.has_row(user_id, b) ==> pre.has_row(user_id, b),
            ensures
                self.wf(),
                applied ==> pre.has_user(user_id),
                !applied ==> *self == pre,
                forall|x: i64, b: Seq<char>|
                    #![trigger self.has_row(x, b)]
                    x != user_id ==> (self.has_row(x, b) <==> pre.has_row(x, b)),
                !self.has_user(user_id),
            decreases self.rows@.len(),
        {
            let target = self.find_user_row(user_id);
            match target {
                None => { break ; },
                Some(i) => {
                    let ghost before = *self;
                    let acct = self.rows[i].account.clone();
                    let ad = AccountAddress::new(acct);
                    proof {
                        assert(before.has_row(user_id, ad@));
                        assert(pre.has_user(user_id)) by {
                            if !applied {
                                assert(before.rows@[i as int].user_id == user_id);
                            }
                        }
                    }
                    let removed = self.unsubscribe(user_id, &ad);
                    proof {
                        assert(removed);
                        assert(self.rows_view().len() < before.rows_view().len());
                        assert(self.rows@.len() < before.rows@.len());
                    }
                    applied = true;
                },
            }
        }
        proof {
            if pre.has_user(user_id) && !applied {
                let i = choose|i: int|
                    0 <= i < pre.rows@.len() && (#[trigger] pre.rows@[i]).user_id == user_id;
                assert(self.rows@[i].user_id == user_id);
                assert(false);
            }
            assert forall|x: i64, b: Seq<char>| #![trigger self.has_row(x, b)]
                self.has_row(x, b) <==> (pre.has_row(x, b) && x != user_id) by {
                if self.has_row(x, b) && x == user_id {
                    let i = choose|i: int|
                        0 <= i < self.rows@.len() && (#[trigger] self.rows@[i]).user_id == x
                            && self.rows@[i].account@ == b;
                    assert(self.has_user(user_id));
                }
            }
        }
        applied
    }

    /// The accounts `u` subscribes to, in row order.
    pub fn subscriptions(&self, user_id: i64) -> (r: Vec<String>)
        ensures
            r@.len() == accounts_of(self.rows@, user_id).len(),
            forall|i: int|
                0 <= i < r@.len() ==> (#[trigger] r@[i])@ == accounts_of(self.rows@, user_id)[i],
    {
        let n = self.rows.len();
        let mut r: Vec<String> = Vec::new();
        let mut i: usize = 0;
        proof {
            assert(accounts_of(self.rows@.subrange(0, 0), user_id) =~= Seq::<Seq<char>>::empty());
        }
        while i < n
            invariant
                n == self.rows@.len(),
                0 <= i <= n,
                r@.len() == accounts_of(self.rows@.subrange(0, i as int), user_id).len(),
                forall|j: int|
                    0 <= j < r@.len() ==> (#[trigger] r@[j])@ == accounts_of(
                        self.rows@.subrange(0, i as int),
                        user_id,
                    )[j],
            decreases n - i,
        {
            proof {
                assert(self.rows@.subrange(0, i + 1).drop_last() =~= self.rows@.subrange(
                    0,
                    i as int,
                ));
                assert(self.rows@.subrange(0, i + 1).last() == self.rows@[i as int]);
            }
            if self.rows[i].user_id == user_id {
                r.push(self.rows[i].account.clone());
            }
            i = i + 1;
        }
        proof {
            assert(self.rows@.subrange(0, n as int) =~= self.rows@);
        }
        r
    }

    /// Builds a store from authoritative rows: the rows are inserted one by
    /// one (duplicates collapse) and the derived index is populated from
    /// scratch, as the startup preload does.
    pub fn load_subscriptions(rows: Vec<SubscriptionRow>) -> (r: Self)
        ensures
            r.wf(),
            forall|x: i64, b: Seq<char>|
                #![trigger r.has_row(x, b)]
                r.has_row(x, b) <==> rows_contain(rows@, x, b),
    {
        let mut s = Self::new();
        let n = rows.len();
        let mut i: usize = 0;
        while i < n
            invariant
                s.wf(),
                n == rows@.len(),
                0 <= i <= n,
                forall|x: i64, b: Seq<char>|
                    #![trigger s.has_row(x, b)]
                    s.has_row(x, b) <==> rows_contain(rows@.subrange(0, i as int), x, b),
            decreases n - i,
        {
            let ad = AccountAddress::new(rows[i].account.clone());
            let ghost before = s;
            let _ = s.subscribe(rows[i].user_id, &ad);
            proof {
                let prefix = rows@.subrange(0, i as int);
                let prefix1 = rows@.subrange(0, i + 1);
                assert forall|x: i64, b: Seq<char>| #![trigger s.has_row(x, b)]
                    s.has_row(x, b) <==> rows_contain(prefix1, x, b) by {
                    if s.has_row(x, b) {
                        if before.has_row(x, b) {
                            let j = choose|j: int|
                                0 <= j < prefix.len() && (#[trigger] prefix[j]).user_id == x
                                    && prefix[j].account@ == b;
                            assert(prefix1[j] == prefix[j]);
                            assert(rows_contain(prefix1, x, b));
                        } else {
                            assert(x == rows@[i as int].user_id && b == rows@[i as int].account@);
                            assert(prefix1[i as int] == rows@[i as int]);
                            assert(rows_contain(prefix1, x, b));
                        }
                    }
                    if rows_contain(prefix1, x, b) {
                        let j = choose|j: int|
                            0 <= j < prefix1.len() && (#[trigger] prefix1[j]).user_id == x
                                && prefix1[j].account@ == b;
                        if j < i {
                            assert(prefix[j] == prefix1[j]);
                            assert(rows_contain(prefix, x, b));
                            assert(before.has_row(x, b));
                        } else {
                            assert(prefix1[j] == rows@[i as int]);
                            assert(s.has_row(x, b));
                        }
                    }
                }
            }
            i = i + 1;
        }
        proof {
            assert(rows@.subrange(0, n as int) =~= rows@);
        }
        s
    }

    /// Clears and repopulates the derived index from the authoritative
    /// rows. Safe at any time; on a well-formed store it changes nothing
    /// observable.
    pub fn rebuild_index(self) -> (r: Self)
        ensures
            r.wf(),
            forall|x: i64, b: Seq<char>|
                #![trigger r.has_row(x, b)]
                r.has_row(x, b) <==> rows_contain(self.rows@, x, b),
    {
        Self::load_subscriptions(self.rows)
    }
}

/// The accounts `u` subscribes to within `rows`, in row order.
pub open spec fn accounts_of(rows: Seq<SubscriptionRow>, u: i64) -> Seq<Seq<char>>
    decreases rows.len(),
{
    if rows.len() == 0 {
        Seq::empty()
    } else {
        let init = accounts_of(rows.drop_last(), u);
        if rows.last().user_id == u {
            init.push(rows.last().account@)
        } else {
            init
        }
    }
}

/// `rows` holds the pair `(x, b)`.
pub open spec fn rows_contain(rows: Seq<SubscriptionRow>, x: i64, b: Seq<char>) -> bool {
    exists|i: int|
        0 <= i < rows.len() && (#[trigger] rows[i]).user_id == x && rows[i].account@ == b
}

/// A successful lookup comes from an entry that carries the key.
proof fn lemma_lookup_some_exists(entries: Seq<IndexEntry>, a: Seq<char>)
    requires
        entries_lookup(entries, a) is Some,
    ensures
        exists|e: int|
            0 <= e < entries.len() && (#[trigger] entries[e]).account@ == a
                && entries[e].user_ids@ == entries_lookup(entries, a)->Some_0,
    decreases entries.len(),
{
    if entries[0].account@ == a {
        assert(entries[0].account@ == a && entries[0].user_ids@ == entries_lookup(
            entries,
            a,
        )->Some_0);
    } else {
        let tail = entries.subrange(1, entries.len() as int);
        lemma_lookup_some_exists(tail, a);
        let e = choose|e: int|
            0 <= e < tail.len() && (#[trigger] tail[e]).account@ == a && tail[e].user_ids@
                == entries_lookup(tail, a)->Some_0;
        assert(entries[e + 1] == tail[e]);
    }
}

/// `u` stands in `ids`, and at exactly one position.
pub open spec fn listed_once(ids: Seq<i64>, u: i64) -> bool {
    &&& ids.contains(u)
    &&& forall|i: int, j: int|
        0 <= i < ids.len() && 0 <= j < ids.len() && (#[trigger] ids[i]) == u && (#[trigger] ids[j])
            == u ==> i == j
}

/// Law: a well-formed store's derived index lists a user under an account
/// exactly when the user holds a live subscription row for it.
pub proof fn lemma_index_matches_rows(s: SubscriptionStore)
    requires
        s.wf(),
    ensures
        forall|a: Seq<char>, u: i64|
            #![trigger s.index_has(a, u)]
            s.index_has(a, u) <==> s.has_row(u, a),
{
    assert forall|a: Seq<char>, u: i64| #![trigger s.index_has(a, u)]
        s.index_has(a, u) <==> s.has_row(u, a) by {
        if s.index_has(a, u) {
            lemma_lookup_some_exists(s.index@, a);
            let e = choose|e: int|
                0 <= e < s.index@.len() && (#[trigger] s.index@[e]).account@ == a
                    && s.index@[e].user_ids@ == entries_lookup(s.index@, a)->Some_0;
            let ids = s.index@[e].user_ids@;
            assert(ids.contains(u));
            let k = choose|k: int| 0 <= k < ids.len() && ids[k] == u;
            assert(s.has_row(s.index@[e].user_ids@[k], s.index@[e].account@));
        }
        if s.has_row(u, a) {
            let i = choose|i: int|
                0 <= i < s.rows@.len() && (#[trigger] s.rows@[i]).user_id == u
                    && s.rows@[i].account@ == a;
            assert(s.index_has(s.rows@[i].account@, s.rows@[i].user_id));
        }
    }
}

/// Law: subscribing the same pair twice applies the first time exactly when
/// the pair was new, never the second time, and leaves the user listed once
/// in the account's derived-index entry.
pub proof fn lemma_subscribe_idempotent(
    s0: SubscriptionStore,
    s1: SubscriptionStore,
    applied1: bool,
    s2: SubscriptionStore,
    applied2: bool,
    u: i64,
    a: Seq<char>,
)
    requires
        s0.wf(),
        SubscriptionStore::subscribe_post(s0, s1, u, a, applied1),
        SubscriptionStore::subscribe_post(s1, s2, u, a, applied2),
    ensures
        applied1 == !s0.has_row(u, a),
        !applied2,
        s2.rows_view() == s1.rows_view(),
        (match s2.idx_lookup(a) {
            Some(ids) => listed_once(ids, u),
            None => false,
        }),
{
    assert(s1.has_row(u, a));
    assert(!applied2);
    assert(s2.has_row(u, a));
    let i = choose|i: int|
        0 <= i < s2.rows@.len() && (#[trigger] s2.rows@[i]).user_id == u && s2.rows@[i].account@
            == a;
    assert(s2.index_has(s2.rows@[i].account@, s2.rows@[i].user_id));
    lemma_lookup_some_exists(s2.index@, a);
    let e = choose|e: int|
        0 <= e < s2.index@.len() && (#[trigger] s2.index@[e]).account@ == a && s2.index@[
            e
        ].user_ids@ == entries_lookup(s2.index@, a)->Some_0;
    let ids = s2.index@[e].user_ids@;
    assert forall|p: int, q: int|
        0 <= p < ids.len() && 0 <= q < ids.len() && (#[trigger] ids[p]) == u && (#[trigger] ids[q])
            == u implies p == q by {
        if p < q {
            assert(s2.index@[e].user_ids@[p] != s2.index@[e].user_ids@[q]);
        }
        if q < p {
            assert(s2.index@[e].user_ids@[q] != s2.index@[e].user_ids@[p]);
        }
    }
}

/// Law: a rebuilt index and an incrementally maintained one agree: any two
/// well-formed stores whose live rows coincide list the same subscribers
/// under every account.
pub proof fn lemma_rebuild_matches_incremental(s: SubscriptionStore, r: SubscriptionStore)
    requires
        s.wf(),
        r.wf(),
        forall|x: i64, b: Seq<char>| #![trigger s.has_row(x, b)] s.has_row(x, b) == r.has_row(x, b),
    ensures
        forall|a: Seq<char>, u: i64|
            #![trigger s.index_has(a, u)]
            s.index_has(a, u) == r.index_has(a, u),
{
    lemma_index_matches_rows(s);
    lemma_index_matches_rows(r);
    assert forall|a: Seq<char>, u: i64| #![trigger s.index_has(a, u)]
        s.index_has(a, u) == r.index_has(a, u) by {
        assert(s.index_has(a, u) <==> s.has_row(u, a));
        assert(r.index_has(a, u) <==> r.has_row(u, a));
        assert(s.has_row(u, a) == r.has_row(u, a));
    }
}

/// The position of `u` in a subscriber list.
fn find_id(ids: &Vec<i64>, u: i64) -> (r: Option<usize>)
    ensures
        (match r {
            Some(k) => k < ids@.len() && ids@[k as int] == u,
            None => !ids@.contains(u),
        }),
{
    let n = ids.len();
    let mut i: usize = 0;
    while i < n
        invariant
            n == ids@.len(),
            0 <= i <= n,
            forall|j: int| 0 <= j < i ==> ids@[j] != u,
        decreases n - i,
    {
        if ids[i] == u {
            return Some(i);
        }
        i = i + 1;
    }
    None
}

/// After removing the row at `rpos`, which carried `(u, a)`, exactly that
/// pair stops being live.
proof fn lemma_remove_row_has_row(
    pre: SubscriptionStore,
    post: SubscriptionStore,
    u: i64,
    a: Seq<char>,
    rpos: int,
)
    requires
        pre.rows_unique(),
        0 <= rpos < pre.rows@.len(),
        pre.rows@[rpos].user_id == u,
        pre.rows@[rpos].account@ == a,
        post.rows@ == pre.rows@.remove(rpos),
    ensures
        forall|x: i64, b: Seq<char>|
            #![trigger post.has_row(x, b)]
            post.has_row(x, b) <==> (pre.has_row(x, b) && !(x == u && b == a)),
{
    assert forall|x: i64, b: Seq<char>| #![trigger post.has_row(x, b)]
        post.has_row(x, b) <==> (pre.has_row(x, b) && !(x == u && b == a)) by {
        if post.has_row(x, b) {
            let i = choose|i: int|
                0 <= i < post.rows@.len() && (#[trigger] post.rows@[i]).user_id == x
                    && post.rows@[i].account@ == b;
            let j = if i < rpos {
                i
            } else {
                i + 1
            };
            assert(pre.rows@[j] == post.rows@[i]);
            assert(pre.has_row(x, b));
            if x == u && b == a {
                assert(pre.rows@[j].user_id == pre.rows@[rpos].user_id && pre.rows@[j].account@
                    == pre.rows@[rpos].account@);
                assert(false);
            }
        }
        if pre.has_row(x, b) && !(x == u && b == a) {
            let j = choose|j: int|
                0 <= j < pre.rows@.len() && (#[trigger] pre.rows@[j]).user_id == x
                    && pre.rows@[j].account@ == b;
            assert(j != rpos);
            let i = if j < rpos {
                j
            } else {
                j - 1
            };
            assert(post.rows@[i] == pre.rows@[j]);
            assert(post.has_row(x, b));
        }
    }
}

/// The wf pieces of unsubscribe: the row at `rpos` went away and the user
/// left the index entry at `pos`.
proof fn lemma_unsubscribe_index_update(
    pre: SubscriptionStore,
    post: SubscriptionStore,
    u: i64,
    a: Seq<char>,
    rpos: int,
    pos: int,
    k: int,
)
    requires
        pre.wf(),
        0 <= rpos < pre.rows@.len(),
        pre.rows@[rpos].user_id == u,
        pre.rows@[rpos].account@ == a,
        post.rows@ == pre.rows@.remove(rpos),
        0 <= pos < pre.index@.len(),
        pre.index@[pos].account@ == a,
        post.index@ == pre.index@.update(pos, post.index@[pos]),
        post.index@[pos].account@ == a,
        0 <= k < pre.index@[pos].user_ids@.len(),
        pre.index@[pos].user_ids@[k] == u,
        post.index@[pos].user_ids@ == pre.index@[pos].user_ids@.remove(k),
    ensures
        post.wf(),
{
    let eids = pre.index@[pos].user_ids@;
    let nids = post.index@[pos].user_ids@;
    lemma_remove_row_has_row(pre, post, u, a, rpos);
    assert(entry_keys_unique(post.index@)) by {
        assert(forall|p: int|
            0 <= p < post.index@.len() ==> (#[trigger] post.index@[p].account@)
                == pre.index@[p].account@);
    }
    assert(post.rows_unique()) by {
        assert forall|i: int, j: int|
            0 <= i < j < post.rows@.len() implies !((#[trigger] post.rows@[i]).user_id == (
        #[trigger] post.rows@[j]).user_id && post.rows@[i].account@ == post.rows@[j].account@) by {
            let i2 = if i < rpos {
                i
            } else {
                i + 1
            };
            let j2 = if j < rpos {
                j
            } else {
                j + 1
            };
            assert(post.rows@[i] == pre.rows@[i2]);
            assert(post.rows@[j] == pre.rows@[j2]);
        }
    }
    // removing one position from a duplicate-free list keeps it so
    assert forall|j: int| 0 <= j < nids.len() implies (#[trigger] nids[j]) == (if j < k {
        eids[j]
    } else {
        eids[j + 1]
    }) by {}
    assert(post.ids_unique()) by {
        assert forall|e: int, i: int, j: int|
            0 <= e < post.index@.len() && 0 <= i < j < post.index@[e].user_ids@.len() implies (
        #[trigger] post.index@[e].user_ids@[i]) != (#[trigger] post.index@[e].user_ids@[j]) by {
            if e == pos {
                let i2 = if i < k {
                    i
                } else {
                    i + 1
                };
                let j2 = if j < k {
                    j
                } else {
                    j + 1
                };
                assert(nids[i] == eids[i2] && nids[j] == eids[j2]);
                assert(pre.index@[pos].user_ids@[i2] != pre.index@[pos].user_ids@[j2]);
            } else {
                assert(post.index@[e] == pre.index@[e]);
                assert(pre.index@[e].user_ids@[i] != pre.index@[e].user_ids@[j]);
            }
        }
    }
    // no user other than u leaves the entry, and u is gone everywhere
    assert forall|e: int, kk: int|
        0 <= e < post.index@.len() && 0 <= kk < post.index@[e].user_ids@.len() implies post.has_row(
        #[trigger] post.index@[e].user_ids@[kk],
        post.index@[e].account@,
    ) by {
        if e == pos {
            let k2 = if kk < k {
                kk
            } else {
                kk + 1
            };
            assert(nids[kk] == eids[k2]);
            assert(pre.has_row(pre.index@[pos].user_ids@[k2], pre.index@[pos].account@));
            assert(eids[k2] != eids[k]) by {
                assert(pre.index@[pos].user_ids@[if k2 < k {
                    k2
                } else {
                    k
                }] != pre.index@[pos].user_ids@[if k2 < k {
                    k
                } else {
                    k2
                }]);
            }
        } else {
            assert(post.index@[e] == pre.index@[e]);
            assert(pre.has_row(pre.index@[e].user_ids@[kk], pre.index@[e].account@));
            assert(pre.index@[e].account@ != a);
        }
    }
    assert forall|i: int|
        0 <= i < post.rows@.len() implies post.index_has(
        (#[trigger] post.rows@[i]).account@,
        post.rows@[i].user_id,
    ) by {
        let b = post.rows@[i].account@;
        let x = post.rows@[i].user_id;
        assert(post.has_row(x, b));
        assert(pre.has_row(x, b) && !(x == u && b == a));
        let j = if i < rpos {
            i
        } else {
            i + 1
        };
        assert(pre.rows@[j] == post.rows@[i]);
        assert(pre.index_has(b, x));
        lemma_lookup_update(pre.index@, pos, post.index@[pos], b);
        lemma_lookup_at(pre.index@, pos);
        if b == a {
            assert(x != u);
            assert(eids.contains(x));
            let kx = choose|kx: int| 0 <= kx < eids.len() && eids[kx] == x;
            assert(kx != k);
            let kn = if kx < k {
                kx
            } else {
                kx - 1
            };
            assert(nids[kn] == eids[kx]);
            assert(post.idx_lookup(a) == Some(nids));
            assert(nids.contains(x));
        } else {
            assert(post.idx_lookup(b) == pre.idx_lookup(b));
        }
    }
}

/// An element-for-element copy of a subscriber list.
fn clone_ids(ids: &Vec<i64>) -> (r: Vec<i64>)
    ensures
        r@ == ids@,
{
    let mut r: Vec<i64> = Vec::new();
    let n = ids.len();
    let mut i: usize = 0;
    while i < n
        invariant
            n == ids@.len(),
            0 <= i <= n,
            r@ == ids@.subrange(0, i as int),
        decreases n - i,
    {
        r.push(ids[i]);
        proof {
            assert(r@ =~= ids@.subrange(0, i + 1));
        }
        i = i + 1;
    }
    proof {
        assert(ids@.subrange(0, n as int) =~= ids@);
    }
    r
}

/// After pushing the row `(u, a)`, exactly that pair becomes live.
proof fn lemma_push_row_has_row(pre: SubscriptionStore, post: SubscriptionStore, u: i64, a: Seq<char>)
    requires
        post.rows@ == pre.rows@.push(post.rows@.last()),
        post.rows@.last().user_id == u,
        post.rows@.last().account@ == a,
    ensures
        forall|x: i64, b: Seq<char>|
            #![trigger post.has_row(x, b)]
            post.has_row(x, b) <==> (pre.has_row(x, b) || (x == u && b == a)),
{
    assert forall|x: i64, b: Seq<char>| #![trigger post.has_row(x, b)]
        post.has_row(x, b) <==> (pre.has_row(x, b) || (x == u && b == a)) by {
        if pre.has_row(x, b) {
            let i = choose|i: int|
                0 <= i < pre.rows@.len() && (#[trigger] pre.rows@[i]).user_id == x
                    && pre.rows@[i].account@ == b;
            assert(post.rows@[i].user_id == x && post.rows@[i].account@ == b);
        }
        if x == u && b == a {
            assert(post.rows@.last().user_id == x && post.rows@.last().account@ == b);
        }
        if post.has_row(x, b) {
            let i = choose|i: int|
                0 <= i < post.rows@.len() && (#[trigger] post.rows@[i]).user_id == x
                    && post.rows@[i].account@ == b;
            if i < pre.rows@.len() {
                assert(pre.rows@[i].user_id == x && pre.rows@[i].account@ == b);
            }
        }
    }
}

/// The wf pieces of subscribe when the account already has an index entry
/// at `pos` and the user was appended to it.
proof fn lemma_subscribe_index_update(
    pre: SubscriptionStore,
    mid: SubscriptionStore,
    post: SubscriptionStore,
    u: i64,
    a: Seq<char>,
    pos: int,
)
    requires
        pre.wf(),
        !pre.has_row(u, a),
        mid.index@ == pre.index@,
        mid.rows@ == pre.rows@.push(mid.rows@.last()),
        mid.rows@.last().user_id == u,
        mid.rows@.last().account@ == a,
        forall|x: i64, b: Seq<char>|
            #![trigger mid.has_row(x, b)]
            mid.has_row(x, b) <==> (pre.has_row(x, b) || (x == u && b == a)),
        post.rows@ == mid.rows@,
        0 <= pos < pre.index@.len(),
        pre.index@[pos].account@ == a,
        post.index@ == pre.index@.update(pos, post.index@[pos]),
        post.index@[pos].account@ == a,
        post.index@[pos].user_ids@ == pre.index@[pos].user_ids@.push(u),
        !pre.index@[pos].user_ids@.contains(u),
    ensures
        post.wf(),
{
    let old_ids = pre.index@[pos].user_ids@;
    // keys stay unique: the update keeps every key
    assert(entry_keys_unique(post.index@)) by {
        assert(forall|p: int|
            0 <= p < post.index@.len() ==> (#[trigger] post.index@[p].account@)
                == pre.index@[p].account@);
    }
    // rows stay unique: the new pair was absent
    assert(post.rows_unique()) by {
        assert forall|i: int, j: int|
            0 <= i < j < post.rows@.len() ==> !((#[trigger] post.rows@[i]).user_id == (
            #[trigger] post.rows@[j]).user_id && post.rows@[i].account@
                == post.rows@[j].account@) by {
            if 0 <= i < j < post.rows@.len() && j == post.rows@.len() - 1 {
                if post.rows@[i].user_id == u && post.rows@[i].account@ == a {
                    assert(pre.has_row(u, a));
                }
            }
        }
    }
    // ids stay unique: only the entry at pos changed, and u was not listed
    assert(post.ids_unique()) by {
        assert forall|e: int, i: int, j: int|
            0 <= e < post.index@.len() && 0 <= i < j < post.index@[e].user_ids@.len() implies (
        #[trigger] post.index@[e].user_ids@[i]) != (#[trigger] post.index@[e].user_ids@[j]) by {
            if e == pos {
                assert(post.index@[e].user_ids@ == old_ids.push(u));
                if j < old_ids.len() {
                    assert(pre.index@[pos].user_ids@[i] != pre.index@[pos].user_ids@[j]);
                } else {
                    assert(post.index@[e].user_ids@[j] == u);
                    assert(old_ids[i] != u) by {
                        if old_ids[i] == u {
                            assert(old_ids.contains(u));
                        }
                    }
                }
            } else {
                assert(post.index@[e] == pre.index@[e]);
                assert(pre.index@[e].user_ids@[i] != pre.index@[e].user_ids@[j]);
            }
        }
    }
    // consistency, listed -> live row
    assert forall|e: int, k: int|
        0 <= e < post.index@.len() && 0 <= k < post.index@[e].user_ids@.len() implies post.has_row(
        #[trigger] post.index@[e].user_ids@[k],
        post.index@[e].account@,
    ) by {
        assert(post.has_row(post.index@[e].user_ids@[k], post.index@[e].account@)
            == mid.has_row(post.index@[e].user_ids@[k], post.index@[e].account@));
        if e == pos {
            if k < old_ids.len() {
                assert(pre.has_row(pre.index@[pos].user_ids@[k], pre.index@[pos].account@));
            } else {
                assert(post.index@[e].user_ids@[k] == u);
            }
        } else {
            assert(post.index@[e] == pre.index@[e]);
            assert(pre.has_row(pre.index@[e].user_ids@[k], pre.index@[e].account@));
        }
    }
    // consistency, live row -> listed
    assert forall|i: int|
        0 <= i < post.rows@.len() implies post.index_has(
        (#[trigger] post.rows@[i]).account@,
        post.rows@[i].user_id,
    ) by {
        let b = post.rows@[i].account@;
        let x = post.rows@[i].user_id;
        lemma_lookup_update(pre.index@, pos, post.index@[pos], b);
        lemma_lookup_at(pre.index@, pos);
        if i < pre.rows@.len() {
            assert(pre.index_has(b, x));
            if b == a {
                assert(pre.idx_lookup(a) == Some(old_ids));
                assert(old_ids.contains(x));
                let k = choose|k: int| 0 <= k < old_ids.len() && old_ids[k] == x;
                assert(old_ids.push(u)[k] == x);
                assert(post.idx_lookup(b) == Some(old_ids.push(u)));
            } else {
                assert(post.idx_lookup(b) == pre.idx_lookup(b));
            }
        } else {
            assert(x == u && b == a);
            assert(post.idx_lookup(a) == Some(old_ids.push(u)));
            assert(old_ids.push(u).last() == u);
        }
    }
}

/// The wf pieces of subscribe when the account had no index entry and one
/// was appended.
proof fn lemma_subscribe_index_push(
    pre: SubscriptionStore,
    mid: SubscriptionStore,
    post: SubscriptionStore,
    u: i64,
)
    requires
        pre.wf(),
        mid.index@ == pre.index@,
        mid.rows@ == pre.rows@.push(mid.rows@.last()),
        mid.rows@.last().user_id == u,
        !pre.has_row(u, mid.rows@.last().account@),
        forall|x: i64, b: Seq<char>|
            #![trigger mid.has_row(x, b)]
            mid.has_row(x, b) <==> (pre.has_row(x, b) || (x == u && b
                == mid.rows@.last().account@)),
        post.rows@ == mid.rows@,
        post.index@ == pre.index@.push(post.index@.last()),
        post.index@.last().account@ == mid.rows@.last().account@,
        post.index@.last().user_ids@ == seq![u],
        forall|k: int|
            0 <= k < pre.index@.len() ==> (#[trigger] pre.index@[k].account@)
                != mid.rows@.last().account@,
    ensures
        post.wf(),
{
    let a = mid.rows@.last().account@;
    assert(entry_keys_unique(post.index@)) by {
        assert(forall|p: int|
            0 <= p < pre.index@.len() ==> (#[trigger] post.index@[p]) == pre.index@[p]);
    }
    assert(post.rows_unique()) by {
        assert forall|i: int, j: int|
            0 <= i < j < post.rows@.len() ==> !((#[trigger] post.rows@[i]).user_id == (
            #[trigger] post.rows@[j]).user_id && post.rows@[i].account@
                == post.rows@[j].account@) by {
            if 0 <= i < j < post.rows@.len() && j == post.rows@.len() - 1 {
                if post.rows@[i].user_id == u && post.rows@[i].account@ == a {
                    assert(pre.has_row(u, a));
                }
            }
        }
    }
    assert(post.ids_unique()) by {
        assert forall|e: int, i: int, j: int|
            0 <= e < post.index@.len() && 0 <= i < j < post.index@[e].user_ids@.len() implies (
        #[trigger] post.index@[e].user_ids@[i]) != (#[trigger] post.index@[e].user_ids@[j]) by {
            if e < pre.index@.len() {
                assert(post.index@[e] == pre.index@[e]);
                assert(pre.index@[e].user_ids@[i] != pre.index@[e].user_ids@[j]);
            }
        }
    }
    assert forall|e: int, k: int|
        0 <= e < post.index@.len() && 0 <= k < post.index@[e].user_ids@.len() implies post.has_row(
        #[trigger] post.index@[e].user_ids@[k],
        post.index@[e].account@,
    ) by {
        if e < pre.index@.len() {
            assert(post.index@[e] == pre.index@[e]);
            assert(pre.has_row(pre.index@[e].user_ids@[k], pre.index@[e].account@));
            assert(mid.has_row(pre.index@[e].user_ids@[k], pre.index@[e].account@));
        } else {
            assert(post.index@[e].user_ids@[k] == u);
            assert(mid.has_row(u, a));
        }
    }
    assert forall|i: int|
        0 <= i < post.rows@.len() implies post.index_has(
        (#[trigger] post.rows@[i]).account@,
        post.rows@[i].user_id,
    ) by {
        let b = post.rows@[i].account@;
        let x = post.rows@[i].user_id;
        lemma_lookup_push(pre.index@, post.index@.last(), b);
        if i < pre.rows@.len() {
            assert(pre.index_has(b, x));
            assert(pre.idx_lookup(b) is Some);
            assert(post.idx_lookup(b) == pre.idx_lookup(b));
        } else {
            assert(x == u && b == a);
            lemma_lookup_absent(pre.index@, a);
            assert(post.idx_lookup(a) == Some(seq![u]));
            assert(seq![u][0] == u);
        }
    }
}

/// The first entry carrying the key, found by scan, is what the lookup
/// yields even without key uniqueness, provided no earlier entry carries it.
proof fn lemma_lookup_at_first(entries: Seq<IndexEntry>, i: int, a: Seq<char>)
    requires
        0 <= i < entries.len(),
        entries[i].account@ == a,
        forall|k: int| 0 <= k < i ==> (#[trigger] entries[k].account@) != a,
    ensures
        entries_lookup(entries, a) == Some(entries[i].user_ids@),
    decreases i,
{
    if i == 0 {
    } else {
        let tail = entries.subrange(1, entries.len() as int);
        assert(tail[i - 1] == entries[i]);
        assert(forall|k: int| 0 <= k < i - 1 ==> (#[trigger] tail[k]) == entries[k + 1]);
        lemma_lookup_at_first(tail, i - 1, a);
    }
}

/// With unique keys, the lookup yields exactly the entry that carries the
/// key.
proof fn lemma_lookup_at(entries: Seq<IndexEntry>, i: int)
    requires
        entry_keys_unique(entries),
        0 <= i < entries.len(),
    ensures
        entries_lookup(entries, entries[i].account@) == Some(entries[i].user_ids@),
    decreases entries.len(),
{
    if i == 0 {
    } else {
        assert(entries[0].account@ != entries[i].account@);
        let tail = entries.subrange(1, entries.len() as int);
        assert(tail[i - 1] == entries[i]);
        assert(entry_keys_unique(tail)) by {
            assert(forall|p: int, q: int|
                0 <= p < q < tail.len() ==> tail[p] == entries[p + 1] && tail[q] == entries[q + 1]);
        }
        lemma_lookup_at(tail, i - 1);
    }
}

/// A key carried by no entry looks up to nothing.
proof fn lemma_lookup_absent(entries: Seq<IndexEntry>, a: Seq<char>)
    requires
        forall|k: int| 0 <= k < entries.len() ==> (#[trigger] entries[k].account@) != a,
    ensures
        entries_lookup(entries, a) is None,
    decreases entries.len(),
{
    if entries.len() == 0 {
    } else {
        let tail = entries.subrange(1, entries.len() as int);
        assert(forall|k: int| 0 <= k < tail.len() ==> (#[trigger] tail[k]) == entries[k + 1]);
        lemma_lookup_absent(tail, a);
    }
}

/// Replacing the entry at `i` by one under the same key changes exactly that
/// key's lookup.
proof fn lemma_lookup_update(entries: Seq<IndexEntry>, i: int, e: IndexEntry, b: Seq<char>)
    requires
        entry_keys_unique(entries),
        0 <= i < entries.len(),
        e.account@ == entries[i].account@,
    ensures
        entries_lookup(entries.update(i, e), b) == (if b == e.account@ {
            Some(e.user_ids@)
        } else {
            entries_lookup(entries, b)
        }),
    decreases entries.len(),
{
    let upd = entries.update(i, e);
    assert(entry_keys_unique(upd)) by {
        assert(forall|p: int|
            0 <= p < upd.len() ==> (#[trigger] upd[p].account@) == entries[p].account@);
    }
    if i == 0 {
        assert(upd[0] == e);
        if b != e.account@ {
            assert(upd.subrange(1, upd.len() as int) =~= entries.subrange(
                1,
                entries.len() as int,
            ));
        }
    } else {
        assert(upd[0] == entries[0]);
        if b == entries[0].account@ {
            assert(b != e.account@);
        } else {
            let tail = entries.subrange(1, entries.len() as int);
            assert(entry_keys_unique(tail)) by {
                assert(forall|p: int, q: int|
                    0 <= p < q < tail.len() ==> tail[p] == entries[p + 1] && tail[q] == entries[q
                        + 1]);
            }
            assert(tail[i - 1] == entries[i]);
            lemma_lookup_update(tail, i - 1, e, b);
            assert(upd.subrange(1, upd.len() as int) =~= tail.update(i - 1, e));
        }
    }
}

/// Appending an entry leaves every present key's lookup unchanged and gives
/// an absent key the new entry's list.
proof fn lemma_lookup_push(entries: Seq<IndexEntry>, e: IndexEntry, b: Seq<char>)
    ensures
        entries_lookup(entries.push(e), b) == (match entries_lookup(entries, b) {
            Some(ids) => Some(ids),
            None => if e.account@ == b {
                Some(e.user_ids@)
            } else {
                None
            },
        }),
    decreases entries.len(),
{
    let p = entries.push(e);
    assert(p.len() == entries.len() + 1);
    if entries.len() == 0 {
        assert(p[0] == e);
        assert(p.subrange(1, p.len() as int) =~= Seq::<IndexEntry>::empty());
        if e.account@ == b {
            assert(entries_lookup(p, b) == Some(e.user_ids@));
        } else {
            assert(entries_lookup(p.subrange(1, p.len() as int), b) is None);
            assert(entries_lookup(p, b) is None);
        }
        assert(entries_lookup(entries, b) is None);
    } else {
        assert(p[0] == entries[0]);
        if entries[0].account@ == b {
            assert(entries_lookup(p, b) == Some(entries[0].user_ids@));
            assert(entries_lookup(entries, b) == Some(entries[0].user_ids@));
        } else {
            let tail = entries.subrange(1, entries.len() as int);
            lemma_lookup_push(tail, e, b);
            assert(p.subrange(1, p.len() as int) =~= tail.push(e));
            assert(entries_lookup(p, b) == entries_lookup(tail.push(e), b));
            assert(entries_lookup(entries, b) == entries_lookup(tail, b));
        }
    }
}

} // verus!
