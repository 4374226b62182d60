use vstd::prelude::*;

use crate::errors::Error;
use crate::rows::clone_string_vec;

verus! {

/// A live push subscription: the one browser connection a user currently has
/// open, and the progress events queued on it, in-flight, best effort.
pub struct Subscriber {
    /// The user the subscription belongs to.
    pub user_id: i32,
    /// The events queued for delivery on this connection, oldest first.
    pub queue: Vec<String>,
}

/// No two live subscriptions belong to the same user.
pub open spec fn sub_ids_unique(subs: Seq<Subscriber>) -> bool {
    forall|i: int, j: int|
        0 <= i < j < subs.len() ==> (#[trigger] subs[i]).user_id != (#[trigger] subs[j]).user_id
}

/// Some live subscription belongs to the given user.
pub open spec fn has_subscriber(subs: Seq<Subscriber>, user_id: i32) -> bool {
    exists|i: int| 0 <= i < subs.len() && (#[trigger] subs[i]).user_id == user_id
}

/// The index of the given user's subscription; meaningful only when
/// `has_subscriber` holds (and then unique, given `sub_ids_unique`).
pub open spec fn subscriber_index(subs: Seq<Subscriber>, user_id: i32) -> int {
    choose|i: int| 0 <= i < subs.len() && (#[trigger] subs[i]).user_id == user_id
}

/// The queue of the given user's subscription, if the user has one.
pub open spec fn sub_queue(subs: Seq<Subscriber>, user_id: i32) -> Option<Seq<String>> {
    if has_subscriber(subs, user_id) {
        Some(subs[subscriber_index(subs, user_id)].queue@)
    } else {
        None
    }
}

/// The subscription at a known index is the one its user is looked up to.
proof fn lemma_sub_at(subs: Seq<Subscriber>, i: int)
    requires
        sub_ids_unique(subs),
        0 <= i < subs.len(),
    ensures
        has_subscriber(subs, subs[i].user_id),
        subscriber_index(subs, subs[i].user_id) == i,
        sub_queue(subs, subs[i].user_id) == Some(subs[i].queue@),
{
    assert(has_subscriber(subs, subs[i].user_id));
    let k = subscriber_index(subs, subs[i].user_id);
    assert(0 <= k < subs.len() && subs[k].user_id == subs[i].user_id);
    if k != i {
        assert(false);
    }
}

/// Replacing a subscription with one for the same user changes that user's
/// queue and nobody else's.
proof fn lemma_sub_update(subs: Seq<Subscriber>, i: int, fresh: Subscriber, uid: i32)
    requires
        sub_ids_unique(subs),
        0 <= i < subs.len(),
        fresh.user_id == subs[i].user_id,
    ensures
        sub_ids_unique(subs.update(i, fresh)),
        sub_queue(subs.update(i, fresh), fresh.user_id) == Some(fresh.queue@),
        uid != fresh.user_id ==> sub_queue(subs.update(i, fresh), uid) == sub_queue(subs, uid),
{
    let upd = subs.update(i, fresh);
    assert forall|p: int, q: int|
        0 <= p < q < upd.len() implies (#[trigger] upd[p]).user_id != (
    #[trigger] upd[q]).user_id by {
        assert(subs[p].user_id != subs[q].user_id);
    }
    lemma_sub_at(upd, i);
    if uid != fresh.user_id {
        if has_subscriber(subs, uid) {
            let k = choose|k: int| 0 <= k < subs.len() && (#[trigger] subs[k]).user_id == uid;
            assert(k != i);
            assert(upd[k].user_id == uid);
            lemma_sub_at(subs, k);
            lemma_sub_at(upd, k);
        }
        if has_subscriber(upd, uid) {
            let k = choose|k: int| 0 <= k < upd.len() && (#[trigger] upd[k]).user_id == uid;
            assert(k != i);
            assert(subs[k].user_id == uid);
            assert(has_subscriber(subs, uid));
        }
    }
}

/// Adding a subscription for a user who had none changes that user's queue
/// and nobody else's.
proof fn lemma_sub_push(subs: Seq<Subscriber>, fresh: Subscriber, uid: i32)
    requires
        sub_ids_unique(subs),
        !has_subscriber(subs, fresh.user_id),
    ensures
        sub_ids_unique(subs.push(fresh)),
        sub_queue(subs.push(fresh), fresh.user_id) == Some(fresh.queue@),
        uid != fresh.user_id ==> sub_queue(subs.push(fresh), uid) == sub_queue(subs, uid),
{
    let grown = subs.push(fresh);
    assert forall|p: int, q: int|
        0 <= p < q < grown.len() implies (#[trigger] grown[p]).user_id != (
    #[trigger] grown[q]).user_id by {
        if q < subs.len() {
            assert(subs[p].user_id != subs[q].user_id);
        } else {
            assert(grown[q] == fresh);
            assert(grown[p] == subs[p]);
            if subs[p].user_id == fresh.user_id {
                assert(has_subscriber(subs, fresh.user_id));
                assert(false);
            }
        }
    }
    lemma_sub_at(grown, subs.len() as int);
    if uid != fresh.user_id {
        if has_subscriber(subs, uid) {
            let k = choose|k: int| 0 <= k < subs.len() && (#[trigger] subs[k]).user_id == uid;
            assert(grown[k].user_id == uid);
            lemma_sub_at(subs, k);
            lemma_sub_at(grown, k);
        }
        if has_subscriber(grown, uid) {
            let k = choose|k: int| 0 <= k < grown.len() && (#[trigger] grown[k]).user_id == uid;
            assert(k < subs.len());
            assert(subs[k].user_id == uid);
            assert(has_subscriber(subs, uid));
        }
    }
}

/// Removing a subscription ends it for its user and changes nobody else's.
proof fn lemma_sub_remove(subs: Seq<Subscriber>, i: int, uid: i32)
    requires
        sub_ids_unique(subs),
        0 <= i < subs.len(),
    ensures
        sub_ids_unique(subs.remove(i)),
        sub_queue(subs.remove(i), subs[i].user_id) == None::<Seq<String>>,
        uid != subs[i].user_id ==> sub_queue(subs.remove(i), uid) == sub_queue(subs, uid),
{
    let rem = subs.remove(i);
    subs.remove_ensures(i);
    assert forall|p: int, q: int|
        0 <= p < q < rem.len() implies (#[trigger] rem[p]).user_id != (#[trigger] rem[q]).user_id by {
        let p0: int = if p < i {
            p
        } else {
            p + 1
        };
        let q0: int = if q < i {
            q
        } else {
            q + 1
        };
        assert(rem[p] == subs[p0]);
        assert(rem[q] == subs[q0]);
        assert(subs[p0].user_id != subs[q0].user_id);
    }
    if has_subscriber(rem, subs[i].user_id) {
        let k = choose|k: int| 0 <= k < rem.len() && (#[trigger] rem[k]).user_id == subs[i].user_id;
        let k0: int = if k < i {
            k
        } else {
            k + 1
        };
        assert(rem[k] == subs[k0]);
        assert(k0 != i);
        assert(subs[k0].user_id != subs[i].user_id);
        assert(false);
    }
    if uid != subs[i].user_id {
        if has_subscriber(subs, uid) {
            let k = choose|k: int| 0 <= k < subs.len() && (#[trigger] subs[k]).user_id == uid;
            assert(k != i);
            let k1: int = if k < i {
                k
            } else {
                k - 1
            };
            assert(rem[k1] == subs[k]);
            lemma_sub_at(subs, k);
            lemma_sub_at(rem, k1);
        }
        if has_subscriber(rem, uid) {
            let k = choose|k: int| 0 <= k < rem.len() && (#[trigger] rem[k]).user_id == uid;
            let k0: int = if k < i {
                k
            } else {
                k + 1
            };
            assert(rem[k] == subs[k0]);
            assert(has_subscriber(subs, uid));
        }
    }
}

/// The per-user, token-authorized push channel for ingestion progress.
///
/// Events are fire and forget: a publish for a user with no live subscriber
/// is dropped, with no queueing beyond the best-effort in-flight queue of the
/// one live subscription, and no replay. A subscription attempt must present
/// a token minted for exactly that user id, so one user cannot subscribe to
/// another's events. At most one subscription per user is live at a time; a
/// new subscribe replaces the old connection.
pub struct ProgressChannel {
    pub(crate) tokens: Vec<i32>,
    pub(crate) subscribers: Vec<Subscriber>,
}

impl ProgressChannel {
    /// Every token minted so far: the token's numeric value indexes the user
    /// id it was bound to at minting.
    pub open(crate) spec fn issued(self) -> Seq<i32> {
        self.tokens@
    }

    /// The live subscriptions.
    pub open(crate) spec fn subs(self) -> Seq<Subscriber> {
        self.subscribers@
    }

    /// The channel's invariant: at most one live subscription per user.
    pub open spec fn wf(self) -> bool {
        sub_ids_unique(self.subs())
    }

    /// Whether the given token was minted for the given user id.
    pub open spec fn token_valid(self, user_id: i32, token: u64) -> bool {
        token < self.issued().len() && self.issued()[token as int] == user_id
    }

    /// Creates a channel with no tokens issued and no subscribers connected.
    pub fn new() -> (c: ProgressChannel)
        ensures
            c.wf(),
            c.issued() == Seq::<i32>::empty(),
            c.subs() == Seq::<Subscriber>::empty(),
    {
        ProgressChannel { tokens: Vec::new(), subscribers: Vec::new() }
    }

    /// Mints a short-lived credential binding a push-subscription attempt to
    /// the given user id. The fresh token is valid for that user and every
    /// previously issued token keeps its binding.
    pub fn generate_auth_token(&mut self, user_id: i32) -> (token: u64)
        requires
            old(self).wf(),
        ensures
            final(self).wf(),
            final(self).issued() == old(self).issued().push(user_id),
            final(self).subs() == old(self).subs(),
            token == old(self).issued().len(),
            final(self).token_valid(user_id, token),
    {
        let token = self.tokens.len() as u64;
        self.tokens.push(user_id);
        token
    }

    /// Opens the given user's subscription, replacing any prior one, if the
    /// token was minted for that user; fails with [`Error::InvalidToken`],
    /// changing nothing, otherwise.
    pub fn subscribe(&mut self, user_id: i32, token: u64) -> (r: Result<(), Error>)
        requires
            old(self).wf(),
        ensures
            final(self).wf(),
            final(self).issued() == old(self).issued(),
            !old(self).token_valid(user_id, token) ==> {
                &&& r == Err::<(), Error>(Error::InvalidToken)
                &&& *final(self) == *old(self)
            },
            old(self).token_valid(user_id, token) ==> {
                &&& r == Ok::<(), Error>(())
                &&& sub_queue(final(self).subs(), user_id) == Some(Seq::<String>::empty())
                &&& forall|uid: i32|
                    uid != user_id ==> #[trigger] sub_queue(final(self).subs(), uid) == sub_queue(
                        old(self).subs(),
                        uid,
                    )
            },
    {
        if token < self.tokens.len() as u64 && self.tokens[token as usize] == user_id {
            let ghost prev = self.subscribers@;
            match find_subscriber(&self.subscribers, user_id) {
                Some(i) => {
                    self.subscribers[i] = Subscriber { user_id, queue: Vec::new() };
                    proof {
                        assert(self.subscribers@ =~= prev.update(
                            i as int,
                            self.subscribers@[i as int],
                        ));
                        assert forall|uid: i32|
                            uid != user_id implies #[trigger] sub_queue(self.subscribers@, uid)
                            == sub_queue(prev, uid) by {
                            lemma_sub_update(prev, i as int, self.subscribers@[i as int], uid);
                        }
                        lemma_sub_update(prev, i as int, self.subscribers@[i as int], user_id);
                    }
                },
                None => {
                    self.subscribers.push(Subscriber { user_id, queue: Vec::new() });
                    proof {
                        let fresh = self.subscribers@.last();
                        assert(self.subscribers@ =~= prev.push(fresh));
                        assert forall|uid: i32|
                            uid != user_id implies #[trigger] sub_queue(self.subscribers@, uid)
                            == sub_queue(prev, uid) by {
                            lemma_sub_push(prev, fresh, uid);
                        }
                        lemma_sub_push(prev, fresh, user_id);
                    }
                },
            }
            Ok(())
        } else {
            Err(Error::InvalidToken)
        }
    }

    /// Delivers the payload to the user's live subscription, if there is one,
    /// and drops it otherwise. Returns whether the event was delivered.
    pub fn publish(&mut self, user_id: i32, payload: String) -> (delivered: bool)
        requires
            old(self).wf(),
        ensures
            final(self).wf(),
            final(self).issued() == old(self).issued(),
            delivered == has_subscriber(old(self).subs(), user_id),
            !delivered ==> *final(self) == *old(self),
            delivered ==> {
                &&& (sub_queue(old(self).subs(), user_id) matches Some(q) && sub_queue(
                    final(self).subs(),
                    user_id,
                ) == Some(q.push(payload)))
                &&& forall|uid: i32|
                    uid != user_id ==> #[trigger] sub_queue(final(self).subs(), uid) == sub_queue(
                        old(self).subs(),
                        uid,
                    )
            },
    {
        let ghost prev = self.subscribers@;
        match find_subscriber(&self.subscribers, user_id) {
            Some(i) => {
                let mut queue = clone_string_vec(&self.subscribers[i].queue);
                queue.push(payload);
                self.subscribers[i] = Subscriber { user_id, queue };
                proof {
                    lemma_sub_at(prev, i as int);
                    assert(self.subscribers@ =~= prev.update(
                        i as int,
                        self.subscribers@[i as int],
                    ));
                    assert forall|uid: i32|
                        uid != user_id implies #[trigger] sub_queue(self.subscribers@, uid)
                        == sub_queue(prev, uid) by {
                        lemma_sub_update(prev, i as int, self.subscribers@[i as int], uid);
                    }
                    lemma_sub_update(prev, i as int, self.subscribers@[i as int], user_id);
                }
                true
            },
            None => false,
        }
    }

    /// Hands out the events queued on the user's subscription, oldest first,
    /// leaving the queue empty; a user with no subscription gets no events.
    pub fn take_events(&mut self, user_id: i32) -> (evs: Vec<String>)
        requires
            old(self).wf(),
        ensures
            final(self).wf(),
            final(self).issued() == old(self).issued(),
            !has_subscriber(old(self).subs(), user_id) ==> {
                &&& evs@ == Seq::<String>::empty()
                &&& *final(self) == *old(self)
            },
            has_subscriber(old(self).subs(), user_id) ==> {
                &&& sub_queue(old(self).subs(), user_id) == Some(evs@)
                &&& sub_queue(final(self).subs(), user_id) == Some(Seq::<String>::empty())
                &&& forall|uid: i32|
                    uid != user_id ==> #[trigger] sub_queue(final(self).subs(), uid) == sub_queue(
                        old(self).subs(),
                        uid,
                    )
            },
    {
        let ghost prev = self.subscribers@;
        match find_subscriber(&self.subscribers, user_id) {
            Some(i) => {
                let evs = clone_string_vec(&self.subscribers[i].queue);
                self.subscribers[i] = Subscriber { user_id, queue: Vec::new() };
                proof {
                    lemma_sub_at(prev, i as int);
                    assert(self.subscribers@ =~= prev.update(
                        i as int,
                        self.subscribers@[i as int],
                    ));
                    assert forall|uid: i32|
                        uid != user_id implies #[trigger] sub_queue(self.subscribers@, uid)
                        == sub_queue(prev, uid) by {
                        lemma_sub_update(prev, i as int, self.subscribers@[i as int], uid);
                    }
                    lemma_sub_update(prev, i as int, self.subscribers@[i as int], user_id);
                }
                evs
            },
            None => Vec::new(),
        }
    }

    /// Ends the user's subscription, if any: later publishes for the user are
    /// dropped until a new subscribe.
    pub fn disconnect(&mut self, user_id: i32)
        requires
            old(self).wf(),
        ensures
            final(self).wf(),
            final(self).issued() == old(self).issued(),
            sub_queue(final(self).subs(), user_id) == None::<Seq<String>>,
            forall|uid: i32|
                uid != user_id ==> #[trigger] sub_queue(final(self).subs(), uid) == sub_queue(
                    old(self).subs(),
                    uid,
                ),
    {
        let ghost prev = self.subscribers@;
        match find_subscriber(&self.subscribers, user_id) {
            Some(i) => {
                self.subscribers.remove(i);
                proof {
                    assert forall|uid: i32|
                        uid != user_id implies #[trigger] sub_queue(self.subscribers@, uid)
                        == sub_queue(prev, uid) by {
                        lemma_sub_remove(prev, i as int, uid);
                    }
                    lemma_sub_remove(prev, i as int, user_id);
                }
            },
            None => {
            },
        }
    }
}

/// Finds the index of the given user's live subscription, if any.
fn find_subscriber(subs: &Vec<Subscriber>, user_id: i32) -> (r: Option<usize>)
    ensures
        match r {
            Some(i) => i < subs@.len() && subs@[i as int].user_id == user_id,
            None => !has_subscriber(subs@, user_id),
        },
{
    let n = subs.len();
    let mut i: usize = 0;
    while i < n
        invariant
            i <= n,
            n == subs@.len(),
            forall|j: int| 0 <= j < i ==> (#[trigger] subs@[j]).user_id != user_id,
        decreases n - i,
    {
        if subs[i].user_id == user_id {
            return Some(i);
        }
        i = i + 1;
    }
    None
}

} // verus!
