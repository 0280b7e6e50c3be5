//! Fan-out delivery bus for decoded inbound messages.
//!
//! The reader publishes every decoded message; each subscriber owns an
//! independent backlog with a fixed capacity.  A publish appends the
//! message to every active backlog, evicting the oldest unread entry of
//! a backlog that is full, and never blocks on a slow subscriber.  The
//! bus keeps a ghost history of everything ever published; its
//! invariant — every active backlog is a suffix of that history — is
//! what makes the fan-out guarantees provable: each subscriber holds
//! the most recent messages in publish order, exactly once each, and a
//! subscription opened after a publish never sees that earlier message.

use vstd::prelude::*;

use crate::insteon_structs::InsteonMsg;

verus! {

/// Holds when `q` is what a backlog may hold: the most recent messages
/// of the published history `h`, in publish order.
pub open spec fn is_recent_suffix(q: Seq<InsteonMsg>, h: Seq<InsteonMsg>) -> bool {
    &&& q.len() <= h.len()
    &&& q == h.skip(h.len() - q.len())
}

/// What one publish of `m` makes of a backlog `q` with capacity `cap`:
/// the oldest entry is evicted first when the backlog is full, and `m`
/// is appended as the newest entry.
pub open spec fn backlog_after_publish(q: Seq<InsteonMsg>, cap: nat, m: InsteonMsg) -> Seq<
    InsteonMsg,
> {
    if q.len() >= cap {
        q.skip(1).push(m)
    } else {
        q.push(m)
    }
}

/// What one publish makes of the whole subscription table: every
/// active backlog takes the message, a full one evicting its oldest
/// entry first; closed slots stay closed.
pub open spec fn publish_transform(
    backlogs: Seq<Option<Seq<InsteonMsg>>>,
    cap: nat,
    m: InsteonMsg,
) -> Seq<Option<Seq<InsteonMsg>>> {
    Seq::new(
        backlogs.len(),
        |i: int|
            match backlogs[i] {
                Some(q) => Some(backlog_after_publish(q, cap, m)),
                None => None,
            },
    )
}

/// Bounded multi-subscriber broadcast of inbound messages.
///
/// Subscriptions are identified by the index handed out by
/// `subscribe`; indices are never reused, so a handle kept after
/// `unsubscribe` stays harmless.
pub struct MsgBus {
    capacity: usize,
    active: Vec<bool>,
    backlogs: Vec<Vec<InsteonMsg>>,
    history: Ghost<Seq<InsteonMsg>>,
}

impl MsgBus {
    /// The backlog capacity every subscription is created with.
    pub closed spec fn capacity_spec(&self) -> nat {
        self.capacity as nat
    }

    /// One entry per subscription ever made: `Some` with the unread
    /// backlog while it is active, `None` once unsubscribed.
    pub closed spec fn backlogs(&self) -> Seq<Option<Seq<InsteonMsg>>> {
        Seq::new(
            self.backlogs@.len(),
            |i: int|
                if self.active@[i] {
                    Some(self.backlogs@[i]@)
                } else {
                    None
                },
        )
    }

    /// Every message ever published, in publish order.
    pub closed spec fn history(&self) -> Seq<InsteonMsg> {
        self.history@
    }

    /// The bus invariant: the capacity is positive, and every active
    /// backlog holds at most `capacity` entries and is a suffix of the
    /// published history.
    pub closed spec fn wf(&self) -> bool {
        &&& self.capacity >= 1
        &&& self.active@.len() == self.backlogs@.len()
        &&& forall|i: int|
            0 <= i < self.backlogs@.len() && self.active@[i] ==> (#[trigger] self.backlogs@[i])@.len()
                <= self.capacity
        &&& forall|i: int|
            0 <= i < self.backlogs@.len() && self.active@[i] ==> is_recent_suffix(
                (#[trigger] self.backlogs@[i])@,
                self.history@,
            )
    }

    /// An empty bus whose subscriptions will each buffer up to
    /// `capacity` unread messages.
    pub fn new(capacity: usize) -> (b: MsgBus)
        requires
            capacity >= 1,
        ensures
            b.wf(),
            b.capacity_spec() == capacity,
            b.backlogs() =~= Seq::<Option<Seq<InsteonMsg>>>::empty(),
            b.history() =~= Seq::<InsteonMsg>::empty(),
    {
        MsgBus {
            capacity,
            active: Vec::new(),
            backlogs: Vec::new(),
            history: Ghost(Seq::empty()),
        }
    }

    /// Opens a new subscription and returns its handle.  The new
    /// backlog starts empty: nothing published before this call is
    /// replayed into it.
    pub fn subscribe(&mut self) -> (id: usize)
        requires
            old(self).wf(),
        ensures
            final(self).wf(),
            id == old(self).backlogs().len(),
            final(self).backlogs() =~= old(self).backlogs().push(Some(Seq::empty())),
            final(self).history() == old(self).history(),
            final(self).capacity_spec() == old(self).capacity_spec(),
    {
        let id = self.backlogs.len();
        self.active.push(true);
        self.backlogs.push(Vec::new());
        proof {
            assert(self.history@.skip(self.history@.len() - 0) =~= Seq::<InsteonMsg>::empty());
        }
        id
    }

    /// Closes a subscription, releasing its backlog at once.  The
    /// handle stays retired: it is never handed out again.
    pub fn unsubscribe(&mut self, id: usize)
        requires
            old(self).wf(),
            id < old(self).backlogs().len(),
        ensures
            final(self).wf(),
            final(self).backlogs() =~= old(self).backlogs().update(id as int, None),
            final(self).history() == old(self).history(),
            final(self).capacity_spec() == old(self).capacity_spec(),
    {
        self.active[id] = false;
        self.backlogs[id] = Vec::new();
    }

    /// Broadcasts one message: appends it to every active backlog,
    /// evicting the oldest unread entry of a backlog that is already
    /// full.  Closed subscriptions stay closed; no backlog is created
    /// or lost; the message becomes the newest entry of the history.
    pub fn publish(&mut self, msg: InsteonMsg)
        requires
            old(self).wf(),
        ensures
            final(self).wf(),
            final(self).history() == old(self).history().push(msg),
            final(self).capacity_spec() == old(self).capacity_spec(),
            final(self).backlogs() =~= publish_transform(
                old(self).backlogs(),
                old(self).capacity_spec(),
                msg,
            ),
    {
        let ghost h0 = self.history@;
        let ghost b0 = *self;
        proof {
            self.history@ = h0.push(msg);
        }
        let mut i: usize = 0;
        while i < self.backlogs.len()
            invariant
                self.capacity == b0.capacity,
                self.active@ == b0.active@,
                self.backlogs@.len() == b0.backlogs@.len(),
                self.history@ == h0.push(msg),
                b0.history@ == h0,
                b0.wf(),
                i <= self.backlogs@.len(),
                forall|j: int|
                    i <= j < self.backlogs@.len() ==> #[trigger] self.backlogs@[j]
                        == b0.backlogs@[j],
                forall|j: int|
                    0 <= j < i && self.active@[j] ==> (#[trigger] self.backlogs@[j])@
                        == backlog_after_publish(b0.backlogs@[j]@, self.capacity as nat, msg),
                forall|j: int|
                    0 <= j < i && self.active@[j] ==> (#[trigger] self.backlogs@[j])@.len()
                        <= self.capacity && is_recent_suffix(self.backlogs@[j]@, self.history@),
            decreases self.backlogs@.len() - i,
        {
            if self.active[i] {
                let ghost q0 = self.backlogs@[i as int]@;
                proof {
                    assert(self.backlogs@[i as int] == b0.backlogs@[i as int]);
                    assert(is_recent_suffix(q0, h0));
                    assert(q0.len() <= self.capacity);
                }
                let q = &mut self.backlogs[i];
                if q.len() == self.capacity {
                    q.remove(0);
                }
                q.push(msg);
                proof {
                    assert(self.backlogs@[i as int]@ =~= backlog_after_publish(
                        q0,
                        self.capacity as nat,
                        msg,
                    ));
                    assert(is_recent_suffix(q0, h0));
                    assert(self.backlogs@[i as int]@ =~= self.history@.skip(
                        self.history@.len() - self.backlogs@[i as int]@.len(),
                    ));
                }
            }
            i = i + 1;
        }
        proof {
            assert forall|j: int| 0 <= j < b0.backlogs().len() implies self.backlogs()[j] == match b0.backlogs()[j] {
                Some(q) => Some(backlog_after_publish(q, b0.capacity_spec(), msg)),
                None => None::<Seq<InsteonMsg>>,
            } by {
                if self.active@[j] {
                    assert(self.backlogs@[j]@ == backlog_after_publish(
                        b0.backlogs@[j]@,
                        self.capacity as nat,
                        msg,
                    ));
                }
            }
        }
    }

    /// Takes the oldest unread message of a subscription, if any.  The
    /// remaining backlog is the same messages without it; nothing else
    /// on the bus changes.
    pub fn recv(&mut self, id: usize) -> (r: Option<InsteonMsg>)
        requires
            old(self).wf(),
            id < old(self).backlogs().len(),
            old(self).backlogs()[id as int] is Some,
        ensures
            final(self).wf(),
            final(self).history() == old(self).history(),
            final(self).capacity_spec() == old(self).capacity_spec(),
            ({
                let q = old(self).backlogs()[id as int]->Some_0;
                if q.len() == 0 {
                    r is None && final(self).backlogs() =~= old(self).backlogs()
                } else {
                    r == Some(q[0]) && final(self).backlogs() =~= old(self).backlogs().update(
                        id as int,
                        Some(q.skip(1)),
                    )
                }
            }),
    {
        let ghost pre = *self;
        let ghost q0 = self.backlogs@[id as int]@;
        let q = &mut self.backlogs[id];
        if q.len() == 0 {
            return None;
        }
        let m = q.remove(0);
        proof {
            assert(self.backlogs@[id as int]@ =~= q0.skip(1));
            assert(is_recent_suffix(q0, self.history@));
            assert(q0.skip(1) =~= self.history@.skip(self.history@.len() - q0.skip(1).len()));
            assert(self.backlogs() =~= pre.backlogs().update(id as int, Some(q0.skip(1))));
        }
        Some(m)
    }
}

/// Fan-out order: in a well-formed bus, every active backlog holds
/// exactly the most recent published messages, in publish order — each
/// published message reaches each subscriber at most once, subscribers
/// agree on the relative order of what they hold, and nothing published
/// before a subscription existed can be in its backlog.
pub proof fn lemma_backlog_is_recent_history(b: MsgBus, i: int)
    requires
        b.wf(),
        0 <= i < b.backlogs().len(),
        b.backlogs()[i] is Some,
    ensures
        b.backlogs()[i] matches Some(q) && q == b.history().skip(b.history().len() - q.len()),
        b.backlogs()[i] matches Some(q) && forall|k: int|
            0 <= k < q.len() ==> q[k] == b.history()[b.history().len() - q.len() + k],
{
    let q = b.backlogs()[i]->Some_0;
    assert(is_recent_suffix(q, b.history()));
}

} // verus!
