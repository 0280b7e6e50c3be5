//! Reliable delivery coordinator.
//!
//! A reliable send writes a command, waits for a weakly correlated
//! acknowledgment on the shared inbound stream, and retries under a
//! bounded budget.  The coordinator owns one `PendingRequest` per
//! in-flight send, keyed by a handle that is never reused; requests for
//! different target addresses progress independently.  The surrounding
//! runtime performs the writes, arms the timers and wakes the waiters;
//! every decision — resend, resolve with success, resolve with failure,
//! or ignore a stale event — is taken here, by the transition functions
//! below, and each terminal transition destroys its entry, so a timer
//! that fires after its request has resolved is a silent no-op.

use vstd::prelude::*;

use crate::insteon_structs::InsteonMsg;

verus! {

/// Retries granted to a reliable send after its first write, matching
/// the timeout event numbering of the delivery loop.
pub const SEND_RETRIES: usize = 8;

/// Seconds a reliable send waits for an acknowledgment per attempt.
pub const ACK_WAIT_INTERVAL_SEC: u64 = 1;

/// Default total write budget of a reliable send: the initial write
/// plus `SEND_RETRIES` timed-out resends.
pub const DEFAULT_MAX_ATTEMPTS: usize = SEND_RETRIES + 1;

/// Default backlog capacity of a bus subscription.
pub const DEFAULT_BUS_BACKLOG: usize = 10;

/// Where one reliable send stands.
#[derive(Clone, Copy, Debug, PartialEq)]
pub enum ReqState {
    /// The command bytes were handed to the transport; the write is
    /// not yet confirmed.
    Sent,
    /// The write succeeded; waiting for a matching inbound message
    /// until the attempt's deadline.
    AwaitingAck,
    /// Terminal: a matching acknowledgment arrived.
    Acked,
    /// Terminal: every attempt timed out.
    Exhausted,
    /// Terminal: the transport failed to write.
    WriteFailed,
}

/// What the runtime must do after feeding an event to the coordinator.
#[derive(Clone, Copy, Debug, PartialEq)]
pub enum ReqAction {
    /// Write the request's command bytes again and arm a fresh
    /// timeout.
    Resend,
    /// Wake the request's waiter with success.
    ResolveSuccess,
    /// Wake the request's waiter with failure.
    ResolveFailure,
    /// Nothing: the event was late, stale, or not a decision point.
    Ignore,
}

/// One in-flight reliable send.
pub struct PendingRequest {
    /// Target device address; inbound messages are correlated by it.
    pub addr: [u8; 3],
    /// The framed command bytes, written again verbatim on each retry.
    pub cmd: Vec<u8>,
    /// Total write budget the request was submitted with.
    pub max_attempts: usize,
    /// Retries still allowed after the write currently in flight.
    pub attempts_remaining: usize,
    /// Where the request stands.
    pub state: ReqState,
}

/// Specification-level image of one pending request.
pub struct ReqModel {
    pub addr: Seq<u8>,
    pub cmd: Seq<u8>,
    pub max_attempts: nat,
    pub attempts_remaining: nat,
    pub state: ReqState,
}

impl View for PendingRequest {
    type V = ReqModel;

    open spec fn view(&self) -> ReqModel {
        ReqModel {
            addr: self.addr@,
            cmd: self.cmd@,
            max_attempts: self.max_attempts as nat,
            attempts_remaining: self.attempts_remaining as nat,
            state: self.state,
        }
    }
}

/// A state in which the request's entry has been destroyed and its
/// waiter woken.
pub open spec fn is_terminal(s: ReqState) -> bool {
    s == ReqState::Acked || s == ReqState::Exhausted || s == ReqState::WriteFailed
}

/// Writes of the command performed so far on behalf of this request:
/// each attempt spends one unit of the budget.
pub open spec fn writes_made(r: ReqModel) -> int {
    r.max_attempts - r.attempts_remaining
}

/// A well-formed pending request: the budget is positive and not
/// overdrawn, and a stored request is never in a terminal state.
pub open spec fn req_wf(r: ReqModel) -> bool {
    &&& r.max_attempts >= 1
    &&& r.attempts_remaining < r.max_attempts
    &&& !is_terminal(r.state)
}

/// Whether an inbound message acknowledges a request targeting `addr`:
/// a standard message whose source address equals the target, byte for
/// byte.  The wire protocol carries no request id; this address match
/// is the whole correlation.
pub open spec fn matches_ack(addr: Seq<u8>, m: InsteonMsg) -> bool {
    m matches InsteonMsg::StandardMsg { addr_from, .. } && addr_from@ == addr
}

/// The freshly submitted request: full budget, one write in flight.
pub open spec fn submitted(addr: Seq<u8>, cmd: Seq<u8>, max_attempts: nat) -> ReqModel {
    ReqModel {
        addr: addr,
        cmd: cmd,
        max_attempts: max_attempts,
        attempts_remaining: (max_attempts - 1) as nat,
        state: ReqState::Sent,
    }
}

/// Transition on the outcome of a write.  A confirmed write starts the
/// wait for the acknowledgment; a failed write resolves the request
/// with failure at once.  In any other state the event is stale.
pub open spec fn step_write_result(r: ReqModel, ok: bool) -> (ReqModel, ReqAction) {
    if r.state == ReqState::Sent {
        if ok {
            (ReqModel { state: ReqState::AwaitingAck, ..r }, ReqAction::Ignore)
        } else {
            (ReqModel { state: ReqState::WriteFailed, ..r }, ReqAction::ResolveFailure)
        }
    } else {
        (r, ReqAction::Ignore)
    }
}

/// Transition on an expired attempt deadline.  While retries remain,
/// one is spent and the identical command is written again; with none
/// left the request is exhausted and its waiter fails.  A timer firing
/// in any other state — in particular after the request resolved — is
/// a silent no-op.
pub open spec fn step_timeout(r: ReqModel) -> (ReqModel, ReqAction) {
    if r.state == ReqState::AwaitingAck {
        if r.attempts_remaining > 0 {
            (
                ReqModel {
                    state: ReqState::Sent,
                    attempts_remaining: (r.attempts_remaining - 1) as nat,
                    ..r
                },
                ReqAction::Resend,
            )
        } else {
            (ReqModel { state: ReqState::Exhausted, ..r }, ReqAction::ResolveFailure)
        }
    } else {
        (r, ReqAction::Ignore)
    }
}

/// Transition on an inbound message.  A waiting request whose target
/// matches the message's source resolves with success; any other
/// request is left alone.
pub open spec fn step_inbound(r: ReqModel, m: InsteonMsg) -> (ReqModel, ReqAction) {
    if r.state == ReqState::AwaitingAck && matches_ack(r.addr, m) {
        (ReqModel { state: ReqState::Acked, ..r }, ReqAction::ResolveSuccess)
    } else {
        (r, ReqAction::Ignore)
    }
}

/// Whether an inbound message resolves the request held in a slot.
pub open spec fn should_ack(slot: Option<ReqModel>, m: InsteonMsg) -> bool {
    slot matches Some(r) && r.state == ReqState::AwaitingAck && matches_ack(r.addr, m)
}

/// What one inbound message makes of the whole request table: every
/// waiting request the message acknowledges is resolved and destroyed;
/// every other slot is untouched.
pub open spec fn inbound_transform(slots: Seq<Option<ReqModel>>, m: InsteonMsg) -> Seq<
    Option<ReqModel>,
> {
    Seq::new(
        slots.len(),
        |i: int|
            if should_ack(slots[i], m) {
                None
            } else {
                slots[i]
            },
    )
}

/// The cycle a waiting request goes through when no acknowledgment
/// arrives: its attempt deadline expires, the identical command is
/// written again, and the write is confirmed.
pub open spec fn retry_cycle(r: ReqModel) -> ReqModel {
    step_write_result(step_timeout(r).0, true).0
}

/// A waiting request after `k` acknowledgment-free retry cycles.
pub open spec fn after_retries(r: ReqModel, k: nat) -> ReqModel
    decreases k,
{
    if k == 0 {
        r
    } else {
        after_retries(retry_cycle(r), (k - 1) as nat)
    }
}

/// Each acknowledgment-free retry cycle spends exactly one retry on
/// one more write of the identical command, and changes nothing else
/// about the request.
pub proof fn lemma_after_retries(r0: ReqModel, k: nat)
    requires
        r0.state == ReqState::AwaitingAck,
        k <= r0.attempts_remaining,
    ensures
        ({
            let r = after_retries(r0, k);
            &&& r.state == ReqState::AwaitingAck
            &&& r.addr == r0.addr
            &&& r.cmd == r0.cmd
            &&& r.max_attempts == r0.max_attempts
            &&& r.attempts_remaining == r0.attempts_remaining - k
        }),
    decreases k,
{
    if k > 0 {
        lemma_after_retries(retry_cycle(r0), (k - 1) as nat);
    }
}

/// Reliable delivery without an acknowledgment: a request submitted
/// with a total budget of `max_attempts` writes, whose first write was
/// confirmed, answers each of its first `max_attempts - 1` timeouts
/// with a resend of the identical command — after `k` of them exactly
/// `1 + k` writes have happened — and the timeout that follows the
/// last write resolves the waiter with failure: exactly `max_attempts`
/// writes in all, and not one more.
pub proof fn lemma_exhaustion_after_max_attempts(r0: ReqModel, k: nat)
    requires
        r0.state == ReqState::AwaitingAck,
        r0.max_attempts >= 1,
        r0.attempts_remaining == r0.max_attempts - 1,
        k <= r0.max_attempts - 1,
    ensures
        ({
            let r = after_retries(r0, k);
            &&& r.state == ReqState::AwaitingAck
            &&& r.cmd == r0.cmd
            &&& writes_made(r) == 1 + k
            &&& k < r0.max_attempts - 1 ==> step_timeout(r).1 == ReqAction::Resend
            &&& k == r0.max_attempts - 1 ==> step_timeout(r) == (
                ReqModel { state: ReqState::Exhausted, ..r },
                ReqAction::ResolveFailure,
            )
        }),
{
    lemma_after_retries(r0, k);
}

/// A matching acknowledgment resolves a waiting request with success
/// and makes it terminal: a timer that fires afterwards is a silent
/// no-op, and in particular causes no further write.
pub proof fn lemma_ack_ends_request(r: ReqModel, m: InsteonMsg)
    requires
        r.state == ReqState::AwaitingAck,
        matches_ack(r.addr, m),
    ensures
        ({
            let (r2, a) = step_inbound(r, m);
            &&& a == ReqAction::ResolveSuccess
            &&& r2.state == ReqState::Acked
            &&& is_terminal(r2.state)
            &&& writes_made(r2) == writes_made(r)
            &&& step_timeout(r2) == (r2, ReqAction::Ignore)
        }),
{
}

/// Reliable delivery with an acknowledgment after the second write:
/// one timeout resends the command, the matching inbound message then
/// resolves the waiter with success after exactly two writes, and a
/// late timer changes nothing — no third write occurs.
pub proof fn lemma_ack_after_second_write(r0: ReqModel, m: InsteonMsg)
    requires
        r0.state == ReqState::AwaitingAck,
        r0.max_attempts >= 2,
        r0.attempts_remaining == r0.max_attempts - 1,
        matches_ack(r0.addr, m),
    ensures
        ({
            let r1 = after_retries(r0, 1);
            let (r2, a) = step_inbound(r1, m);
            &&& writes_made(r1) == 2
            &&& a == ReqAction::ResolveSuccess
            &&& writes_made(r2) == 2
            &&& step_timeout(r2) == (r2, ReqAction::Ignore)
        }),
{
    lemma_after_retries(r0, 1);
    lemma_ack_ends_request(after_retries(r0, 1), m);
}

/// Two reliable sends to different target addresses progress and
/// resolve independently: the acknowledgment from the first target
/// wakes exactly the waiter on that address and leaves the other
/// request untouched; the acknowledgment from the second target then
/// wakes the other waiter.  Every slot not acknowledged is preserved
/// verbatim by each inbound message.
pub proof fn lemma_independent_requests(
    slots: Seq<Option<ReqModel>>,
    i: int,
    j: int,
    ri: ReqModel,
    rj: ReqModel,
    ma: InsteonMsg,
    mb: InsteonMsg,
)
    requires
        0 <= i < slots.len(),
        0 <= j < slots.len(),
        i != j,
        slots[i] == Some(ri),
        slots[j] == Some(rj),
        ri.state == ReqState::AwaitingAck,
        rj.state == ReqState::AwaitingAck,
        ri.addr != rj.addr,
        matches_ack(ri.addr, ma),
        matches_ack(rj.addr, mb),
    ensures
        ({
            let s1 = inbound_transform(slots, ma);
            let s2 = inbound_transform(s1, mb);
            &&& should_ack(slots[i], ma)
            &&& s1[i] is None
            &&& s1[j] == slots[j]
            &&& should_ack(s1[j], mb)
            &&& s2[j] is None
        }),
{
    assert(!matches_ack(rj.addr, ma));
    assert(!matches_ack(ri.addr, mb));
}

/// Replacing one slot preserves well-formedness of the whole table
/// when the new occupant, if any, is itself well formed.
proof fn lemma_wf_preserved_by_update(
    c0: Seq<Option<ReqModel>>,
    c1: Seq<Option<ReqModel>>,
    id: int,
    v: Option<ReqModel>,
)
    requires
        forall|i: int| 0 <= i < c0.len() ==> ((#[trigger] c0[i]) matches Some(r) ==> req_wf(r)),
        0 <= id < c0.len(),
        c1 =~= c0.update(id, v),
        v matches Some(r) ==> req_wf(r),
    ensures
        forall|i: int| 0 <= i < c1.len() ==> ((#[trigger] c1[i]) matches Some(r) ==> req_wf(r)),
{
    assert forall|i: int| 0 <= i < c1.len() implies ((#[trigger] c1[i]) matches Some(r) ==>
    req_wf(r)) by {
        if i == id {
            assert(c1[i] == v);
        } else {
            assert(c1[i] == c0[i]);
        }
    }
}

/// Tracks every in-flight reliable send, one slot per handle ever
/// issued.  A resolved or failed request leaves `None` behind; handles
/// are never reused, so late events against old handles fall through
/// harmlessly.
pub struct Coordinator {
    reqs: Vec<Option<PendingRequest>>,
}

impl View for Coordinator {
    type V = Seq<Option<ReqModel>>;

    closed spec fn view(&self) -> Seq<Option<ReqModel>> {
        Seq::new(
            self.reqs@.len(),
            |i: int|
                match self.reqs@[i] {
                    Some(r) => Some(r@),
                    None => None,
                },
        )
    }
}

impl Coordinator {
    /// Every stored request is well formed.
    pub open spec fn wf(&self) -> bool {
        forall|i: int|
            0 <= i < self@.len() ==> ((#[trigger] self@[i]) matches Some(r) ==> req_wf(r))
    }

    /// A coordinator with no request in flight.
    pub fn new() -> (c: Coordinator)
        ensures
            c.wf(),
            c@ =~= Seq::<Option<ReqModel>>::empty(),
    {
        Coordinator { reqs: Vec::new() }
    }

    /// Registers a reliable send whose first write the caller is about
    /// to perform: target address, the exact command bytes to repeat,
    /// and the total write budget.  Returns the request's handle.
    pub fn submit(&mut self, addr: [u8; 3], cmd: Vec<u8>, max_attempts: usize) -> (id: usize)
        requires
            old(self).wf(),
            max_attempts >= 1,
        ensures
            final(self).wf(),
            id == old(self)@.len(),
            final(self)@ =~= old(self)@.push(
                Some(submitted(addr@, cmd@, max_attempts as nat)),
            ),
    {
        let id = self.reqs.len();
        self.reqs.push(
            Some(
                PendingRequest {
                    addr,
                    cmd,
                    max_attempts,
                    attempts_remaining: max_attempts - 1,
                    state: ReqState::Sent,
                },
            ),
        );
        proof {
            assert(self@ =~= old(self)@.push(Some(submitted(addr@, cmd@, max_attempts as nat))));
            assert forall|k: int|
                0 <= k < self@.len() implies ((#[trigger] self@[k]) matches Some(r) ==> req_wf(
                r,
            )) by {
                if k < old(self)@.len() {
                    assert(self@[k] == old(self)@[k]);
                } else {
                    assert(self@[k] == Some(submitted(addr@, cmd@, max_attempts as nat)));
                }
            }
        }
        id
    }

    /// Feeds the outcome of a write back to the request's state
    /// machine.  A handle that is out of range or already resolved
    /// makes this a no-op; a failed write destroys the entry and asks
    /// the runtime to fail the waiter.
    pub fn on_write_result(&mut self, id: usize, ok: bool) -> (act: ReqAction)
        requires
            old(self).wf(),
        ensures
            final(self).wf(),
            id >= old(self)@.len() ==> final(self)@ =~= old(self)@ && act == ReqAction::Ignore,
            id < old(self)@.len() ==> match old(self)@[id as int] {
                None => final(self)@ =~= old(self)@ && act == ReqAction::Ignore,
                Some(r) => {
                    let (r2, a) = step_write_result(r, ok);
                    &&& act == a
                    &&& final(self)@ =~= old(self)@.update(
                        id as int,
                        if is_terminal(r2.state) {
                            None
                        } else {
                            Some(r2)
                        },
                    )
                },
            },
    {
        if id >= self.reqs.len() {
            return ReqAction::Ignore;
        }
        let mut slot: Option<PendingRequest> = None;
        core::mem::swap(&mut slot, &mut self.reqs[id]);
        match slot {
            None => {
                proof {
                    assert(self@ =~= old(self)@);
                }
                ReqAction::Ignore
            },
            Some(mut r) => {
                let ghost r0 = r@;
                proof {
                    assert(old(self)@[id as int] == Some(r0));
                    assert(req_wf(r0));
                }
                match r.state {
                    ReqState::Sent => {
                        if ok {
                            r.state = ReqState::AwaitingAck;
                            self.reqs[id] = Some(r);
                            proof {
                                assert(self@ =~= old(self)@.update(
                                    id as int,
                                    Some(step_write_result(r0, true).0),
                                ));
                                lemma_wf_preserved_by_update(
                                    old(self)@,
                                    self@,
                                    id as int,
                                    Some(step_write_result(r0, true).0),
                                );
                            }
                            ReqAction::Ignore
                        } else {
                            // The entry stays destroyed; the waiter fails now.
                            proof {
                                assert(self@ =~= old(self)@.update(id as int, None));
                                lemma_wf_preserved_by_update(old(self)@, self@, id as int, None);
                            }
                            ReqAction::ResolveFailure
                        }
                    },
                    _ => {
                        self.reqs[id] = Some(r);
                        proof {
                            assert(self@ =~= old(self)@.update(id as int, Some(r0)));
                            lemma_wf_preserved_by_update(old(self)@, self@, id as int, Some(r0));
                        }
                        ReqAction::Ignore
                    },
                }
            },
        }
    }

    /// Feeds an expired attempt deadline to the request's state
    /// machine.  The runtime resends on `Resend`, fails the waiter on
    /// `ResolveFailure`, and does nothing on `Ignore` — in particular,
    /// a timer that outlived its request lands on an empty slot and is
    /// ignored.
    pub fn on_timeout(&mut self, id: usize) -> (act: ReqAction)
        requires
            old(self).wf(),
        ensures
            final(self).wf(),
            id >= old(self)@.len() ==> final(self)@ =~= old(self)@ && act == ReqAction::Ignore,
            id < old(self)@.len() ==> match old(self)@[id as int] {
                None => final(self)@ =~= old(self)@ && act == ReqAction::Ignore,
                Some(r) => {
                    let (r2, a) = step_timeout(r);
                    &&& act == a
                    &&& final(self)@ =~= old(self)@.update(
                        id as int,
                        if is_terminal(r2.state) {
                            None
                        } else {
                            Some(r2)
                        },
                    )
                },
            },
    {
        if id >= self.reqs.len() {
            return ReqAction::Ignore;
        }
        let mut slot: Option<PendingRequest> = None;
        core::mem::swap(&mut slot, &mut self.reqs[id]);
        match slot {
            None => {
                proof {
                    assert(self@ =~= old(self)@);
                }
                ReqAction::Ignore
            },
            Some(mut r) => {
                let ghost r0 = r@;
                proof {
                    assert(old(self)@[id as int] == Some(r0));
                    assert(req_wf(r0));
                }
                match r.state {
                    ReqState::AwaitingAck => {
                        if r.attempts_remaining > 0 {
                            r.attempts_remaining = r.attempts_remaining - 1;
                            r.state = ReqState::Sent;
                            self.reqs[id] = Some(r);
                            proof {
                                assert(self@ =~= old(self)@.update(
                                    id as int,
                                    Some(step_timeout(r0).0),
                                ));
                                lemma_wf_preserved_by_update(
                                    old(self)@,
                                    self@,
                                    id as int,
                                    Some(step_timeout(r0).0),
                                );
                            }
                            ReqAction::Resend
                        } else {
                            // Budget exhausted: the entry stays destroyed.
                            proof {
                                assert(self@ =~= old(self)@.update(id as int, None));
                                lemma_wf_preserved_by_update(old(self)@, self@, id as int, None);
                            }
                            ReqAction::ResolveFailure
                        }
                    },
                    _ => {
                        self.reqs[id] = Some(r);
                        proof {
                            assert(self@ =~= old(self)@.update(id as int, Some(r0)));
                            lemma_wf_preserved_by_update(old(self)@, self@, id as int, Some(r0));
                        }
                        ReqAction::Ignore
                    },
                }
            },
        }
    }

    /// Correlates one inbound message against every in-flight request:
    /// each waiting request whose target address equals the message's
    /// source resolves with success and its entry is destroyed; every
    /// other request is untouched.  Returns the handles to wake, in
    /// increasing order.
    pub fn on_inbound(&mut self, m: InsteonMsg) -> (acked: Vec<usize>)
        requires
            old(self).wf(),
        ensures
            final(self).wf(),
            final(self)@ =~= inbound_transform(old(self)@, m),
            forall|id: usize|
                #[trigger] acked@.contains(id) <==> id < old(self)@.len() && should_ack(
                    old(self)@[id as int],
                    m,
                ),
            forall|j: int, k: int| 0 <= j < k < acked@.len() ==> acked@[j] < acked@[k],
    {
        let ghost pre = self@;
        let mut acked: Vec<usize> = Vec::new();
        let mut i: usize = 0;
        while i < self.reqs.len()
            invariant
                self.reqs@.len() == pre.len(),
                i <= pre.len(),
                forall|j: int| i <= j < pre.len() ==> #[trigger] self@[j] == pre[j],
                forall|j: int|
                    0 <= j < i ==> #[trigger] self@[j] == (if should_ack(pre[j], m) {
                        None
                    } else {
                        pre[j]
                    }),
                forall|id: usize|
                    #[trigger] acked@.contains(id) <==> id < i && should_ack(pre[id as int], m),
                forall|j: int, k: int| 0 <= j < k < acked@.len() ==> acked@[j] < acked@[k],
                forall|j: int| 0 <= j < acked@.len() ==> #[trigger] acked@[j] < i,
            decreases pre.len() - i,
        {
            let ghost acked0 = acked@;
            proof {
                assert(self@[i as int] == pre[i as int]);
            }
            let resolve: bool = match &self.reqs[i] {
                Some(r) => {
                    match (&r.state, &m) {
                        (ReqState::AwaitingAck, InsteonMsg::StandardMsg { addr_from, .. }) => {
                            let hit = addr_from[0] == r.addr[0] && addr_from[1] == r.addr[1]
                                && addr_from[2] == r.addr[2];
                            proof {
                                assert(pre[i as int] == Some(r@));
                                if hit {
                                    assert(addr_from@ =~= r.addr@);
                                    assert(should_ack(pre[i as int], m));
                                } else {
                                    assert(addr_from@ != r.addr@) by {
                                        if addr_from@ == r.addr@ {
                                            assert(addr_from@[0] == r.addr@[0]);
                                            assert(addr_from@[1] == r.addr@[1]);
                                            assert(addr_from@[2] == r.addr@[2]);
                                        }
                                    }
                                    assert(!should_ack(pre[i as int], m));
                                }
                            }
                            hit
                        },
                        _ => {
                            proof {
                                assert(!should_ack(pre[i as int], m));
                            }
                            false
                        },
                    }
                },
                None => {
                    proof {
                        assert(!should_ack(pre[i as int], m));
                    }
                    false
                },
            };
            proof {
                assert(resolve == should_ack(pre[i as int], m));
            }
            let ghost s0 = self@;
            if resolve {
                self.reqs[i] = None;
                acked.push(i);
                proof {
                    assert forall|j: int|
                        0 <= j < pre.len() && j != i as int implies #[trigger] self@[j] == s0[j]
                    by {}
                    assert(self@[i as int] is None);
                }
            }
            proof {
                assert forall|id: usize| #[trigger] acked@.contains(id) implies id < i + 1
                    && should_ack(pre[id as int], m) by {
                    let k = choose|k: int| 0 <= k < acked@.len() && acked@[k] == id;
                    if k < acked0.len() {
                        assert(acked0[k] == id);
                        assert(acked0.contains(id));
                    } else {
                        assert(resolve && id == i);
                    }
                }
                assert forall|id: usize|
                    id < i + 1 && should_ack(pre[id as int], m) implies #[trigger] acked@.contains(
                    id,
                ) by {
                    if id < i {
                        assert(acked0.contains(id));
                        let k = choose|k: int| 0 <= k < acked0.len() && acked0[k] == id;
                        assert(acked@[k] == id);
                    } else {
                        assert(resolve);
                        assert(acked@[acked@.len() - 1] == id);
                    }
                }
            }
            i = i + 1;
        }
        proof {
            assert(self@ =~= inbound_transform(pre, m));
            assert forall|k: int|
                0 <= k < self@.len() implies ((#[trigger] self@[k]) matches Some(r) ==> req_wf(
                r,
            )) by {
                assert(old(self)@[k] == pre[k]);
                if !should_ack(pre[k], m) {
                    assert(self@[k] == pre[k]);
                }
            }
        }
        acked
    }
}

} // verus!
