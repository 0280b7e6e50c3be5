//! Gateway facade: the two operations offered to the external call
//! dispatcher, and the inbound path that fans messages out.
//!
//! `send_cmd` is fire and forget: it validates the request and hands
//! back the exact wire bytes to write, the caller acknowledging as
//! soon as they are written.  `send_cmd_reliable` additionally
//! registers a pending request with the delivery coordinator, whose
//! handle the runtime uses to drive retries and resolution.  Every
//! decoded inbound message goes through `handle_insteon_msg`, which
//! broadcasts it on the bus and correlates it against the pending
//! requests.  The dispatcher itself — sockets, threads, wire format of
//! the calls — lives outside; it hands this module plain values.

use vstd::prelude::*;

use crate::bus::{MsgBus, publish_transform};
use crate::encoder::{DEFAULT_SEND_FLAGS, brightness_from_level, brightness_of, encode_send,
    send_frame};
use crate::insteon_structs::{Command, InsteonMsg, command_code, u8Command};
use crate::reliable::{Coordinator, DEFAULT_BUS_BACKLOG, DEFAULT_MAX_ATTEMPTS, inbound_transform,
    should_ack, submitted};

verus! {

/// A request to set one device to one brightness level, as the call
/// dispatcher delivers it: the device address packed into the low
/// three bytes of a machine word, and a percent level.
#[derive(Clone, Copy, Debug, PartialEq)]
pub struct LightControl {
    pub device: u32,
    pub level: u32,
}

/// The command carried by a gateway call; empty when the caller sent
/// something the gateway does not know.
#[derive(Clone, Copy, Debug, PartialEq)]
pub enum CmdKind {
    LightControl(LightControl),
}

/// The envelope of a gateway call.
#[derive(Clone, Copy, Debug, PartialEq)]
pub struct CmdMsg {
    pub cmd: Option<CmdKind>,
}

/// A request routed to the gateway: best effort, or reliable.
#[derive(Clone, Copy, Debug, PartialEq)]
pub enum RpcActorMsg {
    SetLevel(LightControl),
    SetReliable(CmdMsg),
}

/// What the runtime must do to complete a routed request: write the
/// frame and acknowledge at once, or write it and drive the tracked
/// request until it resolves.
#[derive(Clone, Debug, PartialEq)]
pub enum RpcOutcome {
    /// Write these bytes and acknowledge the caller immediately.
    WriteAndAck(Vec<u8>),
    /// Write these bytes, then report the outcome and later events to
    /// the coordinator under this handle until the waiter resolves.
    WriteTracked(usize, Vec<u8>),
}

/// Why the gateway refused a call without touching the transport.
#[derive(Clone, Copy, Debug, PartialEq)]
pub enum RpcError {
    /// The call carried no command the gateway knows.
    UnknownCommand,
    /// The brightness level was above one hundred percent.
    InvalidLevel,
}

/// Unpacks a device address from the low three bytes of a machine
/// word, most significant of the three first, preserving byte order.
pub fn u32_u8(x: u32) -> (a: [u8; 3])
    ensures
        a@[0] == ((x >> 16) & 0xff) as u8,
        a@[1] == ((x >> 8) & 0xff) as u8,
        a@[2] == (x & 0xff) as u8,
{
    let b2: u8 = ((x >> 16) & 0xff) as u8;
    let b3: u8 = ((x >> 8) & 0xff) as u8;
    let b4: u8 = (x & 0xff) as u8;
    [b2, b3, b4]
}

/// The wire frame that sets a device to a brightness level: the `On`
/// command with the level scaled to the device's byte range, under the
/// gateway's default flags.
pub open spec fn level_frame(addr: Seq<u8>, level: int) -> Seq<u8> {
    send_frame(
        addr,
        DEFAULT_SEND_FLAGS,
        command_code(Command::On),
        brightness_of(level) as u8,
    )
}

/// Builds the wire frame that sets a device to a brightness level.
pub fn build_level_frame(device: &[u8; 3], level: u8) -> (out: Vec<u8>)
    requires
        level <= 100,
    ensures
        out@ == level_frame(device@, level as int),
        out@.len() == 8,
{
    let cmd2 = brightness_from_level(level);
    encode_send(device, DEFAULT_SEND_FLAGS, u8Command(Command::On), cmd2)
}

/// The shared gateway state: the fan-out bus the reader publishes
/// into, the coordinator tracking reliable sends, and the configured
/// write budget for each of them.
pub struct Gateway {
    pub bus: MsgBus,
    pub coordinator: Coordinator,
    pub max_attempts: usize,
}

impl Gateway {
    /// The gateway invariant: its bus and coordinator are well formed
    /// and the write budget is positive.
    pub open spec fn wf(&self) -> bool {
        &&& self.bus.wf()
        &&& self.coordinator.wf()
        &&& self.max_attempts >= 1
    }

    /// A gateway with the given per-subscription backlog capacity and
    /// per-request write budget, and nothing in flight.
    pub fn new(backlog_capacity: usize, max_attempts: usize) -> (g: Gateway)
        requires
            backlog_capacity >= 1,
            max_attempts >= 1,
        ensures
            g.wf(),
            g.max_attempts == max_attempts,
            g.bus.capacity_spec() == backlog_capacity,
            g.bus.backlogs() =~= Seq::<Option<Seq<InsteonMsg>>>::empty(),
            g.bus.history() =~= Seq::<InsteonMsg>::empty(),
            g.coordinator@ =~= Seq::<Option<crate::reliable::ReqModel>>::empty(),
    {
        Gateway { bus: MsgBus::new(backlog_capacity), coordinator: Coordinator::new(), max_attempts }
    }

    /// A gateway with the default backlog capacity and write budget.
    pub fn with_defaults() -> (g: Gateway)
        ensures
            g.wf(),
            g.max_attempts == DEFAULT_MAX_ATTEMPTS,
            g.bus.capacity_spec() == DEFAULT_BUS_BACKLOG,
            g.bus.backlogs() =~= Seq::<Option<Seq<InsteonMsg>>>::empty(),
            g.bus.history() =~= Seq::<InsteonMsg>::empty(),
            g.coordinator@ =~= Seq::<Option<crate::reliable::ReqModel>>::empty(),
    {
        Gateway::new(DEFAULT_BUS_BACKLOG, DEFAULT_MAX_ATTEMPTS)
    }

    /// Routes one decoded inbound message: broadcasts it to every bus
    /// subscriber and correlates it against the pending reliable
    /// sends.  Returns the handles of the requests it acknowledged, in
    /// increasing order; the runtime wakes those waiters with success.
    pub fn handle_insteon_msg(&mut self, m: InsteonMsg) -> (acked: Vec<usize>)
        requires
            old(self).wf(),
        ensures
            final(self).wf(),
            final(self).max_attempts == old(self).max_attempts,
            final(self).bus.capacity_spec() == old(self).bus.capacity_spec(),
            final(self).bus.history() == old(self).bus.history().push(m),
            final(self).bus.backlogs() =~= publish_transform(
                old(self).bus.backlogs(),
                old(self).bus.capacity_spec(),
                m,
            ),
            final(self).coordinator@ =~= inbound_transform(old(self).coordinator@, m),
            forall|id: usize|
                #[trigger] acked@.contains(id) <==> id < old(self).coordinator@.len() && should_ack(
                    old(self).coordinator@[id as int],
                    m,
                ),
            forall|j: int, k: int| 0 <= j < k < acked@.len() ==> acked@[j] < acked@[k],
    {
        self.bus.publish(m);
        self.coordinator.on_inbound(m)
    }

    /// Routes one request from the call dispatcher: a `SetLevel` goes
    /// the fire-and-forget way, a `SetReliable` registers a tracked
    /// request, each exactly as `send_cmd` and `send_cmd_reliable`
    /// describe.
    pub fn handle_rpc_msg(&mut self, msg: &RpcActorMsg) -> (r: Result<RpcOutcome, RpcError>)
        requires
            old(self).wf(),
        ensures
            final(self).wf(),
            final(self).bus == old(self).bus,
            final(self).max_attempts == old(self).max_attempts,
            match msg {
                RpcActorMsg::SetLevel(lc) => {
                    &&& final(self).coordinator@ =~= old(self).coordinator@
                    &&& match r {
                        Ok(out) => out matches RpcOutcome::WriteAndAck(frame) && lc.level <= 100
                            && frame@ == level_frame(
                            seq![
                                ((lc.device >> 16) & 0xff) as u8,
                                ((lc.device >> 8) & 0xff) as u8,
                                (lc.device & 0xff) as u8,
                            ],
                            lc.level as int,
                        ),
                        Err(e) => e == RpcError::InvalidLevel && lc.level > 100,
                    }
                },
                RpcActorMsg::SetReliable(req) => match r {
                    Ok(out) => {
                        &&& out matches RpcOutcome::WriteTracked(id, frame)
                        &&& req.cmd matches Some(CmdKind::LightControl(lc))
                        &&& lc.level <= 100
                        &&& frame@ == level_frame(
                            seq![
                                ((lc.device >> 16) & 0xff) as u8,
                                ((lc.device >> 8) & 0xff) as u8,
                                (lc.device & 0xff) as u8,
                            ],
                            lc.level as int,
                        )
                        &&& id == old(self).coordinator@.len()
                        &&& final(self).coordinator@ =~= old(self).coordinator@.push(
                            Some(
                                submitted(
                                    seq![
                                        ((lc.device >> 16) & 0xff) as u8,
                                        ((lc.device >> 8) & 0xff) as u8,
                                        (lc.device & 0xff) as u8,
                                    ],
                                    frame@,
                                    old(self).max_attempts as nat,
                                ),
                            ),
                        )
                    },
                    Err(RpcError::UnknownCommand) => req.cmd is None && final(self).coordinator@
                        =~= old(self).coordinator@,
                    Err(RpcError::InvalidLevel) => req.cmd matches Some(
                        CmdKind::LightControl(lc),
                    ) && lc.level > 100 && final(self).coordinator@ =~= old(self).coordinator@,
                },
            },
    {
        match msg {
            RpcActorMsg::SetLevel(lc) => {
                let req = CmdMsg { cmd: Some(CmdKind::LightControl(*lc)) };
                match self.send_cmd(&req) {
                    Ok(frame) => Ok(RpcOutcome::WriteAndAck(frame)),
                    Err(e) => Err(e),
                }
            },
            RpcActorMsg::SetReliable(req) => {
                match self.send_cmd_reliable(req) {
                    Ok((id, frame)) => Ok(RpcOutcome::WriteTracked(id, frame)),
                    Err(e) => Err(e),
                }
            },
        }
    }

    /// Fire-and-forget send: validates the call and returns the exact
    /// wire bytes to write, exactly when the call carries a known
    /// command with a level of at most one hundred percent.  The
    /// caller acknowledges once the bytes are written, regardless of
    /// anything the device does later.
    pub fn send_cmd(&self, req: &CmdMsg) -> (r: Result<Vec<u8>, RpcError>)
        ensures
            match r {
                Ok(frame) => {
                    &&& req.cmd matches Some(CmdKind::LightControl(lc))
                    &&& lc.level <= 100
                    &&& frame@ == level_frame(
                        seq![
                            ((lc.device >> 16) & 0xff) as u8,
                            ((lc.device >> 8) & 0xff) as u8,
                            (lc.device & 0xff) as u8,
                        ],
                        lc.level as int,
                    )
                },
                Err(RpcError::UnknownCommand) => req.cmd is None,
                Err(RpcError::InvalidLevel) => req.cmd matches Some(CmdKind::LightControl(lc))
                    && lc.level > 100,
            },
    {
        match req.cmd {
            None => Err(RpcError::UnknownCommand),
            Some(CmdKind::LightControl(lc)) => {
                if lc.level > 100 {
                    return Err(RpcError::InvalidLevel);
                }
                let addr = u32_u8(lc.device);
                let frame = build_level_frame(&addr, lc.level as u8);
                proof {
                    assert(addr@ =~= seq![
                        ((lc.device >> 16) & 0xff) as u8,
                        ((lc.device >> 8) & 0xff) as u8,
                        (lc.device & 0xff) as u8,
                    ]);
                }
                Ok(frame)
            },
        }
    }

    /// Reliable send: validates the call, registers a pending request
    /// under the gateway's write budget, and returns the request's
    /// handle with the wire bytes of its first write.  Succeeds
    /// exactly when the call carries a known command with a level of
    /// at most one hundred percent; on an error nothing is registered.
    /// The runtime writes the bytes, reports the outcome through the
    /// coordinator, and blocks the caller until the request resolves.
    pub fn send_cmd_reliable(&mut self, req: &CmdMsg) -> (r: Result<(usize, Vec<u8>), RpcError>)
        requires
            old(self).wf(),
        ensures
            final(self).wf(),
            final(self).bus == old(self).bus,
            final(self).max_attempts == old(self).max_attempts,
            match r {
                Ok((id, frame)) => {
                    &&& req.cmd matches Some(CmdKind::LightControl(lc))
                    &&& lc.level <= 100
                    &&& frame@ == level_frame(
                        seq![
                            ((lc.device >> 16) & 0xff) as u8,
                            ((lc.device >> 8) & 0xff) as u8,
                            (lc.device & 0xff) as u8,
                        ],
                        lc.level as int,
                    )
                    &&& id == old(self).coordinator@.len()
                    &&& final(self).coordinator@ =~= old(self).coordinator@.push(
                        Some(
                            submitted(
                                seq![
                                    ((lc.device >> 16) & 0xff) as u8,
                                    ((lc.device >> 8) & 0xff) as u8,
                                    (lc.device & 0xff) as u8,
                                ],
                                frame@,
                                old(self).max_attempts as nat,
                            ),
                        ),
                    )
                },
                Err(RpcError::UnknownCommand) => req.cmd is None && final(self).coordinator@
                    =~= old(self).coordinator@,
                Err(RpcError::InvalidLevel) => req.cmd matches Some(CmdKind::LightControl(lc))
                    && lc.level > 100 && final(self).coordinator@ =~= old(self).coordinator@,
            },
    {
        match req.cmd {
            None => Err(RpcError::UnknownCommand),
            Some(CmdKind::LightControl(lc)) => {
                if lc.level > 100 {
                    return Err(RpcError::InvalidLevel);
                }
                let addr = u32_u8(lc.device);
                let frame = build_level_frame(&addr, lc.level as u8);
                let resend = vstd::slice::slice_to_vec(frame.as_slice());
                let id = self.coordinator.submit(addr, resend, self.max_attempts);
                proof {
                    assert(addr@ =~= seq![
                        ((lc.device >> 16) & 0xff) as u8,
                        ((lc.device >> 8) & 0xff) as u8,
                        (lc.device & 0xff) as u8,
                    ]);
                }
                Ok((id, frame))
            },
        }
    }
}

} // verus!
