use vinsteon::insteon_structs::InsteonMsg;
use vinsteon::reliable::ReqAction;
use vinsteon::rpc::{CmdKind, CmdMsg, Gateway, LightControl, RpcActorMsg, RpcError, RpcOutcome};

fn light(device: u32, level: u32) -> CmdMsg {
    CmdMsg { cmd: Some(CmdKind::LightControl(LightControl { device, level })) }
}

#[test]
fn send_cmd_returns_the_wire_frame() {
    let g = Gateway::with_defaults();
    let frame = g.send_cmd(&light(0x1AD0F4, 100)).expect("a valid call must succeed");
    assert_eq!(frame, vec![0x02, 0x62, 0x1A, 0xD0, 0xF4, 0x0F, 0x11, 0xFF]);
}

#[test]
fn send_cmd_without_a_command_is_unknown() {
    let g = Gateway::with_defaults();
    assert_eq!(g.send_cmd(&CmdMsg { cmd: None }), Err(RpcError::UnknownCommand));
}

#[test]
fn send_cmd_rejects_a_level_above_one_hundred() {
    let g = Gateway::with_defaults();
    assert_eq!(g.send_cmd(&light(0x123456, 101)), Err(RpcError::InvalidLevel));
}

#[test]
fn reliable_send_registers_and_resolves_on_matching_ack() {
    let mut g = Gateway::with_defaults();
    let (id, frame) = g.send_cmd_reliable(&light(0x0A0B0C, 50)).expect("valid");
    assert_eq!(frame, vec![0x02, 0x62, 0x0A, 0x0B, 0x0C, 0x0F, 0x11, 128]);
    assert_eq!(g.coordinator.on_write_result(id, true), ReqAction::Ignore);
    let ack = InsteonMsg::StandardMsg {
        addr_from: [0x0A, 0x0B, 0x0C],
        addr_to: [0, 0, 0],
        msg_flags: 0x2B,
        cmd1: 0x11,
        cmd2: 128,
    };
    let woken = g.handle_insteon_msg(ack);
    assert_eq!(woken, vec![id]);
    assert_eq!(g.coordinator.on_timeout(id), ReqAction::Ignore);
}

#[test]
fn reliable_send_validates_before_registering() {
    let mut g = Gateway::with_defaults();
    assert_eq!(
        g.send_cmd_reliable(&CmdMsg { cmd: None }),
        Err(RpcError::UnknownCommand)
    );
    assert_eq!(
        g.send_cmd_reliable(&light(1, 200)),
        Err(RpcError::InvalidLevel)
    );
    // Nothing was registered: any handle is stale.
    assert_eq!(g.coordinator.on_timeout(0), ReqAction::Ignore);
}

#[test]
fn handle_rpc_msg_routes_both_operations() {
    let mut g = Gateway::with_defaults();
    match g.handle_rpc_msg(&RpcActorMsg::SetLevel(LightControl { device: 0x010203, level: 0 })) {
        Ok(RpcOutcome::WriteAndAck(frame)) => {
            assert_eq!(frame, vec![0x02, 0x62, 0x01, 0x02, 0x03, 0x0F, 0x11, 0]);
        }
        other => panic!("expected a fire-and-forget write, got {:?}", other),
    }
    match g.handle_rpc_msg(&RpcActorMsg::SetReliable(light(0x010203, 100))) {
        Ok(RpcOutcome::WriteTracked(id, frame)) => {
            assert_eq!(frame, vec![0x02, 0x62, 0x01, 0x02, 0x03, 0x0F, 0x11, 0xFF]);
            assert_eq!(g.coordinator.on_write_result(id, true), ReqAction::Ignore);
        }
        other => panic!("expected a tracked write, got {:?}", other),
    }
}

#[test]
fn inbound_messages_reach_bus_subscribers_and_waiters() {
    let mut g = Gateway::with_defaults();
    let observer = g.bus.subscribe();
    let (id, _) = g.send_cmd_reliable(&light(0x111213, 25)).expect("valid");
    assert_eq!(g.coordinator.on_write_result(id, true), ReqAction::Ignore);
    let ack = InsteonMsg::StandardMsg {
        addr_from: [0x11, 0x12, 0x13],
        addr_to: [9, 9, 9],
        msg_flags: 0,
        cmd1: 0x11,
        cmd2: 64,
    };
    assert_eq!(g.handle_insteon_msg(ack), vec![id]);
    // The passive observer saw the same message through the bus.
    assert_eq!(g.bus.recv(observer), Some(ack));
    assert_eq!(g.bus.recv(observer), None);
}
