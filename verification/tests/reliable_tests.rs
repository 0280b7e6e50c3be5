use vinsteon::insteon_structs::InsteonMsg;
use vinsteon::reliable::{
    ACK_WAIT_INTERVAL_SEC, Coordinator, DEFAULT_BUS_BACKLOG, DEFAULT_MAX_ATTEMPTS, ReqAction,
    SEND_RETRIES,
};

fn ack_from(addr: [u8; 3]) -> InsteonMsg {
    InsteonMsg::StandardMsg {
        addr_from: addr,
        addr_to: [0, 0, 0],
        msg_flags: 0x2B,
        cmd1: 0x11,
        cmd2: 0xFF,
    }
}

/// Drives one request through `max_attempts` acknowledgment-free
/// attempts and returns how many writes the transport saw.
fn run_without_ack(max_attempts: usize) -> (Coordinator, usize, usize) {
    let mut c = Coordinator::new();
    let id = c.submit([1, 2, 3], vec![0x02, 0x62, 1, 2, 3, 0x0F, 0x11, 0xFF], max_attempts);
    let mut writes: usize = 1; // the submit itself is the first write
    assert_eq!(c.on_write_result(id, true), ReqAction::Ignore);
    loop {
        match c.on_timeout(id) {
            ReqAction::Resend => {
                writes += 1;
                assert_eq!(c.on_write_result(id, true), ReqAction::Ignore);
            }
            ReqAction::ResolveFailure => break,
            other => panic!("unexpected action {:?}", other),
        }
    }
    (c, id, writes)
}

#[test]
fn exhaustion_after_exactly_max_attempts_writes() {
    for max in [1usize, 3, 8, 10] {
        let (_, _, writes) = run_without_ack(max);
        assert_eq!(writes, max);
    }
}

#[test]
fn late_timer_after_exhaustion_is_a_silent_noop() {
    let (mut c, id, _) = run_without_ack(3);
    assert_eq!(c.on_timeout(id), ReqAction::Ignore);
    assert_eq!(c.on_write_result(id, true), ReqAction::Ignore);
}

#[test]
fn timer_for_an_unknown_handle_is_ignored() {
    let mut c = Coordinator::new();
    assert_eq!(c.on_timeout(7), ReqAction::Ignore);
    assert_eq!(c.on_write_result(7, false), ReqAction::Ignore);
}

#[test]
fn matching_ack_after_second_write_stops_retries() {
    let addr = [0xAB, 0xCD, 0xEF];
    let mut c = Coordinator::new();
    let id = c.submit(addr, vec![0x02, 0x62, 0xAB, 0xCD, 0xEF, 0x0F, 0x11, 0x80], 5);
    let mut writes: usize = 1;
    assert_eq!(c.on_write_result(id, true), ReqAction::Ignore);
    // First attempt times out: the identical command goes out again.
    assert_eq!(c.on_timeout(id), ReqAction::Resend);
    writes += 1;
    assert_eq!(c.on_write_result(id, true), ReqAction::Ignore);
    // The acknowledgment arrives after the second write.
    let acked = c.on_inbound(ack_from(addr));
    assert_eq!(acked, vec![id]);
    // The late timer changes nothing: no third write.
    assert_eq!(c.on_timeout(id), ReqAction::Ignore);
    assert_eq!(writes, 2);
}

#[test]
fn ack_from_another_address_does_not_resolve() {
    let mut c = Coordinator::new();
    let id = c.submit([1, 2, 3], vec![0xAA], 3);
    assert_eq!(c.on_write_result(id, true), ReqAction::Ignore);
    assert!(c.on_inbound(ack_from([9, 9, 9])).is_empty());
    // Still pending: the next timeout resends.
    assert_eq!(c.on_timeout(id), ReqAction::Resend);
}

#[test]
fn non_standard_messages_do_not_resolve() {
    let mut c = Coordinator::new();
    let id = c.submit([1, 2, 3], vec![0xAA], 3);
    assert_eq!(c.on_write_result(id, true), ReqAction::Ignore);
    let noise = InsteonMsg::ButtonEventReport { button_event: 1 };
    assert!(c.on_inbound(noise).is_empty());
    assert_eq!(c.on_timeout(id), ReqAction::Resend);
}

#[test]
fn two_requests_to_distinct_addresses_resolve_independently() {
    let addr_a = [0x10, 0x20, 0x30];
    let addr_b = [0x40, 0x50, 0x60];
    let mut c = Coordinator::new();
    let ra = c.submit(addr_a, vec![0xA1], 4);
    let rb = c.submit(addr_b, vec![0xB1], 4);
    assert_eq!(c.on_write_result(ra, true), ReqAction::Ignore);
    assert_eq!(c.on_write_result(rb, true), ReqAction::Ignore);
    // The first target acknowledges: only its waiter wakes.
    assert_eq!(c.on_inbound(ack_from(addr_a)), vec![ra]);
    // The other request keeps running, unaffected.
    assert_eq!(c.on_timeout(rb), ReqAction::Resend);
    assert_eq!(c.on_write_result(rb, true), ReqAction::Ignore);
    // Its own acknowledgment then resolves it too.
    assert_eq!(c.on_inbound(ack_from(addr_b)), vec![rb]);
    // Both are gone: every further event is a no-op.
    assert_eq!(c.on_timeout(ra), ReqAction::Ignore);
    assert_eq!(c.on_timeout(rb), ReqAction::Ignore);
}

#[test]
fn one_ack_wakes_every_waiter_on_that_address() {
    let addr = [7, 7, 7];
    let mut c = Coordinator::new();
    let r1 = c.submit(addr, vec![0x01], 3);
    let r2 = c.submit(addr, vec![0x02], 3);
    assert_eq!(c.on_write_result(r1, true), ReqAction::Ignore);
    assert_eq!(c.on_write_result(r2, true), ReqAction::Ignore);
    assert_eq!(c.on_inbound(ack_from(addr)), vec![r1, r2]);
}

#[test]
fn failed_write_fails_the_waiter_immediately() {
    let mut c = Coordinator::new();
    let id = c.submit([1, 1, 1], vec![0xA0], 5);
    assert_eq!(c.on_write_result(id, false), ReqAction::ResolveFailure);
    // The entry is destroyed: nothing more happens for it.
    assert_eq!(c.on_timeout(id), ReqAction::Ignore);
    assert!(c.on_inbound(ack_from([1, 1, 1])).is_empty());
}

#[test]
fn an_ack_before_write_confirmation_is_not_taken() {
    let addr = [2, 4, 6];
    let mut c = Coordinator::new();
    let id = c.submit(addr, vec![0xC0], 3);
    // Still in the sent state: the wait has not started.
    assert!(c.on_inbound(ack_from(addr)).is_empty());
    assert_eq!(c.on_write_result(id, true), ReqAction::Ignore);
    assert_eq!(c.on_inbound(ack_from(addr)), vec![id]);
}

#[test]
fn configured_defaults() {
    assert_eq!(SEND_RETRIES, 8);
    assert_eq!(DEFAULT_MAX_ATTEMPTS, 9);
    assert_eq!(ACK_WAIT_INTERVAL_SEC, 1);
    assert_eq!(DEFAULT_BUS_BACKLOG, 10);
}
