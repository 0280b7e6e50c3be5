use vinsteon::bus::MsgBus;
use vinsteon::insteon_structs::InsteonMsg;

fn button(n: u8) -> InsteonMsg {
    InsteonMsg::ButtonEventReport { button_event: n }
}

#[test]
fn fanout_delivers_to_every_subscriber_exactly_once() {
    let mut bus = MsgBus::new(10);
    let a = bus.subscribe();
    let b = bus.subscribe();
    bus.publish(button(1));
    assert_eq!(bus.recv(a), Some(button(1)));
    assert_eq!(bus.recv(b), Some(button(1)));
    // Exactly once: nothing more is buffered for either.
    assert_eq!(bus.recv(a), None);
    assert_eq!(bus.recv(b), None);
}

#[test]
fn subscribers_see_publishes_in_the_same_order() {
    let mut bus = MsgBus::new(10);
    let a = bus.subscribe();
    let b = bus.subscribe();
    for n in 1..=4 {
        bus.publish(button(n));
    }
    for n in 1..=4 {
        assert_eq!(bus.recv(a), Some(button(n)));
    }
    for n in 1..=4 {
        assert_eq!(bus.recv(b), Some(button(n)));
    }
}

#[test]
fn late_subscriber_never_sees_earlier_messages() {
    let mut bus = MsgBus::new(10);
    let early = bus.subscribe();
    bus.publish(button(1));
    let late = bus.subscribe();
    bus.publish(button(2));
    assert_eq!(bus.recv(early), Some(button(1)));
    assert_eq!(bus.recv(early), Some(button(2)));
    // The late subscription starts after the first publish.
    assert_eq!(bus.recv(late), Some(button(2)));
    assert_eq!(bus.recv(late), None);
}

#[test]
fn full_backlog_evicts_the_oldest_unread_entry() {
    let mut bus = MsgBus::new(3);
    let a = bus.subscribe();
    for n in 1..=5 {
        bus.publish(button(n));
    }
    // Capacity three: entries 1 and 2 were evicted, newest kept.
    assert_eq!(bus.recv(a), Some(button(3)));
    assert_eq!(bus.recv(a), Some(button(4)));
    assert_eq!(bus.recv(a), Some(button(5)));
    assert_eq!(bus.recv(a), None);
}

#[test]
fn slow_subscriber_does_not_block_others() {
    let mut bus = MsgBus::new(2);
    let slow = bus.subscribe();
    let fast = bus.subscribe();
    for n in 1..=3 {
        bus.publish(button(n));
        assert_eq!(bus.recv(fast), Some(button(n)));
    }
    // The slow reader lost only its oldest entry.
    assert_eq!(bus.recv(slow), Some(button(2)));
    assert_eq!(bus.recv(slow), Some(button(3)));
    assert_eq!(bus.recv(slow), None);
}

#[test]
fn unsubscribed_handle_receives_nothing_more() {
    let mut bus = MsgBus::new(4);
    let a = bus.subscribe();
    let b = bus.subscribe();
    bus.publish(button(1));
    bus.unsubscribe(a);
    bus.publish(button(2));
    assert_eq!(bus.recv(b), Some(button(1)));
    assert_eq!(bus.recv(b), Some(button(2)));
    // A fresh subscription still gets its own handle and traffic.
    let c = bus.subscribe();
    bus.publish(button(3));
    assert_eq!(bus.recv(c), Some(button(3)));
}
