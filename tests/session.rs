use iol::broadcast::{fixup_axis, registration_request, Broadcaster, LocalInput};
use iol::codec::{deserialize, serialize, IolEvent};
use iol::input::{Axis, Button, Scancode};
use iol::listen::{Action, Listener};
use iol::vigem::{A, X};

fn registered_listener() -> Listener {
    let mut l = Listener::new();
    let act = l.receive(&serialize(&IolEvent::PhysicalDeviceAdded { which: 42 }));
    assert_eq!(act, Action::BringUp { which: 42 });
    let (id, _) = l.register(42).unwrap();
    assert_eq!(id, 0);
    l
}

#[test]
fn fixup_extreme_value() {
    assert_eq!(fixup_axis(Axis::LeftY, -32768), 32767);
    assert_eq!(fixup_axis(Axis::RightX, -32768), 32767);
    assert_eq!(fixup_axis(Axis::LeftY, 100), -100);
    assert_eq!(fixup_axis(Axis::RightX, 32767), -32767);
    assert_eq!(fixup_axis(Axis::LeftX, -32768), -32768);
    assert_eq!(fixup_axis(Axis::TriggerLeft, 300), 300);
}

#[test]
fn registration_acks_fresh_ids() {
    let mut l = Listener::new();
    let (id0, ack0) = l.register(42).unwrap();
    assert_eq!(id0, 0);
    assert_eq!(deserialize(&ack0), Ok(IolEvent::VirtualDeviceAdded { id: 0, which: 42 }));
    let (id1, ack1) = l.register(42).unwrap();
    assert_eq!(id1, 1);
    assert_eq!(deserialize(&ack1), Ok(IolEvent::VirtualDeviceAdded { id: 1, which: 42 }));
    // removal does not free the id for reuse
    assert_eq!(l.handle(IolEvent::PhysicalDeviceRemoved { id: 1 }), Action::Unplug { id: 1 });
    let (id2, _) = l.register(7).unwrap();
    assert_eq!(id2, 2);
}

#[test]
fn second_removal_is_noop() {
    let mut l = registered_listener();
    assert_eq!(l.handle(IolEvent::PhysicalDeviceRemoved { id: 0 }), Action::Unplug { id: 0 });
    assert_eq!(l.handle(IolEvent::PhysicalDeviceRemoved { id: 0 }), Action::Drop);
    assert!(l.state_of(0).is_none());
    assert_eq!(l.handle(IolEvent::ButtonDown { id: 0, button: Button::A }), Action::Drop);
}

#[test]
fn unknown_id_is_dropped() {
    let mut l = registered_listener();
    assert_eq!(l.handle(IolEvent::ButtonDown { id: 999, button: Button::A }), Action::Drop);
    assert_eq!(l.handle(IolEvent::AxisMotion { id: 999, axis: Axis::LeftX, value: 5 }), Action::Drop);
    assert!(l.state_of(999).is_none());
    assert_eq!(l.state_of(0).unwrap().button_state, 0);
    assert_eq!(l.state_of(0).unwrap().gamepad.thumb_lx, 0);
    // device 0 is untouched: its next report holds only what it was sent
    match l.handle(IolEvent::ButtonDown { id: 0, button: Button::X }) {
        Action::Report { id, report } => {
            assert_eq!(id, 0);
            assert_eq!(report.buttons, X);
            assert_eq!(report.thumb_lx, 0);
        }
        other => panic!("unexpected {:?}", other),
    }
}

#[test]
fn malformed_datagram_is_dropped() {
    let mut l = registered_listener();
    assert_eq!(l.receive(&[9, 9, 9]), Action::Drop);
    assert_eq!(l.receive(&[]), Action::Drop);
}

#[test]
fn keyboard_and_ack_events_are_dropped_by_receiver() {
    let mut l = registered_listener();
    assert_eq!(l.handle(IolEvent::KeyDown { scancode: Scancode { code: 4 }, repeat: false }), Action::Drop);
    assert_eq!(l.handle(IolEvent::VirtualDeviceAdded { id: 0, which: 1 }), Action::Drop);
}

#[test]
fn end_to_end_button_a() {
    let mut sender = Broadcaster::new();
    sender.set_connected(true);
    let mut l = Listener::new();
    let request = sender.device_added(42).unwrap();
    assert_eq!(request, registration_request(42));
    assert_eq!(l.receive(&request), Action::BringUp { which: 42 });
    let (id, ack) = l.register(42).unwrap();
    assert_eq!(id, 0);
    assert!(sender.accept_ack(42, &ack));
    assert_eq!(sender.lookup_netid(42), Some(0));

    let down = sender.outgoing(LocalInput::ButtonDown { which: 42, button: Button::A }).unwrap();
    assert_eq!(down, IolEvent::ButtonDown { id: 0, button: Button::A });
    match l.receive(&serialize(&down)) {
        Action::Report { id, report } => {
            assert_eq!(id, 0);
            assert_eq!(report.buttons & A, A);
        }
        other => panic!("unexpected {:?}", other),
    }
    assert_eq!(l.state_of(0).unwrap().button_state & A, A);
    let up = sender.outgoing(LocalInput::ButtonUp { which: 42, button: Button::A }).unwrap();
    match l.receive(&serialize(&up)) {
        Action::Report { id, report } => {
            assert_eq!(id, 0);
            assert_eq!(report.buttons & A, 0);
        }
        other => panic!("unexpected {:?}", other),
    }
}

#[test]
fn end_to_end_right_trigger() {
    let mut l = registered_listener();
    let e = IolEvent::AxisMotion { id: 0, axis: Axis::TriggerRight, value: 32767 };
    match l.receive(&serialize(&e)) {
        Action::Report { id, report } => {
            assert_eq!(id, 0);
            assert_eq!(report.right_trigger, 255);
        }
        other => panic!("unexpected {:?}", other),
    }
}

#[test]
fn interleaved_devices_keep_their_own_state() {
    let mut l = Listener::new();
    l.register(1).unwrap();
    l.register(2).unwrap();
    let events = [
        IolEvent::ButtonDown { id: 0, button: Button::A },
        IolEvent::AxisMotion { id: 1, axis: Axis::LeftX, value: 1000 },
        IolEvent::ButtonDown { id: 1, button: Button::X },
        IolEvent::AxisMotion { id: 0, axis: Axis::TriggerLeft, value: 32767 },
    ];
    let mut last = Vec::new();
    for e in events {
        last.push(l.handle(e));
    }
    match (last[2], last[3]) {
        (Action::Report { id: i1, report: r1 }, Action::Report { id: i0, report: r0 }) => {
            assert_eq!(i1, 1);
            assert_eq!(r1.buttons, X);
            assert_eq!(r1.thumb_lx, 1000);
            assert_eq!(r1.left_trigger, 0);
            assert_eq!(i0, 0);
            assert_eq!(r0.buttons, A);
            assert_eq!(r0.thumb_lx, 0);
            assert_eq!(r0.left_trigger, 255);
        }
        other => panic!("unexpected {:?}", other),
    }
}

#[test]
fn sender_relays_only_registered_devices() {
    let mut sender = Broadcaster::new();
    assert_eq!(sender.outgoing(LocalInput::ButtonDown { which: 5, button: Button::B }), None);
    assert_eq!(sender.device_added(5), None);
    sender.set_connected(true);
    let ack = serialize(&IolEvent::VirtualDeviceAdded { id: 3, which: 5 });
    // an acknowledgment for another local device does not register this one
    assert!(!sender.accept_ack(6, &ack));
    assert!(!sender.accept_ack(5, &serialize(&IolEvent::PhysicalDeviceRemoved { id: 3 })));
    assert!(!sender.accept_ack(5, &[200]));
    assert_eq!(sender.lookup_netid(5), None);
    assert!(sender.accept_ack(5, &ack));
    assert_eq!(
        sender.outgoing(LocalInput::AxisMotion { which: 5, axis: Axis::LeftY, value: -32768 }),
        Some(IolEvent::AxisMotion { id: 3, axis: Axis::LeftY, value: 32767 })
    );
    sender.set_broadcast_gamepad(false);
    assert_eq!(sender.outgoing(LocalInput::ButtonDown { which: 5, button: Button::B }), None);
}

#[test]
fn sender_keyboard_switch_and_repeats() {
    let mut sender = Broadcaster::new();
    let k = Scancode { code: 44 };
    assert_eq!(
        sender.outgoing(LocalInput::KeyDown { scancode: k, repeat: false }),
        Some(IolEvent::KeyDown { scancode: k, repeat: false })
    );
    assert_eq!(sender.outgoing(LocalInput::KeyDown { scancode: k, repeat: true }), None);
    assert_eq!(sender.outgoing(LocalInput::KeyUp { scancode: k }), Some(IolEvent::KeyUp { scancode: k }));
    sender.set_broadcast_keyboard(false);
    assert_eq!(sender.outgoing(LocalInput::KeyUp { scancode: k }), None);
}

#[test]
fn sender_detach_and_disconnect() {
    let mut sender = Broadcaster::new();
    sender.set_connected(true);
    assert!(sender.accept_ack(5, &serialize(&IolEvent::VirtualDeviceAdded { id: 0, which: 5 })));
    assert!(sender.accept_ack(6, &serialize(&IolEvent::VirtualDeviceAdded { id: 1, which: 6 })));
    assert!(sender.accept_ack(7, &serialize(&IolEvent::VirtualDeviceAdded { id: 2, which: 7 })));
    let notice = sender.device_removed(6).unwrap();
    assert_eq!(deserialize(&notice), Ok(IolEvent::PhysicalDeviceRemoved { id: 1 }));
    assert_eq!(sender.device_removed(6), None);
    assert_eq!(sender.lookup_netid(5), Some(0));
    assert_eq!(sender.lookup_netid(7), Some(2));
    let notices = sender.disconnect();
    let ids: Vec<IolEvent> = notices.iter().map(|n| deserialize(n).unwrap()).collect();
    assert_eq!(
        ids,
        vec![IolEvent::PhysicalDeviceRemoved { id: 0 }, IolEvent::PhysicalDeviceRemoved { id: 2 }]
    );
    assert!(!sender.connected());
    assert_eq!(sender.lookup_netid(5), None);
}
