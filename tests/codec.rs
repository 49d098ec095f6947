use iol::codec::{deserialize, serialize, IolEvent, MalformedEvent};
use iol::input::{Axis, AxisVisitor, Button, ButtonVisitor, Scancode, ScancodeVisitor};

fn all_events() -> Vec<IolEvent> {
    vec![
        IolEvent::ButtonUp { id: 0, button: Button::A },
        IolEvent::ButtonDown { id: 300, button: Button::RightShoulder },
        IolEvent::ButtonDown { id: u32::MAX, button: Button::Touchpad },
        IolEvent::AxisMotion { id: 7, axis: Axis::LeftX, value: -32768 },
        IolEvent::AxisMotion { id: 7, axis: Axis::TriggerRight, value: 32767 },
        IolEvent::AxisMotion { id: 1, axis: Axis::RightY, value: 0 },
        IolEvent::KeyDown { scancode: Scancode { code: 4 }, repeat: false },
        IolEvent::KeyDown { scancode: Scancode { code: 512 }, repeat: true },
        IolEvent::KeyUp { scancode: Scancode { code: 284 } },
        IolEvent::PhysicalDeviceAdded { which: 12 },
        IolEvent::PhysicalDeviceRemoved { id: 128 },
        IolEvent::VirtualDeviceAdded { id: 3, which: 16384 },
    ]
}

#[test]
fn round_trip_every_variant() {
    for e in all_events() {
        let bytes = serialize(&e);
        assert!(bytes.len() <= 32);
        assert_eq!(deserialize(&bytes), Ok(e));
    }
}

#[test]
fn every_button_and_axis_round_trips() {
    let buttons = [
        Button::A, Button::B, Button::X, Button::Y, Button::Back, Button::Guide, Button::Start,
        Button::LeftStick, Button::RightStick, Button::LeftShoulder, Button::RightShoulder,
        Button::DPadUp, Button::DPadDown, Button::DPadLeft, Button::DPadRight, Button::Misc1,
        Button::Paddle1, Button::Paddle2, Button::Paddle3, Button::Paddle4, Button::Touchpad,
    ];
    for b in buttons {
        let e = IolEvent::ButtonDown { id: 5, button: b };
        assert_eq!(deserialize(&serialize(&e)), Ok(e));
    }
    let axes = [
        Axis::LeftX, Axis::LeftY, Axis::RightX, Axis::RightY, Axis::TriggerLeft, Axis::TriggerRight,
    ];
    for a in axes {
        for v in [-32768i16, -1, 0, 1, 63, 64, 8191, 8192, 32767] {
            let e = IolEvent::AxisMotion { id: 2, axis: a, value: v };
            assert_eq!(deserialize(&serialize(&e)), Ok(e));
        }
    }
}

#[test]
fn layout_matches_postcard() {
    let cases: Vec<(IolEvent, Vec<u8>)> = vec![
        (IolEvent::ButtonUp { id: 3, button: Button::A }, postcard::to_allocvec(&(0u32, 3u32, "a")).unwrap()),
        (
            IolEvent::ButtonDown { id: 300, button: Button::LeftShoulder },
            postcard::to_allocvec(&(1u32, 300u32, "leftshoulder")).unwrap(),
        ),
        (
            IolEvent::AxisMotion { id: 1, axis: Axis::TriggerRight, value: -200 },
            postcard::to_allocvec(&(2u32, 1u32, "righttrigger", -200i16)).unwrap(),
        ),
        (
            IolEvent::KeyDown { scancode: Scancode { code: 41 }, repeat: true },
            postcard::to_allocvec(&(3u32, 41i32, true)).unwrap(),
        ),
        (IolEvent::KeyUp { scancode: Scancode { code: 512 } }, postcard::to_allocvec(&(4u32, 512i32)).unwrap()),
        (IolEvent::PhysicalDeviceAdded { which: 70000 }, postcard::to_allocvec(&(5u32, 70000u32)).unwrap()),
        (IolEvent::PhysicalDeviceRemoved { id: 0 }, postcard::to_allocvec(&(6u32, 0u32)).unwrap()),
        (IolEvent::VirtualDeviceAdded { id: 9, which: 4 }, postcard::to_allocvec(&(7u32, 9u32, 4u32)).unwrap()),
    ];
    for (e, expected) in cases {
        assert_eq!(serialize(&e), expected);
    }
}

#[test]
fn exact_bytes() {
    assert_eq!(serialize(&IolEvent::ButtonDown { id: 0, button: Button::A }), vec![1, 0, 1, 97]);
    assert_eq!(serialize(&IolEvent::PhysicalDeviceRemoved { id: 300 }), vec![6, 0xAC, 0x02]);
    assert_eq!(
        serialize(&IolEvent::AxisMotion { id: 0, axis: Axis::LeftX, value: -1 }),
        vec![2, 0, 5, b'l', b'e', b'f', b't', b'x', 1]
    );
    assert_eq!(serialize(&IolEvent::KeyUp { scancode: Scancode { code: 4 } }), vec![4, 8]);
}

#[test]
fn largest_event_fits() {
    let e = IolEvent::AxisMotion { id: u32::MAX, axis: Axis::TriggerRight, value: -32768 };
    let bytes = serialize(&e);
    assert_eq!(bytes.len(), 1 + 5 + 1 + 12 + 3);
    assert!(bytes.len() <= 32);
}

#[test]
fn unknown_tag_is_malformed() {
    assert_eq!(deserialize(&[8, 0]), Err(MalformedEvent));
    assert_eq!(deserialize(&[]), Err(MalformedEvent));
}

#[test]
fn wrong_length_is_malformed() {
    assert_eq!(deserialize(&[6, 1, 0]), Err(MalformedEvent));
    assert_eq!(deserialize(&[7, 1]), Err(MalformedEvent));
    assert_eq!(deserialize(&[1, 0, 2, 97]), Err(MalformedEvent));
    assert_eq!(deserialize(&[6, 0x80]), Err(MalformedEvent));
}

#[test]
fn unknown_names_are_malformed() {
    assert_eq!(deserialize(&[1, 0, 1, b'z']), Err(MalformedEvent));
    assert_eq!(deserialize(&[1, 0, 1, b'A']), Err(MalformedEvent));
    assert_eq!(deserialize(&[2, 0, 5, b'l', b'e', b'f', b't', b'z', 0]), Err(MalformedEvent));
}

#[test]
fn unknown_scancode_is_malformed() {
    // 130 zigzag-maps to 260
    assert_eq!(deserialize(&[4, 0x84, 0x02]), Err(MalformedEvent));
    assert_eq!(deserialize(&[4, 0]), Err(MalformedEvent));
    assert_eq!(deserialize(&[3, 8, 2]), Err(MalformedEvent));
}

#[test]
fn overlong_numbers_are_malformed() {
    // zero written in two bytes
    assert_eq!(deserialize(&[6, 0x80, 0x00]), Err(MalformedEvent));
    // a device id above u32::MAX
    assert_eq!(deserialize(&[6, 0xFF, 0xFF, 0xFF, 0xFF, 0x1F]), Err(MalformedEvent));
    assert_eq!(deserialize(&[6, 0xFF, 0xFF, 0xFF, 0xFF, 0x0F]), Ok(IolEvent::PhysicalDeviceRemoved { id: u32::MAX }));
    // an axis value above the 16-bit range
    assert_eq!(deserialize(&[2, 0, 5, b'l', b'e', b'f', b't', b'x', 0x80, 0x80, 0x04]), Err(MalformedEvent));
}

#[test]
fn scancode_visitor_checks_range() {
    assert_eq!(ScancodeVisitor.visit_i64(4), Ok(Scancode { code: 4 }));
    assert_eq!(ScancodeVisitor.visit_i64(512), Ok(Scancode { code: 512 }));
    assert_eq!(ScancodeVisitor.visit_i64(0), Err(MalformedEvent));
    assert_eq!(ScancodeVisitor.visit_i64(130), Err(MalformedEvent));
    assert_eq!(ScancodeVisitor.visit_i64(-4), Err(MalformedEvent));
    assert_eq!(ScancodeVisitor.visit_i64(4 + (1i64 << 32)), Err(MalformedEvent));
    assert_eq!(ScancodeVisitor.visit_u64(231), Ok(Scancode { code: 231 }));
    assert_eq!(ScancodeVisitor.visit_u64(u64::MAX), Err(MalformedEvent));
}

#[test]
fn name_visitors() {
    assert_eq!(ButtonVisitor.visit_str("dpup"), Ok(Button::DPadUp));
    assert_eq!(ButtonVisitor.visit_str("paddle4"), Ok(Button::Paddle4));
    assert_eq!(ButtonVisitor.visit_str("dpu"), Err(MalformedEvent));
    assert_eq!(ButtonVisitor.visit_str(""), Err(MalformedEvent));
    assert_eq!(AxisVisitor.visit_str("lefttrigger"), Ok(Axis::TriggerLeft));
    assert_eq!(AxisVisitor.visit_str("righty"), Ok(Axis::RightY));
    assert_eq!(AxisVisitor.visit_str("rightz"), Err(MalformedEvent));
}

#[test]
fn name_visitors_ignore_letter_case() {
    assert_eq!(ButtonVisitor.visit_str("A"), Ok(Button::A));
    assert_eq!(ButtonVisitor.visit_str("LeftShoulder"), Ok(Button::LeftShoulder));
    assert_eq!(ButtonVisitor.visit_str("DPDOWN"), Ok(Button::DPadDown));
    assert_eq!(ButtonVisitor.visit_str("+a"), Err(MalformedEvent));
    assert_eq!(AxisVisitor.visit_str("LeftX"), Ok(Axis::LeftX));
    assert_eq!(AxisVisitor.visit_str("RIGHTTRIGGER"), Ok(Axis::TriggerRight));
}

#[test]
fn axis_visitor_passes_over_one_sign() {
    assert_eq!(AxisVisitor.visit_str("+leftx"), Ok(Axis::LeftX));
    assert_eq!(AxisVisitor.visit_str("-RightY"), Ok(Axis::RightY));
    assert_eq!(AxisVisitor.visit_str("+"), Err(MalformedEvent));
    assert_eq!(AxisVisitor.visit_str("++leftx"), Err(MalformedEvent));
    assert_eq!(AxisVisitor.visit_str("leftx+"), Err(MalformedEvent));
}

#[test]
fn wire_names_are_lower_case_only() {
    assert_eq!(deserialize(&[1, 0, 1, b'a']), Ok(IolEvent::ButtonDown { id: 0, button: Button::A }));
    assert_eq!(deserialize(&[1, 0, 1, b'A']), Err(MalformedEvent));
}
