use iol::input::{Axis, Button};
use iol::vigem::{ViGEMState, XGamepad, A, B, BACK, LB, UP};

fn rest() -> XGamepad {
    XGamepad {
        buttons: 0,
        left_trigger: 0,
        right_trigger: 0,
        thumb_lx: 0,
        thumb_ly: 0,
        thumb_rx: 0,
        thumb_ry: 0,
    }
}

#[test]
fn new_controller_is_at_rest() {
    let s = ViGEMState::new();
    assert_eq!(s.button_state, 0);
    assert_eq!(s.gamepad, rest());
    assert!(!s.socd_horizontal);
    assert!(!s.socd_vertical);
}

#[test]
fn trigger_rescale_ends() {
    let mut s = ViGEMState::new();
    assert_eq!(s.from_sdl2_axis(Axis::TriggerRight, 32767).right_trigger, 255);
    assert_eq!(s.from_sdl2_axis(Axis::TriggerRight, 0).right_trigger, 0);
    assert_eq!(s.from_sdl2_axis(Axis::TriggerLeft, 32767).left_trigger, 255);
    assert_eq!(s.from_sdl2_axis(Axis::TriggerLeft, 0).left_trigger, 0);
}

#[test]
fn trigger_rescale_middle_and_negative() {
    let mut s = ViGEMState::new();
    assert_eq!(s.from_sdl2_axis(Axis::TriggerLeft, 16384).left_trigger, 128);
    assert_eq!(s.from_sdl2_axis(Axis::TriggerLeft, 127).left_trigger, 0);
    assert_eq!(s.from_sdl2_axis(Axis::TriggerLeft, 128).left_trigger, 1);
    // a trigger's magnitude is never negative: a negative value reads as released
    assert_eq!(s.from_sdl2_axis(Axis::TriggerLeft, -128).left_trigger, 0);
    assert_eq!(s.from_sdl2_axis(Axis::TriggerLeft, -200).left_trigger, 0);
    assert_eq!(s.from_sdl2_axis(Axis::TriggerRight, -32768).right_trigger, 0);
    assert_eq!(s.from_sdl2_axis(Axis::TriggerRight, 32767).right_trigger, 255);
}

#[test]
fn sticks_take_raw_values() {
    let mut s = ViGEMState::new();
    let r = s.from_sdl2_axis(Axis::LeftX, -32768);
    assert_eq!(r.thumb_lx, -32768);
    let r = s.from_sdl2_axis(Axis::LeftY, 5);
    let r2 = s.from_sdl2_axis(Axis::RightX, 6);
    let r3 = s.from_sdl2_axis(Axis::RightY, -7);
    assert_eq!(r.thumb_ly, 5);
    assert_eq!(r2.thumb_rx, 6);
    assert_eq!((r3.thumb_lx, r3.thumb_ly, r3.thumb_rx, r3.thumb_ry), (-32768, 5, 6, -7));
    assert_eq!(r3.buttons, 0);
}

#[test]
fn press_and_release_set_and_clear_bits() {
    let mut s = ViGEMState::new();
    let r = s.from_sdl2_button(Button::A, true);
    assert_eq!(r.buttons, A);
    let r = s.from_sdl2_button(Button::LeftShoulder, true);
    assert_eq!(r.buttons, A | LB);
    let r = s.from_sdl2_button(Button::A, false);
    assert_eq!(r.buttons, LB);
    assert_eq!(s.button_state, LB);
    let r = s.from_sdl2_button(Button::DPadUp, true);
    assert_eq!(r.buttons, LB | UP);
}

#[test]
fn buttons_outside_the_report_change_nothing() {
    let mut s = ViGEMState::new();
    s.from_sdl2_button(Button::B, true);
    let r = s.from_sdl2_button(Button::Guide, true);
    assert_eq!(r.buttons, B);
    let r = s.from_sdl2_button(Button::Touchpad, true);
    assert_eq!(r.buttons, B);
}

#[test]
fn update_then_submit() {
    let mut s = ViGEMState::new();
    s.update_button(BACK, true);
    assert_eq!(s.gamepad.buttons, 0);
    let r = s.submit_report();
    assert_eq!(r.buttons, BACK);
    s.update_button(BACK, false);
    assert_eq!(s.submit_report().buttons, 0);
}
