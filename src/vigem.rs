//! The state of one virtual controller on the receiving side: which buttons are
//! held, where the sticks and triggers stand, and the full report that is
//! pushed to the driver after every change.

use crate::input::{Axis, Button};
use vstd::prelude::*;

verus! {

/// Bits of the packed button field of a report.
pub const UP: u16 = 0x0001;
pub const DOWN: u16 = 0x0002;
pub const LEFT: u16 = 0x0004;
pub const RIGHT: u16 = 0x0008;
pub const START: u16 = 0x0010;
pub const BACK: u16 = 0x0020;
pub const LTHUMB: u16 = 0x0040;
pub const RTHUMB: u16 = 0x0080;
pub const LB: u16 = 0x0100;
pub const RB: u16 = 0x0200;
pub const A: u16 = 0x1000;
pub const B: u16 = 0x2000;
pub const X: u16 = 0x4000;
pub const Y: u16 = 0x8000;

/// The divisor that brings an axis magnitude down to a trigger level: the
/// largest magnitude over the largest level, 32767 / 255, rounded down.
pub const TRIGGER_SCALE: i16 = 128;

/// One full report of a virtual controller, as the driver takes it.
#[derive(Clone, Copy, Debug, PartialEq, Eq, Structural)]
pub struct XGamepad {
    pub buttons: u16,
    pub left_trigger: u8,
    pub right_trigger: u8,
    pub thumb_lx: i16,
    pub thumb_ly: i16,
    pub thumb_rx: i16,
    pub thumb_ry: i16,
}

/// The fourteen standard buttons of a report.
pub open spec fn is_standard_bit(bit: u16) -> bool {
    bit == UP || bit == DOWN || bit == LEFT || bit == RIGHT || bit == START || bit == BACK || bit
        == LTHUMB || bit == RTHUMB || bit == LB || bit == RB || bit == A || bit == B || bit == X
        || bit == Y
}

/// The report bit of a logical button, for the buttons that a report holds.
pub open spec fn button_bit(button: Button) -> Option<u16> {
    match button {
        Button::A => Some(A),
        Button::B => Some(B),
        Button::X => Some(X),
        Button::Y => Some(Y),
        Button::LeftShoulder => Some(LB),
        Button::RightShoulder => Some(RB),
        Button::LeftStick => Some(LTHUMB),
        Button::RightStick => Some(RTHUMB),
        Button::DPadLeft => Some(LEFT),
        Button::DPadRight => Some(RIGHT),
        Button::DPadUp => Some(UP),
        Button::DPadDown => Some(DOWN),
        Button::Back => Some(BACK),
        Button::Start => Some(START),
        _ => None,
    }
}

/// The held-button mask after `bit` is pressed (`value`) or released.
pub open spec fn set_bit(mask: u16, bit: u16, value: bool) -> u16 {
    if value {
        mask | bit
    } else {
        mask & !bit
    }
}

/// The held-button mask after `button` goes down (`value`) or up; a button
/// that a report does not hold leaves it as it is.
pub open spec fn with_button(mask: u16, button: Button, value: bool) -> u16 {
    match button_bit(button) {
        Some(bit) => set_bit(mask, bit, value),
        None => mask,
    }
}

/// The trigger level that an axis value gives: a trigger's magnitude is never
/// negative, so a negative value reads as released; otherwise the value over
/// the scale, rounded down. The largest value gives the full level, 255.
pub open spec fn trigger_level(value: i16) -> u8 {
    if value < 0 {
        0
    } else {
        (value / TRIGGER_SCALE) as u8
    }
}

/// The report with `axis` set from `value`.
pub open spec fn with_axis(g: XGamepad, axis: Axis, value: i16) -> XGamepad {
    match axis {
        Axis::LeftX => XGamepad { thumb_lx: value, ..g },
        Axis::LeftY => XGamepad { thumb_ly: value, ..g },
        Axis::RightX => XGamepad { thumb_rx: value, ..g },
        Axis::RightY => XGamepad { thumb_ry: value, ..g },
        Axis::TriggerLeft => XGamepad { left_trigger: trigger_level(value), ..g },
        Axis::TriggerRight => XGamepad { right_trigger: trigger_level(value), ..g },
    }
}

/// Pressing sets the button's bit, releasing clears it, and no other bit moves.
pub proof fn lemma_button_bits(mask: u16, button: Button, value: bool)
    requires
        button_bit(button) is Some,
    ensures
        ({
            let bit = button_bit(button).unwrap();
            let m = with_button(mask, button, value);
            &&& (m & bit == bit) == value
            &&& (m & bit == 0) == !value
            &&& forall|other: u16| other & bit == 0 ==> #[trigger] (m & other) == mask & other
        }),
{
    let bit = button_bit(button).unwrap();
    assert(bit != 0);
    let m = with_button(mask, button, value);
    if value {
        assert((mask | bit) & bit == bit) by (bit_vector);
        assert(bit != 0 ==> (mask | bit) & bit != 0) by (bit_vector);
        assert forall|other: u16| other & bit == 0 implies #[trigger] ((mask | bit) & other) == mask
            & other by {
            assert(other & bit == 0 ==> (mask | bit) & other == mask & other) by (bit_vector);
        }
    } else {
        assert((mask & !bit) & bit == 0) by (bit_vector);
        assert forall|other: u16| other & bit == 0 implies #[trigger] ((mask & !bit) & other) == mask
            & other by {
            assert(other & bit == 0 ==> (mask & !bit) & other == mask & other) by (bit_vector);
        }
    }
}

/// The rescaled trigger of a full-scale axis is full, a resting one is zero,
/// and a negative one reads as released.
pub proof fn lemma_trigger_ends()
    ensures
        trigger_level(32767) == 255,
        trigger_level(0) == 0,
        forall|v: i16| v < 0 ==> #[trigger] trigger_level(v) == 0,
{
}

/// The trigger level that an axis value gives.
pub fn trigger_level_exec(value: i16) -> (r: u8)
    ensures
        r == trigger_level(value),
{
    if value < 0 {
        0
    } else {
        (value / TRIGGER_SCALE) as u8
    }
}

/// The report bit of a logical button.
pub fn button_bit_exec(button: Button) -> (r: Option<u16>)
    ensures
        r == button_bit(button),
{
    match button {
        Button::A => Some(A),
        Button::B => Some(B),
        Button::X => Some(X),
        Button::Y => Some(Y),
        Button::LeftShoulder => Some(LB),
        Button::RightShoulder => Some(RB),
        Button::LeftStick => Some(LTHUMB),
        Button::RightStick => Some(RTHUMB),
        Button::DPadLeft => Some(LEFT),
        Button::DPadRight => Some(RIGHT),
        Button::DPadUp => Some(UP),
        Button::DPadDown => Some(DOWN),
        Button::Back => Some(BACK),
        Button::Start => Some(START),
        _ => None,
    }
}

/// The state of one virtual controller.
pub struct ViGEMState {
    /// The held buttons, one bit each.
    pub button_state: u16,
    /// The last report built.
    pub gamepad: XGamepad,
    /// Reserved for resolving opposite horizontal directions; nothing sets it yet.
    pub socd_horizontal: bool,
    /// Reserved for resolving opposite vertical directions; nothing sets it yet.
    pub socd_vertical: bool,
}

/// A report with every button released and every axis at rest.
pub open spec fn rest_report() -> XGamepad {
    XGamepad {
        buttons: 0,
        left_trigger: 0,
        right_trigger: 0,
        thumb_lx: 0,
        thumb_ly: 0,
        thumb_rx: 0,
        thumb_ry: 0,
    }
}

/// A controller just brought up.
pub open spec fn fresh_state() -> ViGEMState {
    ViGEMState {
        button_state: 0,
        gamepad: rest_report(),
        socd_horizontal: false,
        socd_vertical: false,
    }
}

/// The controller after `button` goes down (`value`) or up and the report is rebuilt.
pub open spec fn after_button(s: ViGEMState, button: Button, value: bool) -> ViGEMState {
    let mask = with_button(s.button_state, button, value);
    ViGEMState { button_state: mask, gamepad: XGamepad { buttons: mask, ..s.gamepad }, ..s }
}

/// The controller after an axis motion.
pub open spec fn after_axis(s: ViGEMState, axis: Axis, value: i16) -> ViGEMState {
    ViGEMState { gamepad: with_axis(s.gamepad, axis, value), ..s }
}

impl ViGEMState {
    /// A controller with every button released and every axis at rest.
    pub fn new() -> (s: ViGEMState)
        ensures
            s == fresh_state(),
    {
        ViGEMState {
            button_state: 0,
            gamepad: XGamepad {
                buttons: 0,
                left_trigger: 0,
                right_trigger: 0,
                thumb_lx: 0,
                thumb_ly: 0,
                thumb_rx: 0,
                thumb_ry: 0,
            },
            socd_horizontal: false,
            socd_vertical: false,
        }
    }

    /// Packs the held buttons into the report and returns the report to push.
    pub fn submit_report(&mut self) -> (r: XGamepad)
        ensures
            final(self).gamepad == (XGamepad { buttons: old(self).button_state, ..old(self).gamepad }),
            final(self).button_state == old(self).button_state,
            final(self).socd_horizontal == old(self).socd_horizontal,
            final(self).socd_vertical == old(self).socd_vertical,
            r == final(self).gamepad,
    {
        self.gamepad.buttons = self.button_state;
        self.gamepad
    }

    /// Marks the standard button `button` (a report bit) held or released.
    pub fn update_button(&mut self, button: u16, value: bool)
        requires
            is_standard_bit(button),
        ensures
            final(self).button_state == set_bit(old(self).button_state, button, value),
            final(self).gamepad == old(self).gamepad,
            final(self).socd_horizontal == old(self).socd_horizontal,
            final(self).socd_vertical == old(self).socd_vertical,
    {
        if value {
            self.button_state = self.button_state | button;
        } else {
            self.button_state = self.button_state & !button;
        }
    }

    /// Applies a button going down (`value`) or up, then returns the full report
    /// to push.
    pub fn from_sdl2_button(&mut self, button: Button, value: bool) -> (r: XGamepad)
        ensures
            *final(self) == after_button(*old(self), button, value),
            r == final(self).gamepad,
    {
        match button_bit_exec(button) {
            Some(bit) => self.update_button(bit, value),
            None => {},
        }
        self.submit_report()
    }

    /// Applies an axis motion, then returns the full report to push.
    pub fn from_sdl2_axis(&mut self, axis: Axis, value: i16) -> (r: XGamepad)
        ensures
            *final(self) == after_axis(*old(self), axis, value),
            r == final(self).gamepad,
    {
        match axis {
            Axis::LeftX => self.gamepad.thumb_lx = value,
            Axis::LeftY => self.gamepad.thumb_ly = value,
            Axis::RightX => self.gamepad.thumb_rx = value,
            Axis::RightY => self.gamepad.thumb_ry = value,
            Axis::TriggerLeft => self.gamepad.left_trigger = trigger_level_exec(value),
            Axis::TriggerRight => self.gamepad.right_trigger = trigger_level_exec(value),
        }
        self.gamepad
    }
}

} // verus!
