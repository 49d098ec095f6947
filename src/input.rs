//! The vocabulary of relayed input: gamepad buttons and axes, keyboard
//! scancodes, and the names by which buttons and axes travel.

use crate::codec::MalformedEvent;
use vstd::prelude::*;
use vstd::string::StringSliceAdditionalSpecFns;

verus! {

/// A logical gamepad button.
#[derive(Clone, Copy, Debug, PartialEq, Eq, Structural)]
pub enum Button {
    A,
    B,
    X,
    Y,
    Back,
    Guide,
    Start,
    LeftStick,
    RightStick,
    LeftShoulder,
    RightShoulder,
    DPadUp,
    DPadDown,
    DPadLeft,
    DPadRight,
    Misc1,
    Paddle1,
    Paddle2,
    Paddle3,
    Paddle4,
    Touchpad,
}

/// A logical gamepad axis.
#[derive(Clone, Copy, Debug, PartialEq, Eq, Structural)]
pub enum Axis {
    LeftX,
    LeftY,
    RightX,
    RightY,
    TriggerLeft,
    TriggerRight,
}

/// A physical keyboard key, by its USB-HID based scancode number.
#[derive(Clone, Copy, Debug, PartialEq, Eq, Structural)]
pub struct Scancode {
    pub code: i32,
}

/// The scancode numbers that name a key.
pub open spec fn is_known_scancode(code: int) -> bool {
    ||| 4 <= code <= 129
    ||| 133 <= code <= 164
    ||| 176 <= code <= 221
    ||| 224 <= code <= 231
    ||| 257 <= code <= 284
    ||| code == 512
}

/// The name by which a button travels.
pub open spec fn button_name(b: Button) -> Seq<u8> {
    match b {
        Button::A => seq![97],  // a
        Button::B => seq![98],  // b
        Button::X => seq![120],  // x
        Button::Y => seq![121],  // y
        Button::Back => seq![98, 97, 99, 107],  // back
        Button::Guide => seq![103, 117, 105, 100, 101],  // guide
        Button::Start => seq![115, 116, 97, 114, 116],  // start
        Button::LeftStick => seq![108, 101, 102, 116, 115, 116, 105, 99, 107],  // leftstick
        Button::RightStick => seq![114, 105, 103, 104, 116, 115, 116, 105, 99, 107],  // rightstick
        Button::LeftShoulder => seq![108, 101, 102, 116, 115, 104, 111, 117, 108, 100, 101, 114],  // leftshoulder
        Button::RightShoulder => seq![114, 105, 103, 104, 116, 115, 104, 111, 117, 108, 100, 101, 114],  // rightshoulder
        Button::DPadUp => seq![100, 112, 117, 112],  // dpup
        Button::DPadDown => seq![100, 112, 100, 111, 119, 110],  // dpdown
        Button::DPadLeft => seq![100, 112, 108, 101, 102, 116],  // dpleft
        Button::DPadRight => seq![100, 112, 114, 105, 103, 104, 116],  // dpright
        Button::Misc1 => seq![109, 105, 115, 99, 49],  // misc1
        Button::Paddle1 => seq![112, 97, 100, 100, 108, 101, 49],  // paddle1
        Button::Paddle2 => seq![112, 97, 100, 100, 108, 101, 50],  // paddle2
        Button::Paddle3 => seq![112, 97, 100, 100, 108, 101, 51],  // paddle3
        Button::Paddle4 => seq![112, 97, 100, 100, 108, 101, 52],  // paddle4
        Button::Touchpad => seq![116, 111, 117, 99, 104, 112, 97, 100],  // touchpad
    }
}

/// The name by which an axis travels.
pub open spec fn axis_name(a: Axis) -> Seq<u8> {
    match a {
        Axis::LeftX => seq![108, 101, 102, 116, 120],  // leftx
        Axis::LeftY => seq![108, 101, 102, 116, 121],  // lefty
        Axis::RightX => seq![114, 105, 103, 104, 116, 120],  // rightx
        Axis::RightY => seq![114, 105, 103, 104, 116, 121],  // righty
        Axis::TriggerLeft => seq![108, 101, 102, 116, 116, 114, 105, 103, 103, 101, 114],  // lefttrigger
        Axis::TriggerRight => seq![114, 105, 103, 104, 116, 116, 114, 105, 103, 103, 101, 114],  // righttrigger
    }
}

/// The name by which a button travels.
pub fn button_name_bytes(b: Button) -> (r: Vec<u8>)
    ensures
        r@ == button_name(b),
{
    match b {
        Button::A => vec![97],  // a
        Button::B => vec![98],  // b
        Button::X => vec![120],  // x
        Button::Y => vec![121],  // y
        Button::Back => vec![98, 97, 99, 107],  // back
        Button::Guide => vec![103, 117, 105, 100, 101],  // guide
        Button::Start => vec![115, 116, 97, 114, 116],  // start
        Button::LeftStick => vec![108, 101, 102, 116, 115, 116, 105, 99, 107],  // leftstick
        Button::RightStick => vec![114, 105, 103, 104, 116, 115, 116, 105, 99, 107],  // rightstick
        Button::LeftShoulder => vec![108, 101, 102, 116, 115, 104, 111, 117, 108, 100, 101, 114],  // leftshoulder
        Button::RightShoulder => vec![114, 105, 103, 104, 116, 115, 104, 111, 117, 108, 100, 101, 114],  // rightshoulder
        Button::DPadUp => vec![100, 112, 117, 112],  // dpup
        Button::DPadDown => vec![100, 112, 100, 111, 119, 110],  // dpdown
        Button::DPadLeft => vec![100, 112, 108, 101, 102, 116],  // dpleft
        Button::DPadRight => vec![100, 112, 114, 105, 103, 104, 116],  // dpright
        Button::Misc1 => vec![109, 105, 115, 99, 49],  // misc1
        Button::Paddle1 => vec![112, 97, 100, 100, 108, 101, 49],  // paddle1
        Button::Paddle2 => vec![112, 97, 100, 100, 108, 101, 50],  // paddle2
        Button::Paddle3 => vec![112, 97, 100, 100, 108, 101, 51],  // paddle3
        Button::Paddle4 => vec![112, 97, 100, 100, 108, 101, 52],  // paddle4
        Button::Touchpad => vec![116, 111, 117, 99, 104, 112, 97, 100],  // touchpad
    }
}

/// The name by which an axis travels.
pub fn axis_name_bytes(a: Axis) -> (r: Vec<u8>)
    ensures
        r@ == axis_name(a),
{
    match a {
        Axis::LeftX => vec![108, 101, 102, 116, 120],  // leftx
        Axis::LeftY => vec![108, 101, 102, 116, 121],  // lefty
        Axis::RightX => vec![114, 105, 103, 104, 116, 120],  // rightx
        Axis::RightY => vec![114, 105, 103, 104, 116, 121],  // righty
        Axis::TriggerLeft => vec![108, 101, 102, 116, 116, 114, 105, 103, 103, 101, 114],  // lefttrigger
        Axis::TriggerRight => vec![114, 105, 103, 104, 116, 116, 114, 105, 103, 103, 101, 114],  // righttrigger
    }
}

/// No two buttons share a name.
pub proof fn lemma_button_name_injective(b1: Button, b2: Button)
    requires
        button_name(b1) == button_name(b2),
    ensures
        b1 == b2,
{
    let s = button_name(b1);
    let t = button_name(b2);
    assert(s.len() == t.len());
    assert(s[0] == t[0]);
    assert(s[s.len() - 1] == t[t.len() - 1]);
}

/// No two axes share a name.
pub proof fn lemma_axis_name_injective(a1: Axis, a2: Axis)
    requires
        axis_name(a1) == axis_name(a2),
    ensures
        a1 == a2,
{
    let s = axis_name(a1);
    let t = axis_name(a2);
    assert(s.len() == t.len());
    assert(s[s.len() - 1] == t[t.len() - 1]);
}

/// The button whose name is `name`, if any.
pub open spec fn button_named(name: Seq<u8>) -> Option<Button> {
    if exists|b: Button| button_name(b) == name {
        Some(choose|b: Button| button_name(b) == name)
    } else {
        None
    }
}

/// The axis whose name is `name`, if any.
pub open spec fn axis_named(name: Seq<u8>) -> Option<Axis> {
    if exists|a: Axis| axis_name(a) == name {
        Some(choose|a: Axis| axis_name(a) == name)
    } else {
        None
    }
}

/// An ASCII letter in lower case; any other byte as it is.
pub open spec fn ascii_lower(c: u8) -> u8 {
    if 65 <= c <= 90 {
        (c + 32) as u8
    } else {
        c
    }
}

/// The bytes with every ASCII letter in lower case.
pub open spec fn fold_case(s: Seq<u8>) -> Seq<u8> {
    s.map_values(|c: u8| ascii_lower(c))
}

/// The bytes as read: in lower case when `fold` holds, else as they are.
pub open spec fn spelled(s: Seq<u8>, fold: bool) -> Seq<u8> {
    if fold {
        fold_case(s)
    } else {
        s
    }
}

/// The bytes without one leading `+` or `-`.
pub open spec fn without_sign(s: Seq<u8>) -> Seq<u8> {
    if s.len() > 0 && (s[0] == 43 || s[0] == 45) {
        s.drop_first()
    } else {
        s
    }
}

/// Whether the `len` bytes of `buf` at `start`, spelled as `fold` says, are `name`.
fn name_at(buf: &[u8], start: usize, len: usize, fold: bool, name: &Vec<u8>) -> (r: bool)
    requires
        start + len <= buf@.len(),
    ensures
        r == (spelled(buf@.subrange(start as int, start + len), fold) == name@),
{
    let ghost sub = buf@.subrange(start as int, start + len);
    let ghost seen = spelled(sub, fold);
    assert(seen.len() == len);
    if len != name.len() {
        return false;
    }
    let n = buf.len();
    let mut i: usize = 0;
    while i < len
        invariant
            start + len <= buf@.len(),
            start + len <= n,
            len == name@.len(),
            i <= len,
            sub == buf@.subrange(start as int, start + len),
            seen == spelled(sub, fold),
            seen.len() == len,
            forall|j: int| 0 <= j < i ==> seen[j] == name@[j],
        decreases len - i,
    {
        let c = buf[start + i];
        let c = if fold && 65 <= c && c <= 90 {
            c + 32
        } else {
            c
        };
        assert(c == seen[i as int]);
        if c != name[i] {
            return false;
        }
        i = i + 1;
    }
    assert(seen =~= name@);
    true
}

/// The button named by the `len` bytes of `buf` at `start`, spelled as `fold` says.
pub(crate) fn button_at(buf: &[u8], start: usize, len: usize, fold: bool) -> (r: Option<Button>)
    requires
        start + len <= buf@.len(),
    ensures
        r == button_named(spelled(buf@.subrange(start as int, start + len), fold)),
{
    let ghost name = spelled(buf@.subrange(start as int, start + len), fold);
    let r = if name_at(buf, start, len, fold, &button_name_bytes(Button::A)) {
            Some(Button::A)
        } else if name_at(buf, start, len, fold, &button_name_bytes(Button::B)) {
            Some(Button::B)
        } else if name_at(buf, start, len, fold, &button_name_bytes(Button::X)) {
            Some(Button::X)
        } else if name_at(buf, start, len, fold, &button_name_bytes(Button::Y)) {
            Some(Button::Y)
        } else if name_at(buf, start, len, fold, &button_name_bytes(Button::Back)) {
            Some(Button::Back)
        } else if name_at(buf, start, len, fold, &button_name_bytes(Button::Guide)) {
            Some(Button::Guide)
        } else if name_at(buf, start, len, fold, &button_name_bytes(Button::Start)) {
            Some(Button::Start)
        } else if name_at(buf, start, len, fold, &button_name_bytes(Button::LeftStick)) {
            Some(Button::LeftStick)
        } else if name_at(buf, start, len, fold, &button_name_bytes(Button::RightStick)) {
            Some(Button::RightStick)
        } else if name_at(buf, start, len, fold, &button_name_bytes(Button::LeftShoulder)) {
            Some(Button::LeftShoulder)
        } else if name_at(buf, start, len, fold, &button_name_bytes(Button::RightShoulder)) {
            Some(Button::RightShoulder)
        } else if name_at(buf, start, len, fold, &button_name_bytes(Button::DPadUp)) {
            Some(Button::DPadUp)
        } else if name_at(buf, start, len, fold, &button_name_bytes(Button::DPadDown)) {
            Some(Button::DPadDown)
        } else if name_at(buf, start, len, fold, &button_name_bytes(Button::DPadLeft)) {
            Some(Button::DPadLeft)
        } else if name_at(buf, start, len, fold, &button_name_bytes(Button::DPadRight)) {
            Some(Button::DPadRight)
        } else if name_at(buf, start, len, fold, &button_name_bytes(Button::Misc1)) {
            Some(Button::Misc1)
        } else if name_at(buf, start, len, fold, &button_name_bytes(Button::Paddle1)) {
            Some(Button::Paddle1)
        } else if name_at(buf, start, len, fold, &button_name_bytes(Button::Paddle2)) {
            Some(Button::Paddle2)
        } else if name_at(buf, start, len, fold, &button_name_bytes(Button::Paddle3)) {
            Some(Button::Paddle3)
        } else if name_at(buf, start, len, fold, &button_name_bytes(Button::Paddle4)) {
            Some(Button::Paddle4)
        } else if name_at(buf, start, len, fold, &button_name_bytes(Button::Touchpad)) {
            Some(Button::Touchpad)
        } else {
            None
        };
    proof {
        match r {
            Some(b) => {
                let c = choose|c: Button| button_name(c) == name;
                lemma_button_name_injective(c, b);
            },
            None => {
                if exists|b: Button| button_name(b) == name {
                    let b = choose|b: Button| button_name(b) == name;
                    match b {
                        _ => {},
                    }
                }
            },
        }
    }
    r
}

/// The axis named by the `len` bytes of `buf` at `start`, spelled as `fold` says.
pub(crate) fn axis_at(buf: &[u8], start: usize, len: usize, fold: bool) -> (r: Option<Axis>)
    requires
        start + len <= buf@.len(),
    ensures
        r == axis_named(spelled(buf@.subrange(start as int, start + len), fold)),
{
    let ghost name = spelled(buf@.subrange(start as int, start + len), fold);
    let r = if name_at(buf, start, len, fold, &axis_name_bytes(Axis::LeftX)) {
            Some(Axis::LeftX)
        } else if name_at(buf, start, len, fold, &axis_name_bytes(Axis::LeftY)) {
            Some(Axis::LeftY)
        } else if name_at(buf, start, len, fold, &axis_name_bytes(Axis::RightX)) {
            Some(Axis::RightX)
        } else if name_at(buf, start, len, fold, &axis_name_bytes(Axis::RightY)) {
            Some(Axis::RightY)
        } else if name_at(buf, start, len, fold, &axis_name_bytes(Axis::TriggerLeft)) {
            Some(Axis::TriggerLeft)
        } else if name_at(buf, start, len, fold, &axis_name_bytes(Axis::TriggerRight)) {
            Some(Axis::TriggerRight)
        } else {
            None
        };
    proof {
        match r {
            Some(a) => {
                let c = choose|c: Axis| axis_name(c) == name;
                lemma_axis_name_injective(c, a);
            },
            None => {
                if exists|a: Axis| axis_name(a) == name {
                    let a = choose|a: Axis| axis_name(a) == name;
                    match a {
                        _ => {},
                    }
                }
            },
        }
    }
    r
}

/// Checks a scancode number.
pub struct ScancodeVisitor;

impl ScancodeVisitor {
    /// The key with scancode `value`, if it names one.
    pub fn visit_i64(self, value: i64) -> (r: Result<Scancode, MalformedEvent>)
        ensures
            r == if is_known_scancode(value as int) {
                Ok::<Scancode, MalformedEvent>(Scancode { code: value as i32 })
            } else {
                Err(MalformedEvent)
            },
    {
        if value >= i32::MIN as i64 && value <= i32::MAX as i64 {
            let code = value as i32;
            if (4 <= code && code <= 129) || (133 <= code && code <= 164) || (176 <= code && code
                <= 221) || (224 <= code && code <= 231) || (257 <= code && code <= 284) || code
                == 512 {
                Ok(Scancode { code })
            } else {
                Err(MalformedEvent)
            }
        } else {
            Err(MalformedEvent)
        }
    }

    /// The key with scancode `v`, if it names one.
    pub fn visit_u64(self, v: u64) -> (r: Result<Scancode, MalformedEvent>)
        ensures
            r == if is_known_scancode(v as int) {
                Ok::<Scancode, MalformedEvent>(Scancode { code: v as i32 })
            } else {
                Err(MalformedEvent)
            },
    {
        if v <= i64::MAX as u64 {
            self.visit_i64(v as i64)
        } else {
            Err(MalformedEvent)
        }
    }
}

/// Looks a button up by name; letter case does not matter.
pub struct ButtonVisitor;

impl ButtonVisitor {
    /// The button named `value`, in any letter case, if any.
    pub fn visit_str(self, value: &str) -> (r: Result<Button, MalformedEvent>)
        ensures
            r == match button_named(fold_case(value.spec_bytes())) {
                Some(b) => Ok::<Button, MalformedEvent>(b),
                None => Err(MalformedEvent),
            },
    {
        let bytes = value.as_bytes();
        assert(bytes@.subrange(0, bytes@.len() as int) =~= bytes@);
        match button_at(bytes, 0, bytes.len(), true) {
            Some(b) => Ok(b),
            None => Err(MalformedEvent),
        }
    }
}

/// Looks an axis up by name; letter case does not matter, and one leading
/// `+` or `-` is passed over.
pub struct AxisVisitor;

impl AxisVisitor {
    /// The axis named `value`, in any letter case and after one optional
    /// leading `+` or `-`, if any.
    pub fn visit_str(self, value: &str) -> (r: Result<Axis, MalformedEvent>)
        ensures
            r == match axis_named(fold_case(without_sign(value.spec_bytes()))) {
                Some(a) => Ok::<Axis, MalformedEvent>(a),
                None => Err(MalformedEvent),
            },
    {
        let bytes = value.as_bytes();
        let start: usize = if bytes.len() > 0 && (bytes[0] == 43 || bytes[0] == 45) {
            1
        } else {
            0
        };
        assert(bytes@.subrange(start as int, bytes@.len() as int) =~= without_sign(bytes@));
        match axis_at(bytes, start, bytes.len() - start, true) {
            Some(a) => Ok(a),
            None => Err(MalformedEvent),
        }
    }
}

} // verus!
