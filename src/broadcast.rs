//! The sending side: which local devices have a device id on the receiver,
//! the registration handshake, and which local input goes out as which event.

use crate::codec::{decode_event, deserialize, encode_event, serialize, IolEvent};
use crate::input::{Axis, Button, Scancode};
use vstd::prelude::*;

verus! {

/// Input reported by the local capture layer; `which` is the local handle of
/// the gamepad it comes from.
#[derive(Clone, Copy, Debug, PartialEq, Eq, Structural)]
pub enum LocalInput {
    KeyDown { scancode: Scancode, repeat: bool },
    KeyUp { scancode: Scancode },
    ButtonDown { which: u32, button: Button },
    ButtonUp { which: u32, button: Button },
    AxisMotion { which: u32, axis: Axis, value: i16 },
}

/// The value sent for a raw axis value: the vertical left stick and the
/// horizontal right stick are inverted, and the lowest value, which has no
/// opposite, becomes the highest.
pub open spec fn fixed_axis_value(axis: Axis, value: i16) -> i16 {
    match axis {
        Axis::LeftY | Axis::RightX => if value == i16::MIN {
            i16::MAX
        } else {
            (-(value as int)) as i16
        },
        _ => value,
    }
}

/// Inverts the axes whose direction the virtual controller reads the other way.
pub fn fixup_axis(axis: Axis, value: i16) -> (r: i16)
    ensures
        r == fixed_axis_value(axis, value),
{
    match axis {
        Axis::LeftY | Axis::RightX => if value == -32768 {
            -(value + 1)
        } else {
            -value
        },
        _ => value,
    }
}

/// Inverting the extreme value gives the top of the range, not an overflow.
pub proof fn lemma_fixup_extreme()
    ensures
        fixed_axis_value(Axis::LeftY, i16::MIN) == i16::MAX,
        fixed_axis_value(Axis::RightX, i16::MIN) == i16::MAX,
{
}

/// The datagram that asks the receiver for a virtual controller for the local
/// device `which`.
pub fn registration_request(which: u32) -> (r: Vec<u8>)
    ensures
        r@ == encode_event(IolEvent::PhysicalDeviceAdded { which }),
{
    serialize(&IolEvent::PhysicalDeviceAdded { which })
}

/// The device id that `entries` gives the local handle `which`.
pub open spec fn lookup(entries: Seq<(u32, u32)>, which: u32) -> Option<u32> {
    if exists|i: int| 0 <= i < entries.len() && entries[i].0 == which {
        Some(entries[choose|i: int| 0 <= i < entries.len() && entries[i].0 == which].1)
    } else {
        None
    }
}

/// No local handle appears twice.
pub open spec fn handles_unique(entries: Seq<(u32, u32)>) -> bool {
    forall|i: int, j: int|
        0 <= i < entries.len() && 0 <= j < entries.len() && #[trigger] entries[i].0
            == #[trigger] entries[j].0 ==> i == j
}

proof fn lemma_lookup_at(entries: Seq<(u32, u32)>, i: int)
    requires
        handles_unique(entries),
        0 <= i < entries.len(),
    ensures
        lookup(entries, entries[i].0) == Some(entries[i].1),
{
    let j = choose|j: int| 0 <= j < entries.len() && entries[j].0 == entries[i].0;
    assert(entries[j].0 == entries[i].0);
}

/// Recording `(which, id)` in place of any earlier entry for `which`, with the
/// other entries kept, maps `which` to `id` and every other handle as before.
proof fn lemma_lookup_after_record(
    before: Seq<(u32, u32)>,
    after: Seq<(u32, u32)>,
    which: u32,
    id: u32,
    k: int,
)
    requires
        handles_unique(before),
        handles_unique(after),
        0 <= k < after.len(),
        after[k] == (which, id),
        forall|j: int|
            0 <= j < after.len() && j != k ==> j < before.len() && #[trigger] after[j] == before[j],
        forall|n: int|
            0 <= n < before.len() && (#[trigger] before[n]).0 != which ==> n != k && n < after.len(),
    ensures
        forall|h: u32| #[trigger]
            lookup(after, h) == if h == which {
                Some(id)
            } else {
                lookup(before, h)
            },
{
    assert forall|h: u32| #[trigger]
        lookup(after, h) == if h == which {
            Some(id)
        } else {
            lookup(before, h)
        } by {
        lemma_lookup_at(after, k);
        if h != which {
            if exists|n: int| 0 <= n < before.len() && before[n].0 == h {
                let n = choose|n: int| 0 <= n < before.len() && before[n].0 == h;
                assert(after[n] == before[n]);
                lemma_lookup_at(before, n);
                lemma_lookup_at(after, n);
            } else if exists|j: int| 0 <= j < after.len() && after[j].0 == h {
                let j = choose|j: int| 0 <= j < after.len() && after[j].0 == h;
                assert(after[j] == before[j]);
            }
        }
    }
}

proof fn lemma_record_replaces(before: Seq<(u32, u32)>, i: int, which: u32, id: u32)
    requires
        handles_unique(before),
        0 <= i < before.len(),
        before[i].0 == which,
    ensures
        handles_unique(before.update(i, (which, id))),
        forall|h: u32| #[trigger]
            lookup(before.update(i, (which, id)), h) == if h == which {
                Some(id)
            } else {
                lookup(before, h)
            },
{
    let after = before.update(i, (which, id));
    lemma_lookup_after_record(before, after, which, id, i);
}

proof fn lemma_record_appends(before: Seq<(u32, u32)>, which: u32, id: u32)
    requires
        handles_unique(before),
        forall|i: int| 0 <= i < before.len() ==> #[trigger] before[i].0 != which,
    ensures
        handles_unique(before.push((which, id))),
        forall|h: u32| #[trigger]
            lookup(before.push((which, id)), h) == if h == which {
                Some(id)
            } else {
                lookup(before, h)
            },
{
    let after = before.push((which, id));
    let k = before.len() as int;
    assert forall|i: int, j: int|
        0 <= i < after.len() && 0 <= j < after.len() && #[trigger] after[i].0
            == #[trigger] after[j].0 implies i == j by {
        if i < k {
            assert(after[i] == before[i]);
        }
        if j < k {
            assert(after[j] == before[j]);
        }
    }
    lemma_lookup_after_record(before, after, which, id, k);
}

/// The event that goes out for a local input, given the registrations and the
/// two relay switches. Key repeats are not relayed; gamepad input is relayed
/// only for registered devices.
pub open spec fn outgoing_event(
    entries: Seq<(u32, u32)>,
    keyboard: bool,
    gamepad: bool,
    input: LocalInput,
) -> Option<IolEvent> {
    match input {
        LocalInput::KeyDown { scancode, repeat } => if keyboard && !repeat {
            Some(IolEvent::KeyDown { scancode, repeat })
        } else {
            None
        },
        LocalInput::KeyUp { scancode } => if keyboard {
            Some(IolEvent::KeyUp { scancode })
        } else {
            None
        },
        LocalInput::ButtonDown { which, button } => match lookup(entries, which) {
            Some(id) => if gamepad {
                Some(IolEvent::ButtonDown { id, button })
            } else {
                None
            },
            None => None,
        },
        LocalInput::ButtonUp { which, button } => match lookup(entries, which) {
            Some(id) => if gamepad {
                Some(IolEvent::ButtonUp { id, button })
            } else {
                None
            },
            None => None,
        },
        LocalInput::AxisMotion { which, axis, value } => match lookup(entries, which) {
            Some(id) => if gamepad {
                Some(IolEvent::AxisMotion { id, axis, value: fixed_axis_value(axis, value) })
            } else {
                None
            },
            None => None,
        },
    }
}

/// Once the handshake has mapped the local device `which` to `id`, its button
/// and axis input goes out under `id` while gamepad relay is on; before that,
/// none of it goes out.
pub proof fn lemma_registered_relays(
    entries: Seq<(u32, u32)>,
    keyboard: bool,
    which: u32,
    id: u32,
    button: Button,
    axis: Axis,
    value: i16,
)
    ensures
        lookup(entries, which) == Some(id) ==> outgoing_event(
            entries,
            keyboard,
            true,
            LocalInput::ButtonDown { which, button },
        ) == Some(IolEvent::ButtonDown { id, button }) && outgoing_event(
            entries,
            keyboard,
            true,
            LocalInput::ButtonUp { which, button },
        ) == Some(IolEvent::ButtonUp { id, button }) && outgoing_event(
            entries,
            keyboard,
            true,
            LocalInput::AxisMotion { which, axis, value },
        ) == Some(IolEvent::AxisMotion { id, axis, value: fixed_axis_value(axis, value) }),
        lookup(entries, which) is None ==> forall|gamepad: bool|
            #![trigger outgoing_event(entries, keyboard, gamepad, LocalInput::ButtonDown { which, button })]
            outgoing_event(entries, keyboard, gamepad, LocalInput::ButtonDown { which, button })
                is None && outgoing_event(
                entries,
                keyboard,
                gamepad,
                LocalInput::ButtonUp { which, button },
            ) is None && outgoing_event(
                entries,
                keyboard,
                gamepad,
                LocalInput::AxisMotion { which, axis, value },
            ) is None,
{
}

/// The sender's session: registrations and switches.
pub struct Broadcaster {
    /// Local handle and device id of each registered device.
    netids: Vec<(u32, u32)>,
    connected: bool,
    broadcast_keyboard: bool,
    broadcast_gamepad: bool,
}

impl Broadcaster {
    /// The registrations, one entry per registered local device.
    pub closed spec fn entries(&self) -> Seq<(u32, u32)> {
        self.netids@
    }

    /// Whether the operator has connected to a receiver.
    pub closed spec fn is_connected(&self) -> bool {
        self.connected
    }

    /// Whether keyboard input is relayed.
    pub closed spec fn relays_keyboard(&self) -> bool {
        self.broadcast_keyboard
    }

    /// Whether gamepad input is relayed.
    pub closed spec fn relays_gamepad(&self) -> bool {
        self.broadcast_gamepad
    }

    pub open spec fn wf(&self) -> bool {
        handles_unique(self.entries())
    }

    /// The device id of the local device `which`, if it is registered.
    pub open spec fn netid(&self, which: u32) -> Option<u32> {
        lookup(self.entries(), which)
    }

    /// A disconnected session that relays both kinds of input once connected.
    pub fn new() -> (b: Broadcaster)
        ensures
            b.wf(),
            b.entries() == Seq::<(u32, u32)>::empty(),
            !b.is_connected(),
            b.relays_keyboard(),
            b.relays_gamepad(),
    {
        Broadcaster {
            netids: Vec::new(),
            connected: false,
            broadcast_keyboard: true,
            broadcast_gamepad: true,
        }
    }

    /// Where `which` stands among the registrations.
    fn position(&self, which: u32) -> (r: Option<usize>)
        ensures
            match r {
                Some(i) => i < self.entries().len() && self.entries()[i as int].0 == which,
                None => forall|i: int|
                    0 <= i < self.entries().len() ==> #[trigger] self.entries()[i].0 != which,
            },
    {
        let mut i: usize = 0;
        while i < self.netids.len()
            invariant
                i <= self.netids@.len(),
                forall|j: int| 0 <= j < i ==> #[trigger] self.netids@[j].0 != which,
            decreases self.netids@.len() - i,
        {
            if self.netids[i].0 == which {
                return Some(i);
            }
            i = i + 1;
        }
        None
    }

    /// The device id of the local device `which`, if it is registered.
    pub fn lookup_netid(&self, which: u32) -> (r: Option<u32>)
        requires
            self.wf(),
        ensures
            r == self.netid(which),
    {
        match self.position(which) {
            Some(i) => {
                proof {
                    lemma_lookup_at(self.entries(), i as int);
                }
                Some(self.netids[i].1)
            },
            None => None,
        }
    }
    pub fn connected(&self) -> (r: bool)
        ensures
            r == self.is_connected(),
    {
        self.connected
    }

    pub fn set_connected(&mut self, connected: bool)
        ensures
            final(self).is_connected() == connected,
            final(self).entries() == old(self).entries(),
            final(self).relays_keyboard() == old(self).relays_keyboard(),
            final(self).relays_gamepad() == old(self).relays_gamepad(),
    {
        self.connected = connected;
    }

    pub fn set_broadcast_keyboard(&mut self, on: bool)
        ensures
            final(self).relays_keyboard() == on,
            final(self).entries() == old(self).entries(),
            final(self).is_connected() == old(self).is_connected(),
            final(self).relays_gamepad() == old(self).relays_gamepad(),
    {
        self.broadcast_keyboard = on;
    }

    pub fn set_broadcast_gamepad(&mut self, on: bool)
        ensures
            final(self).relays_gamepad() == on,
            final(self).entries() == old(self).entries(),
            final(self).is_connected() == old(self).is_connected(),
            final(self).relays_keyboard() == old(self).relays_keyboard(),
    {
        self.broadcast_gamepad = on;
    }

    /// The event to send for a local input, if any.
    pub fn outgoing(&self, input: LocalInput) -> (r: Option<IolEvent>)
        requires
            self.wf(),
        ensures
            r == outgoing_event(
                self.entries(),
                self.relays_keyboard(),
                self.relays_gamepad(),
                input,
            ),
    {
        match input {
            LocalInput::KeyDown { scancode, repeat } => if self.broadcast_keyboard && !repeat {
                Some(IolEvent::KeyDown { scancode, repeat })
            } else {
                None
            },
            LocalInput::KeyUp { scancode } => if self.broadcast_keyboard {
                Some(IolEvent::KeyUp { scancode })
            } else {
                None
            },
            LocalInput::ButtonDown { which, button } => match self.lookup_netid(which) {
                Some(id) => if self.broadcast_gamepad {
                    Some(IolEvent::ButtonDown { id, button })
                } else {
                    None
                },
                None => None,
            },
            LocalInput::ButtonUp { which, button } => match self.lookup_netid(which) {
                Some(id) => if self.broadcast_gamepad {
                    Some(IolEvent::ButtonUp { id, button })
                } else {
                    None
                },
                None => None,
            },
            LocalInput::AxisMotion { which, axis, value } => match self.lookup_netid(which) {
                Some(id) => if self.broadcast_gamepad {
                    Some(IolEvent::AxisMotion { id, axis, value: fixup_axis(axis, value) })
                } else {
                    None
                },
                None => None,
            },
        }
    }

    /// The registration request for a local device that was just attached:
    /// one goes out only while connected.
    pub fn device_added(&self, which: u32) -> (r: Option<Vec<u8>>)
        ensures
            r is Some <==> self.is_connected(),
            r matches Some(bytes) ==> bytes@ == encode_event(
                IolEvent::PhysicalDeviceAdded { which },
            ),
    {
        if self.connected {
            Some(registration_request(which))
        } else {
            None
        }
    }

    /// Takes a datagram that arrived while the local device `which` awaits its
    /// acknowledgment. An acknowledgment that echoes `which` registers the
    /// device under the id it carries, and gives `true`; anything else leaves
    /// the registrations as they are.
    pub fn accept_ack(&mut self, which: u32, datagram: &[u8]) -> (r: bool)
        requires
            old(self).wf(),
        ensures
            final(self).wf(),
            final(self).is_connected() == old(self).is_connected(),
            final(self).relays_keyboard() == old(self).relays_keyboard(),
            final(self).relays_gamepad() == old(self).relays_gamepad(),
            match decode_event(datagram@) {
                Some(IolEvent::VirtualDeviceAdded { id, which: echoed }) if echoed == which => {
                    &&& r
                    &&& forall|h: u32| #[trigger]
                        final(self).netid(h) == if h == which {
                            Some(id)
                        } else {
                            old(self).netid(h)
                        }
                },
                _ => !r && final(self).entries() == old(self).entries(),
            },
    {
        match deserialize(datagram) {
            Ok(IolEvent::VirtualDeviceAdded { id, which: echoed }) => {
                if echoed != which {
                    return false;
                }
                let ghost before = self.netids@;
                match self.position(which) {
                    Some(i) => {
                        self.netids.set(i, (which, id));
                        proof {
                            lemma_record_replaces(before, i as int, which, id);
                        }
                    },
                    None => {
                        self.netids.push((which, id));
                        proof {
                            lemma_record_appends(before, which, id);
                        }
                    },
                }
                true
            },
            _ => false,
        }
    }
    /// Forgets a local device that was detached. If it was registered, gives
    /// the removal notice for its device id; the notice is not acknowledged.
    pub fn device_removed(&mut self, which: u32) -> (r: Option<Vec<u8>>)
        requires
            old(self).wf(),
        ensures
            final(self).wf(),
            final(self).is_connected() == old(self).is_connected(),
            final(self).relays_keyboard() == old(self).relays_keyboard(),
            final(self).relays_gamepad() == old(self).relays_gamepad(),
            forall|h: u32| #[trigger]
                final(self).netid(h) == if h == which {
                    None
                } else {
                    old(self).netid(h)
                },
            match old(self).netid(which) {
                Some(id) => r matches Some(bytes) && bytes@ == encode_event(
                    IolEvent::PhysicalDeviceRemoved { id },
                ),
                None => r is None,
            },
    {
        let ghost before = self.netids@;
        match self.position(which) {
            Some(i) => {
                proof {
                    lemma_lookup_at(before, i as int);
                }
                let (_, id) = self.netids.remove(i);
                let ghost after = self.netids@;
                proof {
                    assert forall|h: u32| #[trigger]
                        lookup(after, h) == if h == which {
                            None
                        } else {
                            lookup(before, h)
                        } by {
                        if exists|j: int| 0 <= j < after.len() && after[j].0 == h {
                            let j = choose|j: int| 0 <= j < after.len() && after[j].0 == h;
                            lemma_lookup_at(after, j);
                            if j < i {
                                assert(before[j] == after[j]);
                                lemma_lookup_at(before, j);
                            } else {
                                assert(before[j + 1] == after[j]);
                                lemma_lookup_at(before, j + 1);
                            }
                        } else if h != which {
                            if exists|j: int| 0 <= j < before.len() && before[j].0 == h {
                                let j = choose|j: int| 0 <= j < before.len() && before[j].0 == h;
                                if j < i {
                                    assert(after[j] == before[j]);
                                } else {
                                    assert(j != i);
                                    assert(after[j - 1] == before[j]);
                                }
                            }
                        }
                    }
                }
                Some(serialize(&IolEvent::PhysicalDeviceRemoved { id }))
            },
            None => {
                proof {
                    assert forall|h: u32| #[trigger]
                        self.netid(h) == if h == which {
                            None
                        } else {
                            lookup(before, h)
                        } by {}
                }
                None
            },
        }
    }

    /// Disconnects: gives a removal notice for every registered device, in the
    /// order of registration, and forgets them all.
    pub fn disconnect(&mut self) -> (r: Vec<Vec<u8>>)
        requires
            old(self).wf(),
        ensures
            final(self).wf(),
            final(self).entries() == Seq::<(u32, u32)>::empty(),
            !final(self).is_connected(),
            final(self).relays_keyboard() == old(self).relays_keyboard(),
            final(self).relays_gamepad() == old(self).relays_gamepad(),
            r@.len() == old(self).entries().len(),
            forall|i: int|
                0 <= i < r@.len() ==> (#[trigger] r@[i])@ == encode_event(
                    IolEvent::PhysicalDeviceRemoved { id: old(self).entries()[i].1 },
                ),
    {
        let mut notices: Vec<Vec<u8>> = Vec::new();
        let mut i: usize = 0;
        while i < self.netids.len()
            invariant
                i <= self.netids@.len(),
                notices@.len() == i,
                forall|j: int|
                    0 <= j < i ==> (#[trigger] notices@[j])@ == encode_event(
                        IolEvent::PhysicalDeviceRemoved { id: self.netids@[j].1 },
                    ),
            decreases self.netids@.len() - i,
        {
            let id = self.netids[i].1;
            notices.push(serialize(&IolEvent::PhysicalDeviceRemoved { id }));
            i = i + 1;
        }
        self.netids.clear();
        self.connected = false;
        notices
    }
}

} // verus!
