//! The receiving side: virtual controllers keyed by the device id that this
//! receiver hands out, and what each incoming event does to them.

use crate::codec::{decode_event, deserialize, encode_event, serialize, IolEvent};
use crate::input::{Axis, Button};
use crate::vigem::{
    after_axis, after_button, button_bit, fresh_state, lemma_button_bits, lemma_trigger_ends, ViGEMState,
    XGamepad,
};
use std::collections::HashMap;
use vstd::prelude::*;

verus! {

broadcast use vstd::std_specs::hash::group_hash_axioms;

/// What the surrounding loop does after an incoming event.
#[derive(Clone, Copy, Debug, PartialEq, Eq, Structural)]
pub enum Action {
    /// Nothing: the event was dropped.
    Drop,
    /// The sender's device `which` asks for a virtual controller: bring one up,
    /// then call `Listener::register`.
    BringUp { which: u32 },
    /// The virtual controller `id` is gone: unplug it.
    Unplug { id: u32 },
    /// Push `report` to the virtual controller `id`.
    Report { id: u32, report: XGamepad },
}

/// The device id that an event speaks of, for the events that must name a
/// registered one.
pub open spec fn target_of(e: IolEvent) -> Option<u32> {
    match e {
        IolEvent::ButtonUp { id, .. } => Some(id),
        IolEvent::ButtonDown { id, .. } => Some(id),
        IolEvent::AxisMotion { id, .. } => Some(id),
        IolEvent::PhysicalDeviceRemoved { id } => Some(id),
        _ => None,
    }
}

/// The controllers and the action after event `e` arrives.
pub open spec fn step(m: Map<u32, ViGEMState>, e: IolEvent) -> (Map<u32, ViGEMState>, Action) {
    match e {
        IolEvent::PhysicalDeviceAdded { which } => (m, Action::BringUp { which }),
        IolEvent::PhysicalDeviceRemoved { id } => if m.contains_key(id) {
            (m.remove(id), Action::Unplug { id })
        } else {
            (m, Action::Drop)
        },
        IolEvent::ButtonDown { id, button } => if m.contains_key(id) {
            let s = after_button(m[id], button, true);
            (m.insert(id, s), Action::Report { id, report: s.gamepad })
        } else {
            (m, Action::Drop)
        },
        IolEvent::ButtonUp { id, button } => if m.contains_key(id) {
            let s = after_button(m[id], button, false);
            (m.insert(id, s), Action::Report { id, report: s.gamepad })
        } else {
            (m, Action::Drop)
        },
        IolEvent::AxisMotion { id, axis, value } => if m.contains_key(id) {
            let s = after_axis(m[id], axis, value);
            (m.insert(id, s), Action::Report { id, report: s.gamepad })
        } else {
            (m, Action::Drop)
        },
        _ => (m, Action::Drop),
    }
}

/// The controllers, the next device id and the acknowledgment after a virtual
/// controller was brought up for the sender's device `which`; `None` once every
/// id has been used.
pub open spec fn registered(m: Map<u32, ViGEMState>, next: nat, which: u32) -> Option<
    (Map<u32, ViGEMState>, nat, IolEvent),
> {
    if next <= u32::MAX {
        Some(
            (
                m.insert(next as u32, fresh_state()),
                next + 1,
                IolEvent::VirtualDeviceAdded { id: next as u32, which },
            ),
        )
    } else {
        None
    }
}

/// The receiver's registry of virtual controllers.
pub struct Listener {
    controllers: HashMap<u32, ViGEMState>,
    next_id: u64,
}

impl Listener {
    /// The registered controllers by device id.
    pub closed spec fn controllers(&self) -> Map<u32, ViGEMState> {
        self.controllers@
    }

    /// The device id that the next registration gets. Every id below it has
    /// been handed out, and none is handed out twice.
    pub closed spec fn next_id(&self) -> nat {
        self.next_id as nat
    }

    pub closed spec fn wf(&self) -> bool {
        &&& self.next_id <= u32::MAX + 1
        &&& forall|id: u32| #[trigger] self.controllers@.contains_key(id) ==> id < self.next_id
    }

    /// A receiver with no controller.
    pub fn new() -> (l: Listener)
        ensures
            l.wf(),
            l.controllers() == Map::<u32, ViGEMState>::empty(),
            l.next_id() == 0,
    {
        Listener { controllers: HashMap::new(), next_id: 0 }
    }

    /// Applies event `e` to the controllers and says what to do next.
    pub fn handle(&mut self, e: IolEvent) -> (r: Action)
        requires
            old(self).wf(),
        ensures
            final(self).wf(),
            (final(self).controllers(), r) == step(old(self).controllers(), e),
            final(self).next_id() == old(self).next_id(),
    {
        match e {
            IolEvent::PhysicalDeviceAdded { which } => Action::BringUp { which },
            IolEvent::PhysicalDeviceRemoved { id } => {
                match self.controllers.remove(&id) {
                    Some(_) => Action::Unplug { id },
                    None => Action::Drop,
                }
            },
            IolEvent::ButtonDown { id, button } => match self.controllers.remove(&id) {
                Some(mut s) => {
                    let report = s.from_sdl2_button(button, true);
                    self.controllers.insert(id, s);
                    Action::Report { id, report }
                },
                None => Action::Drop,
            },
            IolEvent::ButtonUp { id, button } => match self.controllers.remove(&id) {
                Some(mut s) => {
                    let report = s.from_sdl2_button(button, false);
                    self.controllers.insert(id, s);
                    Action::Report { id, report }
                },
                None => Action::Drop,
            },
            IolEvent::AxisMotion { id, axis, value } => match self.controllers.remove(&id) {
                Some(mut s) => {
                    let report = s.from_sdl2_axis(axis, value);
                    self.controllers.insert(id, s);
                    Action::Report { id, report }
                },
                None => Action::Drop,
            },
            _ => Action::Drop,
        }
    }
    /// The controller registered under `id`, if any.
    pub fn state_of(&self, id: u32) -> (r: Option<&ViGEMState>)
        ensures
            match r {
                Some(s) => self.controllers().contains_key(id) && *s == self.controllers()[id],
                None => !self.controllers().contains_key(id),
            },
    {
        self.controllers.get(&id)
    }

    /// Decodes a datagram and applies the event it carries; a datagram that
    /// carries no event is dropped.
    pub fn receive(&mut self, datagram: &[u8]) -> (r: Action)
        requires
            old(self).wf(),
        ensures
            final(self).wf(),
            final(self).next_id() == old(self).next_id(),
            match decode_event(datagram@) {
                Some(e) => (final(self).controllers(), r) == step(old(self).controllers(), e),
                None => final(self).controllers() == old(self).controllers() && r == Action::Drop,
            },
    {
        match deserialize(datagram) {
            Ok(e) => self.handle(e),
            Err(_) => Action::Drop,
        }
    }

    /// Records the virtual controller brought up for the sender's device
    /// `which` under the next device id, and returns that id with the
    /// acknowledgment to send back. Gives `None` once every id has been used.
    pub fn register(&mut self, which: u32) -> (r: Option<(u32, Vec<u8>)>)
        requires
            old(self).wf(),
        ensures
            final(self).wf(),
            r is Some <==> old(self).next_id() <= u32::MAX,
            match registered(old(self).controllers(), old(self).next_id(), which) {
                Some((m, next, ack)) => r matches Some((id, bytes)) && final(self).controllers() == m
                    && final(self).next_id() == next && ack == (IolEvent::VirtualDeviceAdded {
                    id,
                    which,
                }) && bytes@ == encode_event(ack),
                None => r is None,
            },
            match r {
                Some((id, ack)) => {
                    &&& id == old(self).next_id()
                    &&& forall|k: u32| #[trigger]
                        old(self).controllers().contains_key(k) ==> k < id
                    &&& final(self).controllers() == old(self).controllers().insert(id, fresh_state())
                    &&& final(self).next_id() == old(self).next_id() + 1
                    &&& ack@ == encode_event(IolEvent::VirtualDeviceAdded { id, which })
                },
                None => final(self).controllers() == old(self).controllers() && final(self).next_id()
                    == old(self).next_id(),
            },
    {
        if self.next_id > u32::MAX as u64 {
            return None;
        }
        let id = self.next_id as u32;
        self.controllers.insert(id, ViGEMState::new());
        self.next_id = self.next_id + 1;
        Some((id, serialize(&IolEvent::VirtualDeviceAdded { id, which })))
    }
}

/// A registration request changes no controller and asks for a bring-up.
/// After the bring-up, registering gives exactly one acknowledgment, which
/// echoes the sender's handle, under an id that no registered device holds and
/// that no later registration hands out again.
pub proof fn lemma_registration(m: Map<u32, ViGEMState>, next: nat, h: u32)
    requires
        next <= u32::MAX,
        forall|k: u32| #[trigger] m.contains_key(k) ==> k < next,
    ensures
        step(m, IolEvent::PhysicalDeviceAdded { which: h }) == (m, Action::BringUp { which: h }),
        registered(m, next, h) matches Some((m2, next2, ack)) && ack matches IolEvent::VirtualDeviceAdded {
            id,
            which,
        } && which == h && !m.contains_key(id) && m2 == m.insert(id, fresh_state()) && id < next2
            && forall|k: u32| #[trigger] m2.contains_key(k) ==> k < next2,
{
}

/// On a registered device, pressing a button sets its bit in the controller
/// and in the pushed report, and releasing it clears the bit again.
pub proof fn lemma_press_then_release(m: Map<u32, ViGEMState>, id: u32, button: Button)
    requires
        m.contains_key(id),
        button_bit(button) is Some,
    ensures
        ({
            let bit = button_bit(button).unwrap();
            let (m1, a1) = step(m, IolEvent::ButtonDown { id, button });
            let (m2, a2) = step(m1, IolEvent::ButtonUp { id, button });
            &&& a1 matches Action::Report { id: i, report } && i == id && report.buttons & bit == bit
            &&& m1[id].button_state & bit == bit
            &&& a2 matches Action::Report { id: i, report } && i == id && report.buttons & bit == 0
            &&& m2[id].button_state & bit == 0
        }),
{
    let m1 = step(m, IolEvent::ButtonDown { id, button }).0;
    lemma_button_bits(m[id].button_state, button, true);
    lemma_button_bits(m1[id].button_state, button, false);
}

/// On a registered device, a full right-trigger motion pushes a report with
/// the right trigger at its full level.
pub proof fn lemma_full_trigger(m: Map<u32, ViGEMState>, id: u32)
    requires
        m.contains_key(id),
    ensures
        step(m, IolEvent::AxisMotion { id, axis: Axis::TriggerRight, value: 32767 }).1 matches Action::Report {
            id: i,
            report,
        } && i == id && report.right_trigger == 255,
{
    lemma_trigger_ends();
}

/// A second removal of the same device is a no-op: nothing changes and
/// nothing is unplugged.
pub proof fn lemma_removal_idempotent(m: Map<u32, ViGEMState>, id: u32)
    ensures
        ({
            let after = step(m, IolEvent::PhysicalDeviceRemoved { id }).0;
            step(after, IolEvent::PhysicalDeviceRemoved { id }) == (after, Action::Drop)
        }),
{
}

/// An event for a device id with no registration is dropped and changes no
/// controller.
pub proof fn lemma_unknown_id_dropped(m: Map<u32, ViGEMState>, e: IolEvent)
    requires
        target_of(e) is Some,
        !m.contains_key(target_of(e).unwrap()),
    ensures
        step(m, e) == (m, Action::Drop),
{
}

/// An event for one device leaves every other device's controller as it was.
pub proof fn lemma_other_devices_untouched(m: Map<u32, ViGEMState>, e: IolEvent, k: u32)
    requires
        target_of(e) is Some,
        target_of(e).unwrap() != k,
    ensures
        step(m, e).0.contains_key(k) == m.contains_key(k),
        m.contains_key(k) ==> step(m, e).0[k] == m[k],
{
}

/// Events for two different devices give the same controllers in either
/// order of arrival.
pub proof fn lemma_interleaving(m: Map<u32, ViGEMState>, e1: IolEvent, e2: IolEvent)
    requires
        target_of(e1) is Some,
        target_of(e2) is Some,
        target_of(e1).unwrap() != target_of(e2).unwrap(),
    ensures
        step(step(m, e1).0, e2).0 == step(step(m, e2).0, e1).0,
        step(step(m, e1).0, e2).1 == step(m, e2).1,
        step(step(m, e2).0, e1).1 == step(m, e1).1,
{
    let a = step(step(m, e1).0, e2).0;
    let b = step(step(m, e2).0, e1).0;
    assert(a =~= b);
}

} // verus!
