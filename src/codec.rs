//! Relayed events and their compact byte encoding.
//!
//! An event is a variant tag followed by its fields. Unsigned integers are
//! varints, signed ones are zigzag-mapped first, names travel as a length and
//! their bytes, and a flag is one byte. Every event fits in one small datagram.
//! Names are written in lower case and read back only so, and numbers only in
//! their shortest form, so that each event has exactly one encoding.

use crate::input::{
    axis_at, axis_name, axis_name_bytes, axis_named, button_at, button_name, button_name_bytes,
    button_named, is_known_scancode,
    lemma_axis_name_injective, lemma_button_name_injective, Axis, Button, Scancode,
    ScancodeVisitor,
};
use crate::varint::{
    lemma_span_values, lemma_take_varint, lemma_take_varint_canonical, lemma_varint_len, read_varint,
    span, take_varint, varint, write_varint,
};
use vstd::prelude::*;

verus! {

/// One relayed event.
#[derive(Clone, Copy, Debug, PartialEq, Eq, Structural)]
pub enum IolEvent {
    ButtonUp { id: u32, button: Button },
    ButtonDown { id: u32, button: Button },
    AxisMotion { id: u32, axis: Axis, value: i16 },
    KeyDown { scancode: Scancode, repeat: bool },
    KeyUp { scancode: Scancode },
    PhysicalDeviceAdded { which: u32 },
    PhysicalDeviceRemoved { id: u32 },
    VirtualDeviceAdded { id: u32, which: u32 },
}

/// Every field of the event lies in its declared range.
pub open spec fn event_wf(e: IolEvent) -> bool {
    match e {
        IolEvent::KeyDown { scancode, .. } => is_known_scancode(scancode.code as int),
        IolEvent::KeyUp { scancode } => is_known_scancode(scancode.code as int),
        _ => true,
    }
}

/// The error of a datagram that is no encoded event.
#[derive(Clone, Copy, Debug, PartialEq, Eq, Structural)]
pub struct MalformedEvent;

/// A name on the wire: its length, then its bytes.
pub open spec fn name_field(name: Seq<u8>) -> Seq<u8> {
    varint(name.len()) + name
}

/// Signed values travel zigzag-mapped: 0, -1, 1, -2, ... become 0, 1, 2, 3, ...
pub open spec fn zigzag(v: int) -> nat {
    if v >= 0 {
        (2 * v) as nat
    } else {
        (-2 * v - 1) as nat
    }
}

/// The signed value whose zigzag mapping is `n`.
pub open spec fn unzigzag(n: nat) -> int {
    if n % 2 == 0 {
        (n / 2) as int
    } else {
        -((n + 1) / 2)
    }
}

/// The byte that carries a flag.
pub open spec fn flag_byte(f: bool) -> u8 {
    if f {
        1
    } else {
        0
    }
}

/// The bytes that carry `e`.
pub open spec fn encode_event(e: IolEvent) -> Seq<u8> {
    match e {
        IolEvent::ButtonUp { id, button } => varint(0) + (varint(id as nat) + name_field(
            button_name(button),
        )),
        IolEvent::ButtonDown { id, button } => varint(1) + (varint(id as nat) + name_field(
            button_name(button),
        )),
        IolEvent::AxisMotion { id, axis, value } => varint(2) + (varint(id as nat) + (name_field(
            axis_name(axis),
        ) + varint(zigzag(value as int)))),
        IolEvent::KeyDown { scancode, repeat } => varint(3) + (varint(zigzag(scancode.code as int))
            + seq![flag_byte(repeat)]),
        IolEvent::KeyUp { scancode } => varint(4) + varint(zigzag(scancode.code as int)),
        IolEvent::PhysicalDeviceAdded { which } => varint(5) + varint(which as nat),
        IolEvent::PhysicalDeviceRemoved { id } => varint(6) + varint(id as nat),
        IolEvent::VirtualDeviceAdded { id, which } => varint(7) + (varint(id as nat) + varint(
            which as nat,
        )),
    }
}

/// The bytes of `buf` from `pos` on.
pub open spec fn tail(buf: Seq<u8>, pos: int) -> Seq<u8> {
    buf.subrange(pos, buf.len() as int)
}

/// Reads an unsigned 32-bit field. Gives the value and the bytes after it.
pub open spec fn take_u32(s: Seq<u8>) -> Option<(u32, Seq<u8>)> {
    match take_varint(s, 5) {
        Some((v, rest)) => if v <= u32::MAX {
            Some((v as u32, rest))
        } else {
            None
        },
        None => None,
    }
}

/// Reads a signed 16-bit field. Gives the value and the bytes after it.
pub open spec fn take_i16(s: Seq<u8>) -> Option<(i16, Seq<u8>)> {
    match take_varint(s, 3) {
        Some((v, rest)) => if v <= u16::MAX {
            Some((unzigzag(v) as i16, rest))
        } else {
            None
        },
        None => None,
    }
}

/// Reads a signed 32-bit field. Gives the value and the bytes after it.
pub open spec fn take_i32(s: Seq<u8>) -> Option<(i32, Seq<u8>)> {
    match take_varint(s, 5) {
        Some((v, rest)) => if v <= u32::MAX {
            Some((unzigzag(v) as i32, rest))
        } else {
            None
        },
        None => None,
    }
}

/// Reads a name: its length, then that many bytes. Gives the value and the bytes after it.
pub open spec fn take_name(s: Seq<u8>) -> Option<(Seq<u8>, Seq<u8>)> {
    match take_varint(s, 5) {
        Some((n, rest)) => if n <= rest.len() {
            Some((rest.take(n as int), rest.skip(n as int)))
        } else {
            None
        },
        None => None,
    }
}

/// Reads a button by its name. Gives the value and the bytes after it.
pub open spec fn take_button(s: Seq<u8>) -> Option<(Button, Seq<u8>)> {
    match take_name(s) {
        Some((name, rest)) => match button_named(name) {
            Some(b) => Some((b, rest)),
            None => None,
        },
        None => None,
    }
}

/// Reads an axis by its name. Gives the value and the bytes after it.
pub open spec fn take_axis(s: Seq<u8>) -> Option<(Axis, Seq<u8>)> {
    match take_name(s) {
        Some((name, rest)) => match axis_named(name) {
            Some(a) => Some((a, rest)),
            None => None,
        },
        None => None,
    }
}

/// Reads a scancode; only one that names a key is accepted. Gives the value and the bytes after it.
pub open spec fn take_scancode(s: Seq<u8>) -> Option<(Scancode, Seq<u8>)> {
    match take_i32(s) {
        Some((code, rest)) => if is_known_scancode(code as int) {
            Some((Scancode { code }, rest))
        } else {
            None
        },
        None => None,
    }
}

/// Reads a flag byte, 0 or 1. Gives the value and the bytes after it.
pub open spec fn take_flag(s: Seq<u8>) -> Option<(bool, Seq<u8>)> {
    if s.len() > 0 && s[0] <= 1 {
        Some((s[0] == 1, s.drop_first()))
    } else {
        None
    }
}

/// Reads the fields of the variant with tag `tag`.
pub open spec fn take_body(tag: nat, s: Seq<u8>) -> Option<(IolEvent, Seq<u8>)> {
    if tag == 0 || tag == 1 {
        match take_u32(s) {
            Some((id, r1)) => match take_button(r1) {
                Some((button, r2)) => Some(
                    (
                        if tag == 0 {
                            IolEvent::ButtonUp { id, button }
                        } else {
                            IolEvent::ButtonDown { id, button }
                        },
                        r2,
                    ),
                ),
                None => None,
            },
            None => None,
        }
    } else if tag == 2 {
        match take_u32(s) {
            Some((id, r1)) => match take_axis(r1) {
                Some((axis, r2)) => match take_i16(r2) {
                    Some((value, r3)) => Some((IolEvent::AxisMotion { id, axis, value }, r3)),
                    None => None,
                },
                None => None,
            },
            None => None,
        }
    } else if tag == 3 {
        match take_scancode(s) {
            Some((scancode, r1)) => match take_flag(r1) {
                Some((repeat, r2)) => Some((IolEvent::KeyDown { scancode, repeat }, r2)),
                None => None,
            },
            None => None,
        }
    } else if tag == 4 {
        match take_scancode(s) {
            Some((scancode, r1)) => Some((IolEvent::KeyUp { scancode }, r1)),
            None => None,
        }
    } else if tag == 5 || tag == 6 {
        match take_u32(s) {
            Some((v, r1)) => Some(
                (
                    if tag == 5 {
                        IolEvent::PhysicalDeviceAdded { which: v }
                    } else {
                        IolEvent::PhysicalDeviceRemoved { id: v }
                    },
                    r1,
                ),
            ),
            None => None,
        }
    } else if tag == 7 {
        match take_u32(s) {
            Some((id, r1)) => match take_u32(r1) {
                Some((which, r2)) => Some((IolEvent::VirtualDeviceAdded { id, which }, r2)),
                None => None,
            },
            None => None,
        }
    } else {
        None
    }
}

/// The event that `s` carries: a tag, its fields, and nothing after them.
pub open spec fn decode_event(s: Seq<u8>) -> Option<IolEvent> {
    match take_varint(s, 5) {
        Some((tag, rest)) => match take_body(tag, rest) {
            Some((e, r)) => if r.len() == 0 {
                Some(e)
            } else {
                None
            },
            None => None,
        },
        None => None,
    }
}

/// The zigzag mapping is undone by its inverse and keeps 16- and 32-bit values
/// within the unsigned range of the same width.
pub proof fn lemma_zigzag(v: int)
    ensures
        unzigzag(zigzag(v)) == v,
        -0x8000 <= v <= 0x7fff ==> zigzag(v) <= u16::MAX,
        -0x8000_0000 <= v <= 0x7fff_ffff ==> zigzag(v) <= u32::MAX,
{
}

/// The inverse mapping is undone by the zigzag mapping and brings unsigned
/// 16- and 32-bit values into the signed range of the same width.
pub proof fn lemma_unzigzag(n: nat)
    ensures
        zigzag(unzigzag(n)) == n,
        n <= u16::MAX ==> -0x8000 <= unzigzag(n) <= 0x7fff,
        n <= u32::MAX ==> -0x8000_0000 <= unzigzag(n) <= 0x7fff_ffff,
{
}

proof fn lemma_take_u32(v: u32, rest: Seq<u8>)
    ensures
        take_u32(varint(v as nat) + rest) == Some((v, rest)),
{
    lemma_span_values();
    lemma_varint_len(v as nat, 5);
    lemma_take_varint(v as nat, rest, 5);
}

proof fn lemma_take_i16(v: i16, rest: Seq<u8>)
    ensures
        take_i16(varint(zigzag(v as int)) + rest) == Some((v, rest)),
{
    lemma_span_values();
    lemma_zigzag(v as int);
    lemma_varint_len(zigzag(v as int), 3);
    lemma_take_varint(zigzag(v as int), rest, 3);
}

proof fn lemma_take_scancode(c: Scancode, rest: Seq<u8>)
    requires
        is_known_scancode(c.code as int),
    ensures
        take_scancode(varint(zigzag(c.code as int)) + rest) == Some((c, rest)),
{
    lemma_span_values();
    lemma_zigzag(c.code as int);
    lemma_varint_len(zigzag(c.code as int), 5);
    lemma_take_varint(zigzag(c.code as int), rest, 5);
}

proof fn lemma_take_name(name: Seq<u8>, rest: Seq<u8>)
    requires
        name.len() < 128,
    ensures
        take_name(name_field(name) + rest) == Some((name, rest)),
{
    lemma_span_values();
    lemma_varint_len(name.len(), 5);
    assert(name_field(name) + rest =~= varint(name.len()) + (name + rest));
    lemma_take_varint(name.len(), name + rest, 5);
    assert((name + rest).take(name.len() as int) =~= name);
    assert((name + rest).skip(name.len() as int) =~= rest);
}

proof fn lemma_take_button(b: Button, rest: Seq<u8>)
    ensures
        take_button(name_field(button_name(b)) + rest) == Some((b, rest)),
{
    lemma_take_name(button_name(b), rest);
    let c = choose|c: Button| button_name(c) == button_name(b);
    lemma_button_name_injective(c, b);
}

proof fn lemma_take_axis(a: Axis, rest: Seq<u8>)
    ensures
        take_axis(name_field(axis_name(a)) + rest) == Some((a, rest)),
{
    lemma_take_name(axis_name(a), rest);
    let c = choose|c: Axis| axis_name(c) == axis_name(a);
    lemma_axis_name_injective(c, a);
}

/// Decoding the encoding of a well-formed event gives the event back.
pub proof fn lemma_decode_encode(e: IolEvent)
    requires
        event_wf(e),
    ensures
        decode_event(encode_event(e)) == Some(e),
{
    let empty = Seq::<u8>::empty();
    let s = encode_event(e);
    lemma_span_values();
    match e {
        IolEvent::ButtonUp { id, button } => {
            let body = varint(id as nat) + name_field(button_name(button));
            lemma_take_varint(0, body, 5);
            lemma_take_u32(id, name_field(button_name(button)));
            assert(name_field(button_name(button)) + empty =~= name_field(button_name(button)));
            lemma_take_button(button, empty);
        },
        IolEvent::ButtonDown { id, button } => {
            let body = varint(id as nat) + name_field(button_name(button));
            lemma_take_varint(1, body, 5);
            lemma_take_u32(id, name_field(button_name(button)));
            assert(name_field(button_name(button)) + empty =~= name_field(button_name(button)));
            lemma_take_button(button, empty);
        },
        IolEvent::AxisMotion { id, axis, value } => {
            let r2 = varint(zigzag(value as int));
            let r1 = name_field(axis_name(axis)) + r2;
            lemma_take_varint(2, varint(id as nat) + r1, 5);
            lemma_take_u32(id, r1);
            lemma_take_axis(axis, r2);
            assert(r2 + empty =~= r2);
            lemma_take_i16(value, empty);
        },
        IolEvent::KeyDown { scancode, repeat } => {
            let r1 = seq![flag_byte(repeat)];
            lemma_take_varint(3, varint(zigzag(scancode.code as int)) + r1, 5);
            lemma_take_scancode(scancode, r1);
            assert(r1.drop_first() =~= empty);
        },
        IolEvent::KeyUp { scancode } => {
            let r1 = varint(zigzag(scancode.code as int));
            lemma_take_varint(4, r1, 5);
            assert(r1 + empty =~= r1);
            lemma_take_scancode(scancode, empty);
        },
        IolEvent::PhysicalDeviceAdded { which } => {
            lemma_take_varint(5, varint(which as nat), 5);
            assert(varint(which as nat) + empty =~= varint(which as nat));
            lemma_take_u32(which, empty);
        },
        IolEvent::PhysicalDeviceRemoved { id } => {
            lemma_take_varint(6, varint(id as nat), 5);
            assert(varint(id as nat) + empty =~= varint(id as nat));
            lemma_take_u32(id, empty);
        },
        IolEvent::VirtualDeviceAdded { id, which } => {
            lemma_take_varint(7, varint(id as nat) + varint(which as nat), 5);
            lemma_take_u32(id, varint(which as nat));
            assert(varint(which as nat) + empty =~= varint(which as nat));
            lemma_take_u32(which, empty);
        },
    }
}

proof fn lemma_take_u32_canonical(s: Seq<u8>)
    requires
        take_u32(s) is Some,
    ensures
        s == varint(take_u32(s).unwrap().0 as nat) + take_u32(s).unwrap().1,
{
    lemma_take_varint_canonical(s, 5);
}

proof fn lemma_take_i16_canonical(s: Seq<u8>)
    requires
        take_i16(s) is Some,
    ensures
        s == varint(zigzag(take_i16(s).unwrap().0 as int)) + take_i16(s).unwrap().1,
{
    lemma_take_varint_canonical(s, 3);
    let n = take_varint(s, 3).unwrap().0;
    lemma_unzigzag(n);
}

proof fn lemma_take_scancode_canonical(s: Seq<u8>)
    requires
        take_scancode(s) is Some,
    ensures
        ({
            let (c, rest) = take_scancode(s).unwrap();
            is_known_scancode(c.code as int) && s == varint(zigzag(c.code as int)) + rest
        }),
{
    lemma_take_varint_canonical(s, 5);
    let n = take_varint(s, 5).unwrap().0;
    lemma_unzigzag(n);
}

proof fn lemma_take_name_canonical(s: Seq<u8>)
    requires
        take_name(s) is Some,
    ensures
        s == name_field(take_name(s).unwrap().0) + take_name(s).unwrap().1,
{
    lemma_take_varint_canonical(s, 5);
    let (n, rest) = take_varint(s, 5).unwrap();
    assert(rest =~= rest.take(n as int) + rest.skip(n as int));
    assert(s =~= name_field(rest.take(n as int)) + rest.skip(n as int));
}

proof fn lemma_take_button_canonical(s: Seq<u8>)
    requires
        take_button(s) is Some,
    ensures
        s == name_field(button_name(take_button(s).unwrap().0)) + take_button(s).unwrap().1,
{
    lemma_take_name_canonical(s);
}

proof fn lemma_take_axis_canonical(s: Seq<u8>)
    requires
        take_axis(s) is Some,
    ensures
        s == name_field(axis_name(take_axis(s).unwrap().0)) + take_axis(s).unwrap().1,
{
    lemma_take_name_canonical(s);
}

/// Only the encoding of a well-formed event decodes: every accepted datagram is
/// exactly the encoding of the event read from it.
pub proof fn lemma_encode_decode(s: Seq<u8>)
    requires
        decode_event(s) is Some,
    ensures
        event_wf(decode_event(s).unwrap()),
        encode_event(decode_event(s).unwrap()) == s,
{
    let e = decode_event(s).unwrap();
    lemma_take_varint_canonical(s, 5);
    let (tag, body) = take_varint(s, 5).unwrap();
    let empty = Seq::<u8>::empty();
    assert(take_body(tag, body).unwrap().1 == empty);
    if tag == 0 || tag == 1 {
        lemma_take_u32_canonical(body);
        let r1 = take_u32(body).unwrap().1;
        lemma_take_button_canonical(r1);
        let b = take_button(r1).unwrap().0;
        assert(r1 =~= name_field(button_name(b)));
    } else if tag == 2 {
        lemma_take_u32_canonical(body);
        let r1 = take_u32(body).unwrap().1;
        lemma_take_axis_canonical(r1);
        let r2 = take_axis(r1).unwrap().1;
        lemma_take_i16_canonical(r2);
        let v = take_i16(r2).unwrap().0;
        assert(r2 =~= varint(zigzag(v as int)));
    } else if tag == 3 {
        lemma_take_scancode_canonical(body);
        let r1 = take_scancode(body).unwrap().1;
        assert(r1 =~= seq![r1[0]]);
    } else if tag == 4 {
        lemma_take_scancode_canonical(body);
        assert(body =~= varint(zigzag(take_scancode(body).unwrap().0.code as int)));
    } else if tag == 5 || tag == 6 {
        lemma_take_u32_canonical(body);
        assert(body =~= varint(take_u32(body).unwrap().0 as nat));
    } else {
        lemma_take_u32_canonical(body);
        let r1 = take_u32(body).unwrap().1;
        lemma_take_u32_canonical(r1);
        assert(r1 =~= varint(take_u32(r1).unwrap().0 as nat));
    }
}

fn read_u32(buf: &[u8], pos: usize) -> (r: Option<(u32, usize)>)
    requires
        pos <= buf@.len(),
    ensures
        match r {
            Some((v, end)) => pos <= end <= buf@.len() && take_u32(tail(buf@, pos as int)) == Some(
                (v, tail(buf@, end as int)),
            ),
            None => take_u32(tail(buf@, pos as int)) is None,
        },
{
    match read_varint(buf, pos, 5) {
        Some((v, end)) => if v <= u32::MAX as u64 {
            Some((v as u32, end))
        } else {
            None
        },
        None => None,
    }
}

/// The signed value whose zigzag mapping is `n`.
fn unzigzag_exec(n: u64) -> (r: i64)
    requires
        n <= u32::MAX,
    ensures
        r == unzigzag(n as nat),
{
    if n % 2 == 0 {
        (n / 2) as i64
    } else {
        -(((n + 1) / 2) as i64)
    }
}

fn read_i16(buf: &[u8], pos: usize) -> (r: Option<(i16, usize)>)
    requires
        pos <= buf@.len(),
    ensures
        match r {
            Some((v, end)) => pos <= end <= buf@.len() && take_i16(tail(buf@, pos as int)) == Some(
                (v, tail(buf@, end as int)),
            ),
            None => take_i16(tail(buf@, pos as int)) is None,
        },
{
    match read_varint(buf, pos, 3) {
        Some((v, end)) => if v <= u16::MAX as u64 {
            proof {
                lemma_unzigzag(v as nat);
            }
            Some((unzigzag_exec(v) as i16, end))
        } else {
            None
        },
        None => None,
    }
}

/// Reads a name: where its bytes start, how many there are, and the position
/// just past them.
fn read_name(buf: &[u8], pos: usize) -> (r: Option<(usize, usize, usize)>)
    requires
        pos <= buf@.len(),
    ensures
        match r {
            Some((start, len, end)) => end == start + len && pos <= end <= buf@.len()
                && take_name(tail(buf@, pos as int)) == Some(
                (buf@.subrange(start as int, end as int), tail(buf@, end as int)),
            ),
            None => take_name(tail(buf@, pos as int)) is None,
        },
{
    match read_varint(buf, pos, 5) {
        Some((n, start)) => if n <= (buf.len() - start) as u64 {
            let len = n as usize;
            let ghost rest = tail(buf@, start as int);
            assert(rest.take(len as int) =~= buf@.subrange(start as int, start + len));
            assert(rest.skip(len as int) =~= tail(buf@, start + len));
            Some((start, len, start + len))
        } else {
            None
        },
        None => None,
    }
}

fn read_scancode(buf: &[u8], pos: usize) -> (r: Option<(Scancode, usize)>)
    requires
        pos <= buf@.len(),
    ensures
        match r {
            Some((v, end)) => pos <= end <= buf@.len() && take_scancode(tail(buf@, pos as int))
                == Some((v, tail(buf@, end as int))),
            None => take_scancode(tail(buf@, pos as int)) is None,
        },
{
    match read_varint(buf, pos, 5) {
        Some((v, end)) => if v <= u32::MAX as u64 {
            proof {
                lemma_unzigzag(v as nat);
            }
            match ScancodeVisitor.visit_i64(unzigzag_exec(v)) {
                Ok(code) => Some((code, end)),
                Err(_) => None,
            }
        } else {
            None
        },
        None => None,
    }
}

/// The zigzag mapping of `v`.
fn zigzag_exec(v: i32) -> (r: u64)
    ensures
        r == zigzag(v as int),
{
    if v >= 0 {
        (v as u64) * 2
    } else {
        ((-(v as i64)) * 2 - 1) as u64
    }
}

/// Appends a name: its length, then its bytes.
fn write_name(out: &mut Vec<u8>, name: &Vec<u8>)
    ensures
        final(out)@ == old(out)@ + name_field(name@),
{
    write_varint(out, name.len() as u64);
    let ghost start = out@;
    let mut i: usize = 0;
    while i < name.len()
        invariant
            i <= name@.len(),
            out@ == start + name@.take(i as int),
        decreases name@.len() - i,
    {
        out.push(name[i]);
        assert(name@.take(i + 1) =~= name@.take(i as int).push(name@[i as int]));
        i = i + 1;
    }
    assert(name@.take(i as int) =~= name@);
    assert(final(out)@ =~= old(out)@ + name_field(name@)) by {
        assert(start == old(out)@ + varint(name@.len()));
    }
}

/// The bytes that carry `e`.
pub fn serialize(e: &IolEvent) -> (r: Vec<u8>)
    ensures
        r@ == encode_event(*e),
        r@.len() <= 32,
{
    let mut out: Vec<u8> = Vec::new();
    match *e {
        IolEvent::ButtonUp { id, button } => {
            write_varint(&mut out, 0);
            write_varint(&mut out, id as u64);
            write_name(&mut out, &button_name_bytes(button));
        },
        IolEvent::ButtonDown { id, button } => {
            write_varint(&mut out, 1);
            write_varint(&mut out, id as u64);
            write_name(&mut out, &button_name_bytes(button));
        },
        IolEvent::AxisMotion { id, axis, value } => {
            write_varint(&mut out, 2);
            write_varint(&mut out, id as u64);
            write_name(&mut out, &axis_name_bytes(axis));
            write_varint(&mut out, zigzag_exec(value as i32));
        },
        IolEvent::KeyDown { scancode, repeat } => {
            write_varint(&mut out, 3);
            write_varint(&mut out, zigzag_exec(scancode.code));
            out.push(if repeat { 1 } else { 0 });
        },
        IolEvent::KeyUp { scancode } => {
            write_varint(&mut out, 4);
            write_varint(&mut out, zigzag_exec(scancode.code));
        },
        IolEvent::PhysicalDeviceAdded { which } => {
            write_varint(&mut out, 5);
            write_varint(&mut out, which as u64);
        },
        IolEvent::PhysicalDeviceRemoved { id } => {
            write_varint(&mut out, 6);
            write_varint(&mut out, id as u64);
        },
        IolEvent::VirtualDeviceAdded { id, which } => {
            write_varint(&mut out, 7);
            write_varint(&mut out, id as u64);
            write_varint(&mut out, which as u64);
        },
    }
    proof {
        lemma_encoding_size(*e);
    }
    assert(out@ =~= encode_event(*e));
    out
}

/// Every encoding fits in one small datagram.
pub proof fn lemma_encoding_size(e: IolEvent)
    ensures
        encode_event(e).len() <= 32,
{
    lemma_span_values();
    assert(span(1) == 128) by {
        reveal_with_fuel(span, 2);
    }
    lemma_varint_len(0, 1);
    lemma_varint_len(1, 1);
    lemma_varint_len(2, 1);
    lemma_varint_len(3, 1);
    lemma_varint_len(4, 1);
    lemma_varint_len(5, 1);
    lemma_varint_len(6, 1);
    lemma_varint_len(7, 1);
    match e {
        IolEvent::ButtonUp { id, button } => {
            lemma_varint_len(id as nat, 5);
            lemma_varint_len(button_name(button).len(), 1);
        },
        IolEvent::ButtonDown { id, button } => {
            lemma_varint_len(id as nat, 5);
            lemma_varint_len(button_name(button).len(), 1);
        },
        IolEvent::AxisMotion { id, axis, value } => {
            lemma_varint_len(id as nat, 5);
            lemma_varint_len(axis_name(axis).len(), 1);
            lemma_zigzag(value as int);
            lemma_varint_len(zigzag(value as int), 3);
        },
        IolEvent::KeyDown { scancode, .. } => {
            lemma_zigzag(scancode.code as int);
            lemma_varint_len(zigzag(scancode.code as int), 5);
        },
        IolEvent::KeyUp { scancode } => {
            lemma_zigzag(scancode.code as int);
            lemma_varint_len(zigzag(scancode.code as int), 5);
        },
        IolEvent::PhysicalDeviceAdded { which } => {
            lemma_varint_len(which as nat, 5);
        },
        IolEvent::PhysicalDeviceRemoved { id } => {
            lemma_varint_len(id as nat, 5);
        },
        IolEvent::VirtualDeviceAdded { id, which } => {
            lemma_varint_len(id as nat, 5);
            lemma_varint_len(which as nat, 5);
        },
    }
}

/// Reads the fields of the variant with tag `tag` at `pos`: the event and the
/// position just past it.
fn read_body(buf: &[u8], tag: u64, pos: usize) -> (r: Option<(IolEvent, usize)>)
    requires
        pos <= buf@.len(),
    ensures
        match r {
            Some((e, end)) => pos <= end <= buf@.len() && take_body(tag as nat, tail(buf@, pos as int))
                == Some((e, tail(buf@, end as int))),
            None => take_body(tag as nat, tail(buf@, pos as int)) is None,
        },
{
    if tag == 0 || tag == 1 {
        let (id, at_a) = match read_u32(buf, pos) {
            Some(x) => x,
            None => return None,
        };
        let (start, len, at_b) = match read_name(buf, at_a) {
            Some(x) => x,
            None => return None,
        };
        let button = match button_at(buf, start, len, false) {
            Some(b) => b,
            None => return None,
        };
        if tag == 0 {
            Some((IolEvent::ButtonUp { id, button }, at_b))
        } else {
            Some((IolEvent::ButtonDown { id, button }, at_b))
        }
    } else if tag == 2 {
        let (id, at_a) = match read_u32(buf, pos) {
            Some(x) => x,
            None => return None,
        };
        let (start, len, at_b) = match read_name(buf, at_a) {
            Some(x) => x,
            None => return None,
        };
        let axis = match axis_at(buf, start, len, false) {
            Some(a) => a,
            None => return None,
        };
        let (value, at_c) = match read_i16(buf, at_b) {
            Some(x) => x,
            None => return None,
        };
        Some((IolEvent::AxisMotion { id, axis, value }, at_c))
    } else if tag == 3 {
        let (scancode, at_a) = match read_scancode(buf, pos) {
            Some(x) => x,
            None => return None,
        };
        if at_a < buf.len() && buf[at_a] <= 1 {
            let ghost r1 = tail(buf@, at_a as int);
            assert(r1.drop_first() =~= tail(buf@, at_a + 1));
            Some((IolEvent::KeyDown { scancode, repeat: buf[at_a] == 1 }, at_a + 1))
        } else {
            None
        }
    } else if tag == 4 {
        let (scancode, at_a) = match read_scancode(buf, pos) {
            Some(x) => x,
            None => return None,
        };
        Some((IolEvent::KeyUp { scancode }, at_a))
    } else if tag == 5 || tag == 6 {
        let (v, at_a) = match read_u32(buf, pos) {
            Some(x) => x,
            None => return None,
        };
        if tag == 5 {
            Some((IolEvent::PhysicalDeviceAdded { which: v }, at_a))
        } else {
            Some((IolEvent::PhysicalDeviceRemoved { id: v }, at_a))
        }
    } else if tag == 7 {
        let (id, at_a) = match read_u32(buf, pos) {
            Some(x) => x,
            None => return None,
        };
        let (which, at_b) = match read_u32(buf, at_a) {
            Some(x) => x,
            None => return None,
        };
        Some((IolEvent::VirtualDeviceAdded { id, which }, at_b))
    } else {
        None
    }
}

/// The event that `bytes` carries. Fails when the tag is unknown, a field is
/// out of its range, or the length is not that of the event.
pub fn deserialize(bytes: &[u8]) -> (r: Result<IolEvent, MalformedEvent>)
    ensures
        r == match decode_event(bytes@) {
            Some(e) => Ok::<IolEvent, MalformedEvent>(e),
            None => Err(MalformedEvent),
        },
        r matches Ok(e) ==> event_wf(e) && encode_event(e) == bytes@,
        forall|e: IolEvent| #[trigger] encode_event(e) == bytes@ && event_wf(e) ==> r == Ok::<
            IolEvent,
            MalformedEvent,
        >(e),
{
    assert(tail(bytes@, 0) =~= bytes@);
    let r = match read_varint(bytes, 0, 5) {
        Some((tag, pos)) => match read_body(bytes, tag, pos) {
            Some((e, end)) => if end == bytes.len() {
                Ok(e)
            } else {
                Err(MalformedEvent)
            },
            None => Err(MalformedEvent),
        },
        None => Err(MalformedEvent),
    };
    proof {
        if decode_event(bytes@) is Some {
            lemma_encode_decode(bytes@);
        }
        assert forall|e: IolEvent| #[trigger]
            encode_event(e) == bytes@ && event_wf(e) implies r == Ok::<IolEvent, MalformedEvent>(
            e,
        ) by {
            lemma_decode_encode(e);
        }
    }
    r
}

} // verus!
