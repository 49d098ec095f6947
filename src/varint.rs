//! Variable-length integers as they travel on the wire: seven bits per byte,
//! least significant group first, with the high bit set on every byte but the last.

use vstd::prelude::*;

verus! {

/// The number of values that `n` groups of seven bits can hold.
pub open spec fn span(n: nat) -> nat
    decreases n,
{
    if n == 0 {
        1
    } else {
        128 * span((n - 1) as nat)
    }
}

/// The canonical encoding of `v`.
pub open spec fn varint(v: nat) -> Seq<u8>
    decreases v,
{
    if v < 128 {
        seq![v as u8]
    } else {
        seq![(v % 128 + 128) as u8] + varint(v / 128)
    }
}

/// Reads a canonical encoding of at most `limit` bytes from the front of `s`,
/// giving the value and the bytes that follow it.
pub open spec fn take_varint(s: Seq<u8>, limit: nat) -> Option<(nat, Seq<u8>)>
    decreases limit,
{
    if limit == 0 || s.len() == 0 {
        None
    } else if s[0] < 128 {
        Some((s[0] as nat, s.drop_first()))
    } else {
        match take_varint(s.drop_first(), (limit - 1) as nat) {
            Some((w, rest)) => if w > 0 {
                Some((((s[0] - 128) + 128 * w) as nat, rest))
            } else {
                None
            },
            None => None,
        }
    }
}

/// Three groups hold 21 bits, five hold 35.
pub proof fn lemma_span_values()
    ensures
        span(3) == 0x20_0000,
        span(5) == 0x8_0000_0000,
{
    reveal_with_fuel(span, 6);
}

/// More groups hold more values.
pub proof fn lemma_span_monotone(a: nat, b: nat)
    requires
        a <= b,
    ensures
        span(a) <= span(b),
    decreases b,
{
    if a < b {
        lemma_span_monotone(a, (b - 1) as nat);
    }
}

/// A value below `span(n)` takes at most `n` bytes.
pub proof fn lemma_varint_len(v: nat, n: nat)
    requires
        v < span(n),
        n >= 1,
    ensures
        1 <= varint(v).len() <= n,
    decreases v,
{
    if v >= 128 {
        let p = span((n - 1) as nat);
        assert(v / 128 < p) by (nonlinear_arith)
            requires
                v < 128 * p,
                v >= 128,
        ;
        if n == 1 {
            assert(span(0) == 1);
        }
        lemma_varint_len(v / 128, (n - 1) as nat);
    }
}

/// Reading an encoding gives back its value and leaves what follows untouched.
pub proof fn lemma_take_varint(v: nat, rest: Seq<u8>, limit: nat)
    requires
        varint(v).len() <= limit,
    ensures
        take_varint(varint(v) + rest, limit) == Some((v, rest)),
    decreases v,
{
    let s = varint(v) + rest;
    if v < 128 {
        assert(s.drop_first() =~= rest);
    } else {
        let w = v / 128;
        assert(s.drop_first() =~= varint(w) + rest);
        lemma_take_varint(w, rest, (limit - 1) as nat);
        assert(((v % 128 + 128) as u8) as int == v % 128 + 128);
    }
}

/// Whatever is read was written in the canonical encoding.
pub proof fn lemma_take_varint_canonical(s: Seq<u8>, limit: nat)
    requires
        take_varint(s, limit) is Some,
    ensures
        ({
            let (v, rest) = take_varint(s, limit).unwrap();
            s == varint(v) + rest && v < span(limit)
        }),
    decreases limit,
{
    let (v, rest) = take_varint(s, limit).unwrap();
    lemma_span_monotone(1, limit);
    assert(span(1) == 128) by {
        reveal_with_fuel(span, 2);
    }
    if s[0] < 128 {
        assert(s =~= varint(v) + rest);
    } else {
        let (w, rest2) = take_varint(s.drop_first(), (limit - 1) as nat).unwrap();
        lemma_take_varint_canonical(s.drop_first(), (limit - 1) as nat);
        let b = s[0] - 128;
        assert(v % 128 == b && v / 128 == w && v >= 128) by (nonlinear_arith)
            requires
                v == b + 128 * w,
                0 <= b < 128,
                w > 0,
        ;
        assert(((v % 128 + 128) as u8) == s[0]);
        assert(rest2 == rest);
        assert(s.drop_first() == varint(w) + rest2);
        assert(s =~= seq![s[0]] + s.drop_first());
        assert(varint(v) == seq![s[0]] + varint(w));
        assert(s =~= varint(v) + rest);
        assert(v < span(limit)) by (nonlinear_arith)
            requires
                v == b + 128 * w,
                0 <= b < 128,
                w < span((limit - 1) as nat),
                span(limit) == 128 * span((limit - 1) as nat),
        ;
    }
}

/// Reads a canonical encoding of at most `limit` bytes at `pos`: the value and
/// the position just past it.
pub fn read_varint(buf: &[u8], pos: usize, limit: usize) -> (r: Option<(u64, usize)>)
    requires
        pos <= buf@.len(),
        limit <= 5,
    ensures
        match r {
            Some((v, end)) => pos < end <= buf@.len() && take_varint(
                buf@.subrange(pos as int, buf@.len() as int),
                limit as nat,
            ) == Some((v as nat, buf@.subrange(end as int, buf@.len() as int))),
            None => take_varint(buf@.subrange(pos as int, buf@.len() as int), limit as nat) is None,
        },
    decreases limit,
{
    let ghost s = buf@.subrange(pos as int, buf@.len() as int);
    if limit == 0 || pos == buf.len() {
        return None;
    }
    let b = buf[pos];
    assert(s[0] == b);
    assert(s.drop_first() =~= buf@.subrange(pos + 1, buf@.len() as int));
    if b < 128 {
        return Some((b as u64, pos + 1));
    }
    match read_varint(buf, pos + 1, limit - 1) {
        Some((w, end)) => {
            if w == 0 {
                return None;
            }
            proof {
                lemma_take_varint_canonical(s.drop_first(), (limit - 1) as nat);
                lemma_span_monotone((limit - 1) as nat, 4);
                lemma_span_values();
                reveal_with_fuel(span, 5);
            }
            assert(w < 0x1000_0000);
            Some(((b - 128) as u64 + 128 * w, end))
        },
        None => None,
    }
}

/// Appends the canonical encoding of `v`.
pub fn write_varint(out: &mut Vec<u8>, v: u64)
    ensures
        final(out)@ == old(out)@ + varint(v as nat),
{
    let mut rest: u64 = v;
    while rest >= 128
        invariant
            out@ + varint(rest as nat) == old(out)@ + varint(v as nat),
        decreases rest,
    {
        let ghost before = out@;
        out.push((rest % 128 + 128) as u8);
        assert(out@ + varint((rest / 128) as nat) =~= before + varint(rest as nat));
        rest = rest / 128;
    }
    out.push(rest as u8);
    assert(out@ =~= old(out)@ + varint(v as nat));
}

} // verus!
