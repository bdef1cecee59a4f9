//! Varint framing: each frame is its payload length as a protobuf-style
//! LEB128 varint (seven bits per byte, low group first, the high bit set on
//! every byte but the last), followed by the payload.

use vstd::prelude::*;

use crate::socket::{FrameError, FrameSplit, FrameSplitV, MAX_FRAME_BYTES};

verus! {

/// Most bytes a length prefix may take (enough for any 64-bit length).
pub const MAX_VARINT_BYTES: usize = 10;

/// The LEB128 spelling of `n`.
pub open spec fn leb128(n: nat) -> Seq<u8>
    decreases n,
{
    if n < 128 {
        seq![n as u8]
    } else {
        seq![(n % 128 + 128) as u8] + leb128(n / 128)
    }
}

/// The number spelled by little-endian seven-bit groups (high bits ignored).
pub open spec fn le7_value(b: Seq<u8>) -> nat
    decreases b.len(),
{
    if b.len() == 0 {
        0
    } else {
        (b[0] % 128) as nat + 128 * le7_value(b.drop_first())
    }
}

/// `128` to the power `k`.
pub open spec fn pow128(k: nat) -> nat
    decreases k,
{
    if k == 0 {
        1
    } else {
        128 * pow128((k - 1) as nat)
    }
}

/// The position of the first byte without the high bit, or the length
/// when every byte has it.
pub open spec fn varint_end(b: Seq<u8>) -> int
    decreases b.len(),
{
    if b.len() == 0 {
        0
    } else if b[0] < 128 {
        0
    } else {
        1 + varint_end(b.drop_first())
    }
}

/// What the front of `b` holds: a prefix that is not finished within
/// [`MAX_VARINT_BYTES`] bytes is malformed; an unfinished shorter one needs
/// more bytes; a length over the limit is refused; a payload not yet all
/// there needs more bytes; otherwise the frame is the prefix and payload.
pub open spec fn varint_split_spec(b: Seq<u8>) -> FrameSplitV {
    let e = varint_end(b);
    if e >= MAX_VARINT_BYTES {
        FrameSplitV::Invalid(FrameError::Malformed)
    } else if e == b.len() {
        FrameSplitV::NeedMore
    } else {
        let n = le7_value(b.take(e + 1));
        if n > MAX_FRAME_BYTES {
            FrameSplitV::Invalid(FrameError::TooBig)
        } else if b.len() < e + 1 + n {
            FrameSplitV::NeedMore
        } else {
            FrameSplitV::Frame { payload: b.subrange(e + 1, e + 1 + n), consumed: (e + 1 + n) as nat }
        }
    }
}

proof fn lemma_pow128_grows(i: nat, j: nat)
    requires
        i <= j,
    ensures
        1 <= pow128(i) <= pow128(j),
    decreases j,
{
    if j > 0 {
        if i == j {
            lemma_pow128_grows((j - 1) as nat, (j - 1) as nat);
        } else {
            lemma_pow128_grows(i, (j - 1) as nat);
        }
    }
}

proof fn lemma_le7_push(s: Seq<u8>, x: u8)
    ensures
        le7_value(s.push(x)) == le7_value(s) + (x % 128) as nat * pow128(s.len()),
    decreases s.len(),
{
    if s.len() == 0 {
        assert(s.push(x).drop_first() =~= Seq::<u8>::empty());
        assert(s.push(x)[0] == x);
        assert(le7_value(Seq::<u8>::empty()) == 0);
        assert(pow128(0) == 1);
    } else {
        assert(s.push(x).drop_first() =~= s.drop_first().push(x));
        assert(s.push(x)[0] == s[0]);
        lemma_le7_push(s.drop_first(), x);
        let a = (x % 128) as nat;
        let p = pow128((s.len() - 1) as nat);
        assert(pow128(s.len()) == 128 * p);
        assert(128 * (le7_value(s.drop_first()) + a * p) == 128 * le7_value(s.drop_first()) + a * (
        128 * p)) by (nonlinear_arith);
    }
}

proof fn lemma_varint_end_nonneg(b: Seq<u8>)
    ensures
        varint_end(b) >= 0,
    decreases b.len(),
{
    if b.len() > 0 && b[0] >= 128 {
        lemma_varint_end_nonneg(b.drop_first());
    }
}

proof fn lemma_varint_end(b: Seq<u8>, i: int)
    requires
        0 <= i <= b.len(),
        forall|j: int| 0 <= j < i ==> b[j] >= 128,
    ensures
        varint_end(b) >= i,
        (i == b.len() || b[i] < 128) ==> varint_end(b) == i,
    decreases i,
{
    if i > 0 {
        let d = b.drop_first();
        assert forall|j: int| 0 <= j < i - 1 implies d[j] >= 128 by {
            assert(d[j] == b[j + 1]);
        }
        lemma_varint_end(d, i - 1);
        if i < b.len() {
            assert(d[i - 1] == b[i]);
        }
    } else {
        lemma_varint_end_nonneg(b);
    }
}

/// The shape of a LEB128 spelling, read back by the splitter's rules.
proof fn lemma_leb128(n: nat, t: Seq<u8>)
    ensures
        leb128(n).len() >= 1,
        le7_value(leb128(n)) == n,
        varint_end(leb128(n) + t) == leb128(n).len() - 1,
        forall|k: nat| n < pow128(k) && k >= 1 ==> leb128(n).len() <= k,
    decreases n,
{
    let l = leb128(n);
    if n < 128 {
        assert((l + t)[0] == n as u8);
        assert(l.drop_first() =~= Seq::<u8>::empty());
        assert(le7_value(Seq::<u8>::empty()) == 0);
        assert(l[0] == n as u8 && (n as u8) as nat == n);
        assert forall|k: nat| n < pow128(k) && k >= 1 implies l.len() <= k by {}
    } else {
        let m = n / 128;
        let r = leb128(m);
        lemma_leb128(m, t);
        assert(l =~= seq![(n % 128 + 128) as u8] + r);
        assert(l.drop_first() =~= r);
        assert((l + t).drop_first() =~= r + t);
        assert((l + t)[0] == (n % 128 + 128) as u8);
        assert(((n % 128 + 128) as u8) % 128 == n % 128);
        assert(l[0] == (n % 128 + 128) as u8);
        assert(n == 128 * m + n % 128);
        assert forall|k: nat| n < pow128(k) && k >= 1 implies l.len() <= k by {
            if k == 1 {
                assert(pow128(1) == 128 * pow128(0));
            } else {
                assert(pow128(k) == 128 * pow128((k - 1) as nat));
                assert(m < pow128((k - 1) as nat));
            }
        }
    }
}

/// The LEB128 prefix of a length.
pub fn varint_prefix(n: usize) -> (r: Vec<u8>)
    ensures
        r@ == leb128(n as nat),
{
    let mut r: Vec<u8> = Vec::new();
    let mut v: usize = n;
    while v >= 128
        invariant
            r@ + leb128(v as nat) == leb128(n as nat),
        decreases v,
    {
        let b: u8 = (v % 128 + 128) as u8;
        assert(leb128(v as nat) =~= seq![b] + leb128((v / 128) as nat));
        assert(r@.push(b) + leb128((v / 128) as nat) =~= r@ + leb128(v as nat));
        r.push(b);
        v = v / 128;
    }
    assert(leb128(v as nat) =~= seq![v as u8]);
    r.push(v as u8);
    r
}

/// Takes the first whole frame from the front of a receive buffer.
pub fn split_varint_frame(buf: &[u8]) -> (r: FrameSplit)
    ensures
        r@ == varint_split_spec(buf@),
{
    let mut i: usize = 0;
    let mut val: u128 = 0;
    let mut mult: u128 = 1;
    proof {
        lemma_pow128_grows(0, 10);
        assert(pow128(10) == 1180591620717411303424) by {
            reveal_with_fuel(pow128, 11);
        }
        assert(buf@.take(0) =~= Seq::<u8>::empty());
    }
    while i < buf.len() && i < MAX_VARINT_BYTES && buf[i] >= 128
        invariant
            i <= buf@.len(),
            i <= MAX_VARINT_BYTES,
            forall|j: int| 0 <= j < i ==> buf@[j] >= 128,
            val == le7_value(buf@.take(i as int)),
            mult == pow128(i as nat),
            val < mult,
            pow128(10) == 1180591620717411303424,
        decreases buf@.len() - i,
    {
        let d: u128 = (buf[i] % 128) as u128;
        proof {
            lemma_le7_push(buf@.take(i as int), buf@[i as int]);
            assert(buf@.take(i + 1) =~= buf@.take(i as int).push(buf@[i as int]));
            lemma_pow128_grows((i + 1) as nat, 10);
            assert(pow128((i + 1) as nat) == 128 * pow128(i as nat));
            assert(val + d * mult < 128 * mult) by (nonlinear_arith)
                requires
                    val < mult,
                    d <= 127,
            ;
        }
        val = val + d * mult;
        mult = mult * 128;
        i = i + 1;
    }
    proof {
        lemma_varint_end(buf@, i as int);
    }
    if i == MAX_VARINT_BYTES {
        return FrameSplit::Invalid(FrameError::Malformed);
    }
    if i == buf.len() {
        return FrameSplit::NeedMore;
    }
    let d: u128 = buf[i] as u128;
    proof {
        lemma_le7_push(buf@.take(i as int), buf@[i as int]);
        assert(buf@.take(i + 1) =~= buf@.take(i as int).push(buf@[i as int]));
        lemma_pow128_grows((i + 1) as nat, 10);
        assert(pow128((i + 1) as nat) == 128 * pow128(i as nat));
        assert(buf@[i as int] % 128 == buf@[i as int]);
        assert(val + d * mult < 128 * mult) by (nonlinear_arith)
            requires
                val < mult,
                d <= 127,
        ;
    }
    let n: u128 = val + d * mult;
    if n > MAX_FRAME_BYTES as u128 {
        return FrameSplit::Invalid(FrameError::TooBig);
    }
    let n: usize = n as usize;
    if buf.len() - (i + 1) < n {
        return FrameSplit::NeedMore;
    }
    let start: usize = i + 1;
    let payload = vstd::slice::slice_to_vec(vstd::slice::slice_subrange(buf, start, start + n));
    FrameSplit::Frame { payload, consumed: start + n }
}

/// A frame written as its length's LEB128 prefix and its payload is split
/// back off the front of a buffer, whatever follows it: the splitter gives
/// the same payload and takes exactly the frame's bytes.
pub proof fn law_varint_round_trip(payload: Seq<u8>, rest: Seq<u8>)
    requires
        payload.len() <= MAX_FRAME_BYTES,
    ensures
        varint_split_spec(leb128(payload.len()) + payload + rest) == (FrameSplitV::Frame {
            payload,
            consumed: leb128(payload.len()).len() + payload.len(),
        }),
{
    let n = payload.len();
    let l = leb128(n);
    let b = l + payload + rest;
    lemma_leb128(n, payload + rest);
    assert(l + (payload + rest) =~= b);
    assert(pow128(4) == 268435456) by {
        reveal_with_fuel(pow128, 5);
    }
    assert(l.len() <= 4);
    let e = varint_end(b);
    assert(e == l.len() - 1);
    assert(b.take(e + 1) =~= l);
    assert(b.subrange(e + 1, e + 1 + n) =~= payload);
}

/// A LEB128 prefix has between one and ten bytes, every one but the last
/// with the high bit, and reads back as the number it spells.
pub proof fn law_varint_prefix_shape(n: nat)
    requires
        n < pow128(10),
    ensures
        1 <= leb128(n).len() <= MAX_VARINT_BYTES,
        le7_value(leb128(n)) == n,
        forall|j: int| 0 <= j < leb128(n).len() - 1 ==> leb128(n)[j] >= 128,
        leb128(n)[leb128(n).len() - 1] < 128,
{
    lemma_leb128(n, Seq::<u8>::empty());
    let l = leb128(n);
    assert(l + Seq::<u8>::empty() =~= l);
    assert forall|j: int| 0 <= j < l.len() - 1 implies l[j] >= 128 by {
        if l[j] < 128 {
            lemma_varint_end_stops(l, j);
        }
    }
    if l[l.len() - 1] >= 128 {
        assert forall|j: int| 0 <= j < l.len() implies l[j] >= 128 by {
            if l[j] < 128 {
                lemma_varint_end_stops(l, j);
            }
        }
        lemma_varint_end(l, l.len() as int);
    }
}

proof fn lemma_varint_end_stops(b: Seq<u8>, j: int)
    requires
        0 <= j < b.len(),
        b[j] < 128,
    ensures
        varint_end(b) <= j,
    decreases j,
{
    if j > 0 && b[0] >= 128 {
        assert(b.drop_first()[j - 1] == b[j]);
        lemma_varint_end_stops(b.drop_first(), j - 1);
    }
}

} // verus!
