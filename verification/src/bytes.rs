//! Big-endian integers of fixed width, and byte strings.

use vstd::prelude::*;
use vstd::slice::slice_to_vec;

verus! {

/// The two bytes of `x`, most significant first.
#[verifier::opaque]
pub open spec fn be16(x: u16) -> Seq<u8> {
    seq![(x / 0x100) as u8, (x % 0x100) as u8]
}

/// The four bytes of `x`, most significant first.
#[verifier::opaque]
pub open spec fn be32(x: u32) -> Seq<u8> {
    seq![
        (x / 0x100_0000) as u8,
        (x / 0x1_0000 % 0x100) as u8,
        (x / 0x100 % 0x100) as u8,
        (x % 0x100) as u8,
    ]
}

/// The eight bytes of `x`, most significant first.
#[verifier::opaque]
pub open spec fn be64(x: u64) -> Seq<u8> {
    be32((x / 0x1_0000_0000) as u32) + be32((x % 0x1_0000_0000) as u32)
}

/// The number that two bytes spell, most significant first.
#[verifier::opaque]
pub open spec fn value16(s: Seq<u8>) -> u16 {
    (s[0] * 0x100 + s[1]) as u16
}

/// The number that four bytes spell, most significant first.
#[verifier::opaque]
pub open spec fn value32(s: Seq<u8>) -> u32 {
    (s[0] * 0x100_0000 + s[1] * 0x1_0000 + s[2] * 0x100 + s[3]) as u32
}

/// The number that eight bytes spell, most significant first.
#[verifier::opaque]
pub open spec fn value64(s: Seq<u8>) -> u64 {
    (value32(s.subrange(0, 4)) * 0x1_0000_0000 + value32(s.subrange(4, 8))) as u64
}

/// Reading back the bytes of a number gives the number.
pub proof fn value_of_be16(x: u16)
    ensures
        be16(x).len() == 2,
        value16(be16(x)) == x,
{
    reveal(be16);
    reveal(value16);
}

/// Reading back the bytes of a number gives the number.
pub proof fn value_of_be32(x: u32)
    ensures
        be32(x).len() == 4,
        value32(be32(x)) == x,
{
    reveal(be32);
    reveal(value32);
}

/// Reading back the bytes of a number gives the number.
pub proof fn value_of_be64(x: u64)
    ensures
        be64(x).len() == 8,
        value64(be64(x)) == x,
{
    reveal(be64);
    reveal(value64);
    let high = (x / 0x1_0000_0000) as u32;
    let low = (x % 0x1_0000_0000) as u32;
    value_of_be32(high);
    value_of_be32(low);
    assert(be64(x).subrange(0, 4) =~= be32(high));
    assert(be64(x).subrange(4, 8) =~= be32(low));
}

/// Two bytes are the bytes of the number they spell.
pub proof fn be16_of_value(s: Seq<u8>)
    requires
        s.len() == 2,
    ensures
        be16(value16(s)) == s,
{
    reveal(be16);
    reveal(value16);
    assert(be16(value16(s)) =~= s);
}

/// Four bytes are the bytes of the number they spell.
pub proof fn be32_of_value(s: Seq<u8>)
    requires
        s.len() == 4,
    ensures
        be32(value32(s)) == s,
{
    reveal(be32);
    reveal(value32);
    let (a, b, c, d) = (s[0] as int, s[1] as int, s[2] as int, s[3] as int);
    let x = value32(s) as int;
    let low = b * 0x1_0000 + c * 0x100 + d;
    assert(x == a * 0x100_0000 + low);
    assert(x / 0x100_0000 == a);
    assert(x / 0x1_0000 == a * 0x100 + b);
    assert((a * 0x100 + b) % 0x100 == b);
    assert(x / 0x100 == (a * 0x100 + b) * 0x100 + c);
    assert(((a * 0x100 + b) * 0x100 + c) % 0x100 == c);
    assert(x % 0x100 == d);
    assert(be32(value32(s)) =~= s);
}

/// Eight bytes are the bytes of the number they spell.
pub proof fn be64_of_value(s: Seq<u8>)
    requires
        s.len() == 8,
    ensures
        be64(value64(s)) == s,
{
    reveal(be64);
    reveal(value64);
    be32_of_value(s.subrange(0, 4));
    be32_of_value(s.subrange(4, 8));
    assert(be64(value64(s)) =~= s);
}

/// Appends the two bytes of `x`.
pub fn push_u16(out: &mut Vec<u8>, x: u16)
    ensures
        final(out)@ == old(out)@ + be16(x),
{
    proof {
        reveal(be16);
    }
    out.push((x / 0x100) as u8);
    out.push((x % 0x100) as u8);
}

/// Appends the four bytes of `x`.
pub fn push_u32(out: &mut Vec<u8>, x: u32)
    ensures
        final(out)@ == old(out)@ + be32(x),
{
    proof {
        reveal(be32);
    }
    out.push((x / 0x100_0000) as u8);
    out.push((x / 0x1_0000 % 0x100) as u8);
    out.push((x / 0x100 % 0x100) as u8);
    out.push((x % 0x100) as u8);
}

/// Appends the eight bytes of `x`.
pub fn push_u64(out: &mut Vec<u8>, x: u64)
    ensures
        final(out)@ == old(out)@ + be64(x),
{
    proof {
        reveal(be64);
    }
    push_u32(out, (x / 0x1_0000_0000) as u32);
    push_u32(out, (x % 0x1_0000_0000) as u32);
}

/// Appends `part`.
pub fn push_bytes(out: &mut Vec<u8>, part: &[u8])
    ensures
        final(out)@ == old(out)@ + part@,
{
    let mut i: usize = 0;
    while i < part.len()
        invariant
            i <= part@.len(),
            out@ == old(out)@ + part@.subrange(0, i as int),
        decreases part@.len() - i,
    {
        out.push(part[i]);
        proof {
            assert(part@.subrange(0, i + 1) =~= part@.subrange(0, i as int).push(part@[i as int]));
        }
        i = i + 1;
    }
    assert(part@.subrange(0, i as int) =~= part@);
}

/// The number at `at`.
pub fn read_u16(bytes: &[u8], at: usize) -> (x: u16)
    requires
        at + 2 <= bytes@.len(),
    ensures
        x == value16(bytes@.subrange(at as int, at + 2)),
{
    proof {
        reveal(value16);
    }
    bytes[at] as u16 * 0x100 + bytes[at + 1] as u16
}

/// The number at `at`.
pub fn read_u32(bytes: &[u8], at: usize) -> (x: u32)
    requires
        at + 4 <= bytes@.len(),
    ensures
        x == value32(bytes@.subrange(at as int, at + 4)),
{
    proof {
        reveal(value32);
    }
    bytes[at] as u32 * 0x100_0000 + bytes[at + 1] as u32 * 0x1_0000 + bytes[at + 2] as u32 * 0x100
        + bytes[at + 3] as u32
}

/// The number at `at`.
pub fn read_u64(bytes: &[u8], at: usize) -> (x: u64)
    requires
        at + 8 <= bytes@.len(),
    ensures
        x == value64(bytes@.subrange(at as int, at + 8)),
{
    proof {
        reveal(value64);
    }
    let len: usize = bytes.len();
    let high: u32 = read_u32(bytes, at);
    assert(at + 4 <= len);
    let low: u32 = read_u32(bytes, at + 4);
    proof {
        let whole = bytes@.subrange(at as int, at + 8);
        assert(whole.subrange(0, 4) =~= bytes@.subrange(at as int, at + 4));
        assert(whole.subrange(4, 8) =~= bytes@.subrange(at + 4, at + 8));
    }
    high as u64 * 0x1_0000_0000 + low as u64
}

/// The sixteen bytes at `at`.
pub fn read_16(bytes: &[u8], at: usize) -> (out: [u8; 16])
    requires
        at + 16 <= bytes@.len(),
    ensures
        out@ == bytes@.subrange(at as int, at + 16),
{
    let len: usize = bytes.len();
    let mut out: [u8; 16] = [0; 16];
    let mut i: usize = 0;
    while i < 16
        invariant
            i <= 16,
            at + 16 <= len,
            len == bytes@.len(),
            forall|j: int| 0 <= j < i ==> out@[j] == bytes@[at + j],
        decreases 16 - i,
    {
        out[i] = bytes[at + i];
        i = i + 1;
    }
    assert(out@ =~= bytes@.subrange(at as int, at + 16));
    out
}

/// The thirty-two bytes at `at`.
pub fn read_32(bytes: &[u8], at: usize) -> (out: [u8; 32])
    requires
        at + 32 <= bytes@.len(),
    ensures
        out@ == bytes@.subrange(at as int, at + 32),
{
    let len: usize = bytes.len();
    let mut out: [u8; 32] = [0; 32];
    let mut i: usize = 0;
    while i < 32
        invariant
            i <= 32,
            at + 32 <= len,
            len == bytes@.len(),
            forall|j: int| 0 <= j < i ==> out@[j] == bytes@[at + j],
        decreases 32 - i,
    {
        out[i] = bytes[at + i];
        i = i + 1;
    }
    assert(out@ =~= bytes@.subrange(at as int, at + 32));
    out
}

/// Whether two byte strings hold the same bytes.
pub fn bytes_equal(a: &[u8], b: &[u8]) -> (same: bool)
    ensures
        same == (a@ == b@),
{
    if a.len() != b.len() {
        return false;
    }
    let mut i: usize = 0;
    while i < a.len()
        invariant
            i <= a@.len(),
            a@.len() == b@.len(),
            forall|j: int| 0 <= j < i ==> a@[j] == b@[j],
        decreases a@.len() - i,
    {
        if a[i] != b[i] {
            assert(a@[i as int] != b@[i as int]);
            return false;
        }
        i = i + 1;
    }
    assert(a@ =~= b@);
    true
}

/// A copy of the bytes from `from` up to `to`.
pub fn copy_range(bytes: &[u8], from: usize, to: usize) -> (out: Vec<u8>)
    requires
        from <= to <= bytes@.len(),
    ensures
        out@ == bytes@.subrange(from as int, to as int),
{
    slice_to_vec(vstd::slice::slice_subrange(bytes, from, to))
}

/// The bytes of a number weigh less and less, each a 256th of the one before.
pub proof fn numbers_begin_with_their_greatest_byte(a: u16, b: u32, c: u64)
    ensures
        be16(a).len() == 2,
        be16(a)[0] * 0x100 + be16(a)[1] == a,
        be32(b).len() == 4,
        be32(b)[0] * 0x100_0000 + be32(b)[1] * 0x1_0000 + be32(b)[2] * 0x100 + be32(b)[3] == b,
        be64(c).len() == 8,
        be64(c)[0] * 0x100_0000_0000_0000 + be64(c)[1] * 0x1_0000_0000_0000 + be64(c)[2]
            * 0x100_0000_0000 + be64(c)[3] * 0x1_0000_0000 + be64(c)[4] * 0x100_0000 + be64(c)[5]
            * 0x1_0000 + be64(c)[6] * 0x100 + be64(c)[7] == c,
{
    reveal(be16);
    reveal(be32);
    reveal(be64);
    let high = (c / 0x1_0000_0000) as u32;
    let low = (c % 0x1_0000_0000) as u32;
    let h = be32(high);
    let l = be32(low);
    assert(h[0] * 0x100_0000 + h[1] * 0x1_0000 + h[2] * 0x100 + h[3] == high);
    assert(l[0] * 0x100_0000 + l[1] * 0x1_0000 + l[2] * 0x100 + l[3] == low);
    assert(high * 0x1_0000_0000 + low == c);
}

/// The number that bytes spell is the sum of them by their weights, whatever they are.
pub proof fn bytes_spell_their_weighted_sum(s: Seq<u8>)
    ensures
        s.len() == 2 ==> value16(s) == s[0] * 0x100 + s[1],
        s.len() == 4 ==> value32(s) == s[0] * 0x100_0000 + s[1] * 0x1_0000 + s[2] * 0x100 + s[3],
        s.len() == 8 ==> value64(s) == s[0] * 0x100_0000_0000_0000 + s[1] * 0x1_0000_0000_0000 + s[2]
            * 0x100_0000_0000 + s[3] * 0x1_0000_0000 + s[4] * 0x100_0000 + s[5] * 0x1_0000 + s[6] * 0x100
            + s[7],
{
    reveal(value16);
    reveal(value32);
    reveal(value64);
    if s.len() == 8 {
        let h = s.subrange(0, 4);
        let l = s.subrange(4, 8);
        assert(h[0] == s[0] && h[1] == s[1] && h[2] == s[2] && h[3] == s[3]);
        assert(l[0] == s[4] && l[1] == s[5] && l[2] == s[6] && l[3] == s[7]);
    }
}

} // verus!
