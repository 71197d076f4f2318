//! Keys in dictionary order.

use vstd::prelude::*;
use vstd::utf8::encode_utf8;

verus! {

/// Whether `a` stands before `b` in dictionary order: at the first place where
/// they differ `a` is smaller, or `a` ends there.
pub open spec fn precedes(a: Seq<int>, b: Seq<int>) -> bool
    decreases a.len(),
{
    if b.len() == 0 {
        false
    } else if a.len() == 0 {
        true
    } else if a[0] != b[0] {
        a[0] < b[0]
    } else {
        precedes(a.drop_first(), b.drop_first())
    }
}

/// Where one key stands relative to another.
#[derive(Clone, Copy, Debug, PartialEq, Eq)]
pub enum Position {
    Before,
    Same,
    After,
}

/// The position of `a` relative to `b`.
pub open spec fn position_of(a: Seq<int>, b: Seq<int>) -> Position {
    if a == b {
        Position::Same
    } else if precedes(a, b) {
        Position::Before
    } else {
        Position::After
    }
}

/// No key stands before itself.
pub proof fn precedes_irreflexive(a: Seq<int>)
    ensures
        !precedes(a, a),
    decreases a.len(),
{
    if a.len() > 0 {
        precedes_irreflexive(a.drop_first());
    }
}

/// Of two keys that differ exactly one stands before the other.
pub proof fn precedes_total(a: Seq<int>, b: Seq<int>)
    ensures
        a != b ==> (precedes(a, b) <==> !precedes(b, a)),
    decreases a.len(),
{
    if a.len() > 0 && b.len() > 0 && a[0] == b[0] {
        precedes_total(a.drop_first(), b.drop_first());
        if a != b && a.drop_first() == b.drop_first() {
            assert(a =~= seq![a[0]] + a.drop_first());
            assert(b =~= seq![b[0]] + b.drop_first());
        }
    } else if a.len() == 0 && b.len() == 0 {
        assert(a =~= b);
    }
}

/// Dictionary order is transitive.
pub proof fn precedes_transitive(a: Seq<int>, b: Seq<int>, c: Seq<int>)
    requires
        precedes(a, b),
        precedes(b, c),
    ensures
        precedes(a, c),
    decreases a.len(),
{
    if a.len() > 0 && b.len() > 0 && c.len() > 0 && a[0] == b[0] && b[0] == c[0] {
        precedes_transitive(a.drop_first(), b.drop_first(), c.drop_first());
    }
}

/// A common prefix does not change the order.
pub proof fn precedes_after_prefix(p: Seq<int>, a: Seq<int>, b: Seq<int>)
    ensures
        precedes(p + a, p + b) == precedes(a, b),
    decreases p.len(),
{
    if p.len() > 0 {
        precedes_after_prefix(p.drop_first(), a, b);
        assert((p + a).drop_first() =~= p.drop_first() + a);
        assert((p + b).drop_first() =~= p.drop_first() + b);
    } else {
        assert(p + a =~= a);
        assert(p + b =~= b);
    }
}

/// A key that a map can be sorted by.
pub trait MapKey: View + Sized {
    /// What the key is compared by, number by number.
    spec fn rank(v: Self::V) -> Seq<int>;

    /// Different keys have different ranks.
    proof fn rank_injective(a: Self::V, b: Self::V)
        requires
            Self::rank(a) == Self::rank(b),
        ensures
            a == b,
    ;

    /// Where this key stands relative to `other`.
    fn position(&self, other: &Self) -> (p: Position)
        ensures
            p == position_of(Self::rank(self@), Self::rank(other@)),
    ;
}

/// The bytes of a byte string as numbers.
pub open spec fn byte_rank(s: Seq<u8>) -> Seq<int> {
    s.map_values(|b: u8| b as int)
}

/// Byte strings with the same rank are the same.
pub proof fn byte_rank_injective(a: Seq<u8>, b: Seq<u8>)
    requires
        byte_rank(a) == byte_rank(b),
    ensures
        a == b,
{
    assert(a.len() == byte_rank(a).len());
    assert(b.len() == byte_rank(b).len());
    assert forall|i: int| 0 <= i < a.len() implies a[i] == b[i] by {
        assert(byte_rank(a)[i] == a[i] as int);
        assert(byte_rank(b)[i] == b[i] as int);
    }
    assert(a =~= b);
}

/// Compares two byte strings in dictionary order.
pub fn byte_position(a: &[u8], b: &[u8]) -> (p: Position)
    ensures
        p == position_of(byte_rank(a@), byte_rank(b@)),
{
    let ghost ra = byte_rank(a@);
    let ghost rb = byte_rank(b@);
    let mut i: usize = 0;
    while i < a.len() && i < b.len()
        invariant
            i <= a@.len(),
            i <= b@.len(),
            ra == byte_rank(a@),
            rb == byte_rank(b@),
            ra.subrange(0, i as int) == rb.subrange(0, i as int),
        decreases a@.len() - i,
    {
        if a[i] != b[i] {
            proof {
                lemma_decided_at(ra, rb, i as int);
            }
            return if a[i] < b[i] {
                Position::Before
            } else {
                Position::After
            };
        }
        proof {
            assert(ra.subrange(0, i + 1) =~= ra.subrange(0, i as int).push(ra[i as int]));
            assert(rb.subrange(0, i + 1) =~= rb.subrange(0, i as int).push(rb[i as int]));
        }
        i = i + 1;
    }
    proof {
        lemma_decided_at(ra, rb, i as int);
        assert(ra.subrange(0, ra.len() as int) =~= ra);
        assert(rb.subrange(0, rb.len() as int) =~= rb);
    }
    if a.len() == b.len() {
        Position::Same
    } else if a.len() < b.len() {
        Position::Before
    } else {
        Position::After
    }
}

proof fn lemma_decided_at(a: Seq<int>, b: Seq<int>, i: int)
    requires
        0 <= i <= a.len(),
        i <= b.len(),
        a.subrange(0, i) == b.subrange(0, i),
    ensures
        i < a.len() && i < b.len() && a[i] != b[i] ==> a != b && precedes(a, b) == (a[i] < b[i]),
        i == a.len() && i < b.len() ==> a != b && precedes(a, b),
        i < a.len() && i == b.len() ==> a != b && !precedes(a, b),
{
    let p = a.subrange(0, i);
    let ta = a.subrange(i, a.len() as int);
    let tb = b.subrange(i, b.len() as int);
    assert(a =~= p + ta);
    assert(b =~= p + tb);
    precedes_after_prefix(p, ta, tb);
}

/// Compares two numbers.
pub fn number_position(a: u64, b: u64) -> (p: Position)
    ensures
        p == position_of(seq![a as int], seq![b as int]),
{
    proof {
        assert(seq![a as int][0] == a);
        assert(seq![b as int][0] == b);
    }
    if a < b {
        Position::Before
    } else if a == b {
        Position::Same
    } else {
        Position::After
    }
}

/// Text is ordered by its UTF-8 bytes.
impl MapKey for String {
    open spec fn rank(v: Seq<char>) -> Seq<int> {
        byte_rank(encode_utf8(v))
    }

    proof fn rank_injective(a: Seq<char>, b: Seq<char>) {
        byte_rank_injective(encode_utf8(a), encode_utf8(b));
        vstd::utf8::encode_utf8_decode_utf8(a);
        vstd::utf8::encode_utf8_decode_utf8(b);
    }

    fn position(&self, other: &String) -> (p: Position) {
        byte_position(self.as_str().as_bytes(), other.as_str().as_bytes())
    }
}

/// Of two rows the one with the lesser number at the first place where they differ goes
/// before the other, and one that the other begins with goes before it.
pub proof fn the_first_difference_decides(common: Seq<int>, a: int, b: int, x: Seq<int>, y: Seq<int>)
    ensures
        a < b ==> precedes(common.push(a) + x, common.push(b) + y),
        a > b ==> !precedes(common.push(a) + x, common.push(b) + y),
        precedes(common, common.push(a) + x),
        !precedes(common.push(a) + x, common),
{
    let p = common.push(a) + x;
    let q = common.push(b) + y;
    assert(p =~= common + (seq![a] + x));
    assert(q =~= common + (seq![b] + y));
    precedes_after_prefix(common, seq![a] + x, seq![b] + y);
    assert((seq![a] + x)[0] == a && (seq![b] + y)[0] == b);
    assert(common =~= common + Seq::<int>::empty());
    precedes_after_prefix(common, Seq::<int>::empty(), seq![a] + x);
    precedes_after_prefix(common, seq![a] + x, Seq::<int>::empty());
}

/// A number stands before, at or after another as it is less, the same or greater.
pub proof fn numbers_stand_by_their_value(a: u64, b: u64)
    ensures
        a < b <==> position_of(seq![a as int], seq![b as int]) is Before,
        a == b <==> position_of(seq![a as int], seq![b as int]) is Same,
        a > b <==> position_of(seq![a as int], seq![b as int]) is After,
{
    let x = seq![a as int];
    let y = seq![b as int];
    assert(x[0] == a && y[0] == b);
    assert(x.drop_first() =~= y.drop_first());
    precedes_irreflexive(x.drop_first());
    if a == b {
        assert(x =~= y);
    }
}

} // verus!
