//! Arithmetic that stops at the greatest number.

use vstd::prelude::*;

verus! {

/// A number, or the greatest of its type where it does not fit.
pub open spec fn at_most(n: int, top: int) -> int {
    if n > top {
        top
    } else {
        n
    }
}

/// The distance of two numbers.
pub open spec fn distance(a: int, b: int) -> int {
    if a >= b {
        a - b
    } else {
        b - a
    }
}

/// The product, or the greatest number.
pub fn saturating_product(a: u64, b: u64) -> (product: u64)
    ensures
        product == at_most(a * b, u64::MAX as int),
{
    proof {
        lemma_product(a as int, b as int, u64::MAX as int);
    }
    let wide: u128 = (a as u128) * (b as u128);
    if wide > u64::MAX as u128 {
        u64::MAX
    } else {
        wide as u64
    }
}

/// The product, or the greatest index.
pub fn saturating_index_product(a: usize, b: usize) -> (product: usize)
    ensures
        product == at_most(a * b, usize::MAX as int),
{
    proof {
        lemma_product(a as int, b as int, usize::MAX as int);
    }
    let wide: u128 = (a as u128) * (b as u128);
    if wide > usize::MAX as u128 {
        usize::MAX
    } else {
        wide as usize
    }
}

proof fn lemma_product(a: int, b: int, top: int)
    requires
        0 <= a <= top,
        0 <= b <= top,
        top <= u64::MAX,
    ensures
        0 <= a * b <= u128::MAX,
{
    assert(0 <= a * b <= u64::MAX * u64::MAX) by (nonlinear_arith)
        requires
            0 <= a <= u64::MAX,
            0 <= b <= u64::MAX,
    ;
}

pub fn distance_u32(a: u32, b: u32) -> (d: u32)
    ensures
        d == distance(a as int, b as int),
{
    if a >= b {
        a - b
    } else {
        b - a
    }
}

pub fn distance_u64(a: u64, b: u64) -> (d: u64)
    ensures
        d == distance(a as int, b as int),
{
    if a >= b {
        a - b
    } else {
        b - a
    }
}

/// What is kept below a bound is the lesser of the two, and a distance is the same both ways.
pub proof fn bounds_and_distances(a: int, b: int)
    ensures
        at_most(a, b) <= a,
        at_most(a, b) <= b,
        at_most(a, b) == a || at_most(a, b) == b,
        distance(a, b) == distance(b, a),
        a <= b ==> distance(a, b) == b - a,
{
}

} // verus!
