//! Tests on single-precision values, by the bits that hold them.
use vstd::prelude::*;

verus! {

/// The bits of positive infinity.
pub const INFINITY: u32 = 0x7f80_0000;

/// The bits without the sign.
pub open spec fn magnitude(bits: u32) -> int {
    bits as int % 0x8000_0000
}

pub open spec fn nan(bits: u32) -> bool {
    magnitude(bits) > INFINITY
}

/// An integer that orders as the values do; both zeros have the same.
pub open spec fn spec_key(bits: u32) -> int {
    if bits < 0x8000_0000 {
        magnitude(bits)
    } else {
        -magnitude(bits)
    }
}

/// `a > b`: false where either is no number.
pub open spec fn greater(a: u32, b: u32) -> bool {
    !nan(a) && !nan(b) && spec_key(a) > spec_key(b)
}

pub fn is_nan(bits: u32) -> (r: bool)
    ensures
        r == nan(bits),
{
    bits % 0x8000_0000 > INFINITY
}

pub fn is_finite(bits: u32) -> (r: bool)
    ensures
        r == (magnitude(bits) < INFINITY),
{
    bits % 0x8000_0000 < INFINITY
}

pub fn is_zero(bits: u32) -> (r: bool)
    ensures
        r == (magnitude(bits) == 0),
{
    bits % 0x8000_0000 == 0
}

pub fn key(bits: u32) -> (r: i32)
    ensures
        r == spec_key(bits),
{
    let m: i32 = (bits % 0x8000_0000) as i32;
    if bits < 0x8000_0000 {
        m
    } else {
        -m
    }
}

pub fn is_greater(a: u32, b: u32) -> (r: bool)
    ensures
        r == greater(a, b),
{
    !is_nan(a) && !is_nan(b) && key(a) > key(b)
}

/// No value of the list is a NaN.
pub open spec fn all_numbers(bits: Seq<u32>) -> bool {
    forall|i: int| 0 <= i < bits.len() ==> !nan(#[trigger] bits[i])
}

/// Exactly one of `<`, `==` and `>` holds between two numbers, and none where
/// one of the two is a NaN.
pub proof fn numbers_are_ordered(a: u32, b: u32)
    ensures
        greater(a, b) || greater(b, a) || spec_key(a) == spec_key(b) || nan(a) || nan(b),
        !(greater(a, b) && greater(b, a)),
        nan(a) || nan(b) ==> !greater(a, b) && !greater(b, a),
{
}

/// The keys of a list.
pub fn keys_of(bits: &Vec<u32>) -> (r: Vec<i32>)
    ensures
        r@.len() == bits@.len(),
        forall|i: int| 0 <= i < r@.len() ==> #[trigger] r@[i] == spec_key(bits@[i]),
{
    let mut r: Vec<i32> = Vec::new();
    let mut i: usize = 0;
    while i < bits.len()
        invariant
            i <= bits@.len(),
            r@.len() == i,
            forall|k: int| 0 <= k < i ==> #[trigger] r@[k] == spec_key(bits@[k]),
        decreases bits@.len() - i,
    {
        r.push(key(bits[i]));
        i = i + 1;
    }
    r
}

} // verus!
