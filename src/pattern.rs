//! The colour choices of the repeating patterns, made from the integer cell
//! (floor of a pattern-space coordinate) that a point falls in.
use vstd::prelude::*;

verus! {

pub open spec fn is_even(n: int) -> bool {
    n % 2 == 0
}

/// Stripes and rings: `even` in even cells, `odd` in odd ones.
pub fn alternate<C: Copy>(cell: i64, even: C, odd: C) -> (r: C)
    ensures
        r == if is_even(cell as int) { even } else { odd },
{
    if cell % 2 == 0 {
        even
    } else {
        odd
    }
}

/// Three-colour rings: `c1` at an even distance, else `c2` at a multiple of
/// three, else `c3`.
pub fn rings_of_three<C: Copy>(distance: i64, c1: C, c2: C, c3: C) -> (r: C)
    ensures
        r == if is_even(distance as int) {
            c1
        } else if distance as int % 3 == 0 {
            c2
        } else {
            c3
        },
{
    if distance % 2 == 0 {
        c1
    } else if distance % 3 == 0 {
        c2
    } else {
        c3
    }
}

/// Checkers: `even` where the three cell indices sum to an even number,
/// `odd` elsewhere.
pub fn checker<C: Copy>(x: i64, y: i64, z: i64, even: C, odd: C) -> (r: C)
    ensures
        r == if is_even(x + y + z) { even } else { odd },
{
    let odd_count: u8 = (if x % 2 == 0 { 0u8 } else { 1u8 }) + (if y % 2 == 0 { 0u8 } else { 1u8 }) + (if z % 2 == 0 { 0u8 } else { 1u8 });
    if odd_count % 2 == 0 {
        even
    } else {
        odd
    }
}

} // verus!
