use vstd::prelude::*;

verus! {

/// `a * b`, or the largest `usize` when the product does not fit.
pub fn saturating_mul_usize(a: usize, b: usize) -> (r: usize)
    ensures
        r == if a * b > usize::MAX { usize::MAX as int } else { a * b },
{
    match a.checked_mul(b) {
        Some(v) => v,
        None => usize::MAX,
    }
}

/// `a * b`, or the largest `u64` when the product does not fit.
pub fn saturating_mul_u64(a: u64, b: u64) -> (r: u64)
    ensures
        r == if a * b > u64::MAX { u64::MAX as int } else { a * b },
{
    match a.checked_mul(b) {
        Some(v) => v,
        None => u64::MAX,
    }
}

} // verus!
