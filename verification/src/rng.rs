//! Random numbers.

use vstd::prelude::*;
use rand::Rng;
use std::ops::Range;

verus! {

/// A random integer drawn from `r` (start included, end excluded).
///
/// Trusted: calls `rand::Rng::gen_range` on `rand::thread_rng()`.  rand's
/// documentation promises a value inside the range and a panic when the range
/// is empty; `requires` rules the empty range out and `ensures` states the
/// bounds.  Which value comes back is chance and is not stated.
#[verifier::external_body]
pub fn random(r: Range<i32>) -> (v: i32)
    requires
        r.start < r.end,
    ensures
        r.start <= v < r.end,
{
    rand::thread_rng().gen_range(r)
}

} // verus!
