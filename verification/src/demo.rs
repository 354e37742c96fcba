//! The arithmetic behind the demonstration flows: the value the
//! frame-inspection demonstration computes from its parameters, and
//! combining and comparing hardware cycle-counter readings.
//!
//! Reading the cycle counter itself is a one-line machine instruction in the
//! surrounding application; it hands the two 32-bit halves of the reading to
//! this module.

use vstd::prelude::*;

verus! {

/// The sum-plus-product that the frame-inspection demonstration computes
/// from its parameters.
pub fn demo_function(x: i32, y: i32) -> (r: i32)
    requires
        i32::MIN <= x + y <= i32::MAX,
        i32::MIN <= x * y <= i32::MAX,
        i32::MIN <= (x + y) + (x * y) <= i32::MAX,
    ensures
        r == (x + y) + (x * y),
{
    let local1 = x + y;
    let local2 = x * y;
    local1 + local2
}

/// A call with one local and no result: its only point is the stack frame
/// that calling it creates.
pub fn demo_function_call() {
    let _local: i32 = 123;
}

/// The 64-bit cycle count that two 32-bit counter halves hold.
pub open spec fn spec_cycle_count(lo: u32, hi: u32) -> int {
    hi * 0x1_0000_0000 + lo
}

/// Combines the two halves of a hardware cycle-counter reading into the
/// 64-bit count.
pub fn combine_cycle_halves(lo: u32, hi: u32) -> (count: u64)
    ensures
        count == spec_cycle_count(lo, hi),
{
    let h = hi as u64;
    let l = lo as u64;
    proof {
        assert(h < 0x1_0000_0000 && l < 0x1_0000_0000 ==> ((h << 32u64) | l) == h * 0x1_0000_0000
            + l) by (bit_vector);
    }
    (h << 32) | l
}

/// Cycle counter monotonicity, seen through the halves: a reading whose
/// halves do not go backward lexicographically holds a count at least the
/// earlier one.
pub proof fn lemma_cycle_count_monotonic(lo1: u32, hi1: u32, lo2: u32, hi2: u32)
    requires
        hi1 < hi2 || (hi1 == hi2 && lo1 <= lo2),
    ensures
        spec_cycle_count(lo1, hi1) <= spec_cycle_count(lo2, hi2),
{
}

/// The cycles elapsed between a start and a later end reading.
pub fn cycles_between(start: u64, end: u64) -> (elapsed: u64)
    requires
        start <= end,
    ensures
        elapsed == end - start,
{
    end - start
}

} // verus!
