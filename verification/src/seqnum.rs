//! Wrapping-arithmetic ordering over fixed-width sequence numbers.
//!
//! Two sequence numbers are compared through their wrapping distance: a
//! distance of zero means equal; a distance of at most the window width
//! means the first lies ahead; any larger distance means the first is an
//! old, wrapped value lying behind.  The ordering is meaningful only for
//! values within one window of each other; callers keep all live sequence
//! numbers that close together.

use vstd::prelude::*;

use crate::constants::MAX_MSN_WINDOW;
use crate::constants::MAX_PSN_WINDOW;

verus! {

/// Wrapping distance from `b` up to `a` in the 32-bit packet sequence space.
pub open spec fn psn_dist(a: u32, b: u32) -> u32 {
    vstd::wrapping::u32_specs::wrapping_sub(a, b)
}

/// `a` lies strictly behind `b` under the packet window comparator.
pub open spec fn spec_psn_lt(a: u32, b: u32) -> bool {
    psn_dist(a, b) != 0 && psn_dist(a, b) > MAX_PSN_WINDOW
}

/// `a` lies strictly ahead of `b` under the packet window comparator.
pub open spec fn spec_psn_gt(a: u32, b: u32) -> bool {
    psn_dist(a, b) != 0 && psn_dist(a, b) <= MAX_PSN_WINDOW
}

/// `a` is at or behind `b` under the packet window comparator.
pub open spec fn spec_psn_leq(a: u32, b: u32) -> bool {
    !spec_psn_gt(a, b)
}

/// Strictly-behind test on packet sequence numbers.
pub fn psn_lt(a: u32, b: u32) -> (r: bool)
    ensures
        r == spec_psn_lt(a, b),
{
    let d = a.wrapping_sub(b);
    d != 0 && d > MAX_PSN_WINDOW
}

/// Strictly-ahead test on packet sequence numbers.
pub fn psn_gt(a: u32, b: u32) -> (r: bool)
    ensures
        r == spec_psn_gt(a, b),
{
    let d = a.wrapping_sub(b);
    d != 0 && d <= MAX_PSN_WINDOW
}

/// At-or-behind test on packet sequence numbers.
pub fn psn_leq(a: u32, b: u32) -> (r: bool)
    ensures
        r == spec_psn_leq(a, b),
{
    !psn_gt(a, b)
}

/// Wrapping distance from `b` up to `a` in the 16-bit message sequence space.
pub open spec fn msn_dist(a: u16, b: u16) -> u16 {
    vstd::wrapping::u16_specs::wrapping_sub(a, b)
}

/// `a` is at or ahead of `b` under the message window comparator.
pub open spec fn spec_msn_geq(a: u16, b: u16) -> bool {
    msn_dist(a, b) <= MAX_MSN_WINDOW
}

/// At-or-ahead test on message sequence numbers.
pub fn msn_geq(a: u16, b: u16) -> (r: bool)
    ensures
        r == spec_msn_geq(a, b),
{
    a.wrapping_sub(b) <= MAX_MSN_WINDOW
}

} // verus!
