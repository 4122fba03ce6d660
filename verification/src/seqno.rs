//! 16-bit route sequence numbers with circular (wraparound) comparison.
//!
//! A sequence number is owned by the router that originates a route and is
//! incremented only by that originator. Comparison is circular: `b` counts as
//! strictly newer than `a` when walking forward from `a` reaches `b` in fewer
//! than `2^15` steps. The midpoint (a distance of exactly `2^15`) is
//! ambiguous and deliberately counts as "not newer".

use vstd::prelude::*;

verus! {

/// Distance walked forward (with wraparound) from `a` to reach `b`;
/// equivalently `(b - a) mod 2^16`.
pub open spec fn seqno_dist(a: u16, b: u16) -> int {
    if b >= a {
        b - a
    } else {
        b - a + 0x10000
    }
}

/// `b` is strictly newer than `a`: the forward distance from `a` to `b` is in
/// the lower half of the circle, the midpoint excluded.
pub open spec fn seqno_newer(a: u16, b: u16) -> bool {
    1 <= seqno_dist(a, b) <= 0x7fff
}

/// A 16-bit sequence number of a route advertisement.
#[derive(Clone, Copy, Debug, PartialEq, Eq, Structural)]
pub struct SeqNo(pub u16);

impl SeqNo {
    /// The sequence number a node starts out with.
    pub fn zero() -> (r: SeqNo)
        ensures
            r.0 == 0,
    {
        SeqNo(0)
    }

    /// True when `other` is strictly newer than `self` on the 16-bit circle.
    pub fn newer(self, other: SeqNo) -> (r: bool)
        ensures
            r == seqno_newer(self.0, other.0),
    {
        let dist = other.0.wrapping_sub(self.0);
        1 <= dist && dist <= 0x7fff
    }

    /// The next sequence number, wrapping around at the top of the range.
    pub fn next(self) -> (r: SeqNo)
        ensures
            r.0 == seqno_next(self.0),
    {
        SeqNo(self.0.wrapping_add(1))
    }
}

/// The successor of `v` on the 16-bit circle.
pub open spec fn seqno_next(v: u16) -> u16 {
    if v == 0xffff {
        0
    } else {
        (v + 1) as u16
    }
}

/// Circularity of the comparison: the immediate successor of any sequence
/// number is newer than it, while the value diametrically opposite (the
/// midpoint of the circle) is not.
pub proof fn lemma_seqno_circular(a: u16, b: u16)
    ensures
        b == (a + 1) % 0x10000 ==> seqno_newer(a, b),
        b == (a + 0x8000) % 0x10000 ==> !seqno_newer(a, b),
{
}

} // verus!
