//! Overlay addresses and subnets (address prefixes).
//!
//! An address is 128 bits wide, held as two 64-bit big-endian halves. A
//! subnet is an address prefix: a canonical (host bits cleared) address
//! together with a prefix length of at most 128 bits. Subnets identify
//! reachable overlay destinations and are compared by prefix alone.

use vstd::prelude::*;

verus! {

/// A 128-bit overlay address, split in a high and a low 64-bit half.
#[derive(Clone, Copy, Debug, PartialEq, Eq, Structural)]
pub struct Addr {
    /// Most significant 64 bits.
    pub hi: u64,
    /// Least significant 64 bits.
    pub lo: u64,
}

/// Mask keeping the top `bits` bits of one 64-bit half, `bits <= 64`.
pub open spec fn half_mask(bits: u8) -> u64
    recommends
        bits <= 64,
{
    if bits == 0 {
        0u64
    } else if bits >= 64 {
        0xffff_ffff_ffff_ffffu64
    } else {
        !(0xffff_ffff_ffff_ffffu64 >> bits)
    }
}

/// The address with every bit past the first `prefix_len` cleared.
pub open spec fn mask_addr(a: Addr, prefix_len: u8) -> Addr
    recommends
        prefix_len <= 128,
{
    if prefix_len <= 64 {
        Addr { hi: a.hi & half_mask(prefix_len), lo: 0u64 }
    } else {
        Addr { hi: a.hi, lo: a.lo & half_mask((prefix_len - 64) as u8) }
    }
}

/// An address prefix identifying an overlay destination.
#[derive(Clone, Copy, Debug, PartialEq, Eq, Structural)]
pub struct Subnet {
    /// The prefix address, canonical: host bits are zero.
    pub addr: Addr,
    /// Number of leading bits that make up the prefix, at most 128.
    pub prefix_len: u8,
}

/// A well-formed subnet: prefix length in range, address canonical.
pub open spec fn subnet_wf(s: Subnet) -> bool {
    &&& s.prefix_len <= 128
    &&& mask_addr(s.addr, s.prefix_len) == s.addr
}

/// `a` lies inside `s`: the first `prefix_len` bits of `a` are the prefix.
pub open spec fn subnet_contains(s: Subnet, a: Addr) -> bool {
    mask_addr(a, s.prefix_len) == s.addr
}

/// Keep the top `bits` bits of one 64-bit half.
fn half_mask_exec(bits: u8) -> (r: u64)
    requires
        bits <= 64,
    ensures
        r == half_mask(bits),
{
    if bits == 0 {
        0
    } else if bits == 64 {
        u64::MAX
    } else {
        !(u64::MAX >> bits)
    }
}

/// Clear every bit of `a` past the first `prefix_len` bits.
pub fn mask_addr_exec(a: Addr, prefix_len: u8) -> (r: Addr)
    requires
        prefix_len <= 128,
    ensures
        r == mask_addr(a, prefix_len),
{
    if prefix_len <= 64 {
        Addr { hi: a.hi & half_mask_exec(prefix_len), lo: 0 }
    } else {
        Addr { hi: a.hi, lo: a.lo & half_mask_exec(prefix_len - 64) }
    }
}

/// Masking is idempotent: a masked address is already canonical.
pub proof fn lemma_mask_idempotent(a: Addr, prefix_len: u8)
    requires
        prefix_len <= 128,
    ensures
        mask_addr(mask_addr(a, prefix_len), prefix_len) == mask_addr(a, prefix_len),
{
    assert forall|x: u64, m: u64| #[trigger] ((x & m) & m) == x & m by {
        assert(forall|x: u64, m: u64| #[trigger] ((x & m) & m) == x & m) by (bit_vector);
    }
    assert(0u64 & half_mask(0) == 0u64) by (bit_vector);
    assert(forall|b: u8| b <= 64 ==> #[trigger] (0u64 & half_mask(b)) == 0u64) by (bit_vector);
}

impl Subnet {
    /// Build the subnet of `addr` with the given prefix length, clearing the
    /// host bits so the subnet is canonical.
    pub fn new(addr: Addr, prefix_len: u8) -> (r: Subnet)
        requires
            prefix_len <= 128,
        ensures
            r.prefix_len == prefix_len,
            r.addr == mask_addr(addr, prefix_len),
            subnet_wf(r),
    {
        let masked = mask_addr_exec(addr, prefix_len);
        proof {
            lemma_mask_idempotent(addr, prefix_len);
        }
        Subnet { addr: masked, prefix_len }
    }

    /// True when `a` lies inside this subnet.
    pub fn contains(&self, a: Addr) -> (r: bool)
        requires
            self.prefix_len <= 128,
        ensures
            r == subnet_contains(*self, a),
    {
        let masked = mask_addr_exec(a, self.prefix_len);
        masked.hi == self.addr.hi && masked.lo == self.addr.lo
    }
}

} // verus!
