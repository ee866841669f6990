//! Page-granular addresses: virtual/physical addresses and page numbers.

use vstd::prelude::*;

use crate::config::{PAGE_SIZE, VPN_LIMIT};

verus! {

/// A virtual byte address (39-bit SV39 range).
#[derive(Clone, Copy, PartialEq, Eq, Structural, Debug)]
pub struct VirtAddr(pub u64);

/// A virtual page number: a virtual address shifted right by the page bits.
#[derive(Clone, Copy, PartialEq, Eq, Structural, Debug)]
pub struct VirtPageNum(pub u64);

/// A physical page number: a physical address shifted right by the page bits.
#[derive(Clone, Copy, PartialEq, Eq, Structural, Debug)]
pub struct PhysPageNum(pub u64);

impl VirtAddr {
    /// The page containing this address.
    pub open spec fn spec_floor(self) -> u64 {
        (self.0 / PAGE_SIZE) as u64
    }

    /// The first page boundary at or above this address.
    pub open spec fn spec_ceil(self) -> u64 {
        (((self.0 + (PAGE_SIZE - 1) as u64) as u64) / PAGE_SIZE) as u64
    }

    /// Number of the page this address falls in.
    pub fn floor(self) -> (r: VirtPageNum)
        ensures
            r.0 == self.spec_floor(),
    {
        VirtPageNum(self.0 / PAGE_SIZE)
    }

    /// Number of the first page starting at or after this address.
    pub fn ceil(self) -> (r: VirtPageNum)
        requires
            self.0 + PAGE_SIZE - 1 <= u64::MAX,
        ensures
            r.0 == self.spec_ceil(),
            self.0 % PAGE_SIZE == 0 ==> r.0 == self.spec_floor(),
            self.0 % PAGE_SIZE != 0 ==> r.0 == self.spec_floor() + 1,
    {
        VirtPageNum((self.0 + (PAGE_SIZE - 1)) / PAGE_SIZE)
    }

    /// Offset of this address within its page.
    pub fn page_offset(self) -> (r: u64)
        ensures
            r == self.0 % PAGE_SIZE,
    {
        self.0 % PAGE_SIZE
    }

    /// Whether this address sits exactly on a page boundary.
    pub fn is_aligned(self) -> (r: bool)
        ensures
            r == (self.0 % PAGE_SIZE == 0),
    {
        self.0 % PAGE_SIZE == 0
    }
}

impl VirtPageNum {
    /// Whether this page number is inside the 27-bit SV39 range.
    pub open spec fn in_range(self) -> bool {
        self.0 < VPN_LIMIT
    }

    /// First byte address of this page.
    pub fn base_addr(self) -> (r: VirtAddr)
        requires
            self.0 * PAGE_SIZE <= u64::MAX,
        ensures
            r.0 == self.0 * PAGE_SIZE,
    {
        VirtAddr(self.0 * PAGE_SIZE)
    }

    /// The next page number: range iteration is page-granular.
    pub fn step(self) -> (r: VirtPageNum)
        requires
            self.0 < u64::MAX,
        ensures
            r.0 == self.0 + 1,
    {
        VirtPageNum(self.0 + 1)
    }
}

/// The level-0 (most significant) 9-bit index of a virtual page number.
pub open spec fn spec_idx0(vpn: u64) -> u64 {
    ((vpn >> 18) & 0x1ff) as u64
}

/// The level-1 (middle) 9-bit index of a virtual page number.
pub open spec fn spec_idx1(vpn: u64) -> u64 {
    ((vpn >> 9) & 0x1ff) as u64
}

/// The level-2 (least significant, leaf) 9-bit index of a virtual page number.
pub open spec fn spec_idx2(vpn: u64) -> u64 {
    (vpn & 0x1ff) as u64
}

/// Two in-range page numbers with equal three-level index decompositions
/// are the same page.
pub proof fn lemma_indexes_injective(a: u64, b: u64)
    requires
        a < VPN_LIMIT,
        b < VPN_LIMIT,
        spec_idx0(a) == spec_idx0(b),
        spec_idx1(a) == spec_idx1(b),
        spec_idx2(a) == spec_idx2(b),
    ensures
        a == b,
{
    assert(a < 0x8000000 && b < 0x8000000
        && ((a >> 18) & 0x1ff) == ((b >> 18) & 0x1ff)
        && ((a >> 9) & 0x1ff) == ((b >> 9) & 0x1ff)
        && (a & 0x1ff) == (b & 0x1ff) ==> a == b) by (bit_vector);
}

/// Each level index is a valid entry index (below 512).
pub proof fn lemma_indexes_bounded(vpn: u64)
    ensures
        spec_idx0(vpn) < 512,
        spec_idx1(vpn) < 512,
        spec_idx2(vpn) < 512,
{
    assert(((vpn >> 18) & 0x1ff) < 512) by (bit_vector);
    assert(((vpn >> 9) & 0x1ff) < 512) by (bit_vector);
    assert((vpn & 0x1ff) < 512) by (bit_vector);
}

/// Decompose a virtual page number into its three 9-bit table indices,
/// most significant first.
pub fn vpn_indexes(vpn: VirtPageNum) -> (r: (usize, usize, usize))
    ensures
        r.0 == spec_idx0(vpn.0),
        r.1 == spec_idx1(vpn.0),
        r.2 == spec_idx2(vpn.0),
        r.0 < 512,
        r.1 < 512,
        r.2 < 512,
{
    proof {
        lemma_indexes_bounded(vpn.0);
    }
    (
        ((vpn.0 >> 18) & 0x1ff) as usize,
        ((vpn.0 >> 9) & 0x1ff) as usize,
        (vpn.0 & 0x1ff) as usize,
    )
}

} // verus!
