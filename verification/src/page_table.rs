//! The SV39-style three-level page table: entries, the translation tree,
//! and map/unmap/translate over it.

use vstd::pervasive::VecAdditionalExecFns;
use vstd::prelude::*;

use crate::addr::{lemma_indexes_bounded, lemma_indexes_injective, spec_idx0, spec_idx1,
    spec_idx2, vpn_indexes, PhysPageNum, VirtPageNum};
use crate::config::{PAGE_SIZE, PPN_MASK, VA_LIMIT, VPN_LIMIT};
use crate::phys_mem::PhysMemory;
use crate::frame_allocator::FrameAllocator;

verus! {

/// Entry flag: the entry is valid.
pub const PTE_V: u8 = 0x01;

/// Entry flag: the page is readable.
pub const PTE_R: u8 = 0x02;

/// Entry flag: the page is writable.
pub const PTE_W: u8 = 0x04;

/// Entry flag: the page is executable.
pub const PTE_X: u8 = 0x08;

/// Entry flag: the page is accessible from user mode.
pub const PTE_U: u8 = 0x10;

/// Entry flag: the mapping is global.
pub const PTE_G: u8 = 0x20;

/// Entry flag: the page has been accessed.
pub const PTE_A: u8 = 0x40;

/// Entry flag: the page has been written.
pub const PTE_D: u8 = 0x80;

/// One page-table entry: a 44-bit physical page number above 10 low bits,
/// of which the lowest 8 are the flag byte.
#[derive(Clone, Copy, PartialEq, Eq, Structural, Debug)]
pub struct PageTableEntry {
    /// The raw bits of the entry.
    pub bits: u64,
}

impl PageTableEntry {
    /// The raw bits an entry built from `ppn` and `flags` carries.
    pub open spec fn spec_new_bits(ppn: u64, flags: u8) -> u64 {
        (ppn << 10) | flags as u64
    }

    /// The physical page number encoded in this entry.
    pub open spec fn spec_ppn(self) -> u64 {
        (self.bits >> 10) & PPN_MASK
    }

    /// The flag byte of this entry.
    pub open spec fn spec_flags(self) -> u8 {
        (self.bits & 0xff) as u8
    }

    /// Whether the Valid bit is set. An entry with Valid clear carries no
    /// meaningful physical page number.
    pub open spec fn spec_is_valid(self) -> bool {
        self.bits & 1 != 0
    }

    /// Create a new page table entry from a physical page number and flags.
    pub fn new(ppn: PhysPageNum, flags: u8) -> (r: Self)
        requires
            ppn.0 <= PPN_MASK,
        ensures
            r.bits == Self::spec_new_bits(ppn.0, flags),
            r.spec_ppn() == ppn.0,
            r.spec_flags() == flags,
            r.spec_is_valid() == (flags & PTE_V != 0),
    {
        let p = ppn.0;
        let bits = (p << 10) | flags as u64;
        proof {
            assert(p <= 0xfff_ffff_ffff ==> {
                &&& (((p << 10) | flags as u64) >> 10) & 0xfff_ffff_ffff == p
                &&& (((p << 10) | flags as u64) & 0xff) as u8 == flags
                &&& ((((p << 10) | flags as u64) & 1 != 0) <==> (flags & 1 != 0))
            }) by (bit_vector);
        }
        PageTableEntry { bits }
    }

    /// Create an empty (invalid) page table entry.
    pub fn empty() -> (r: Self)
        ensures
            r.bits == 0,
            !r.spec_is_valid(),
    {
        proof {
            assert(0u64 & 1 == 0) by (bit_vector);
        }
        PageTableEntry { bits: 0 }
    }

    /// Read the physical page number out of the entry.
    pub fn ppn(&self) -> (r: PhysPageNum)
        ensures
            r.0 == self.spec_ppn(),
    {
        PhysPageNum((self.bits >> 10) & PPN_MASK)
    }

    /// Read the flag byte out of the entry.
    pub fn flags(&self) -> (r: u8)
        ensures
            r == self.spec_flags(),
    {
        (self.bits & 0xff) as u8
    }

    /// Whether the entry is valid.
    pub fn is_valid(&self) -> (r: bool)
        ensures
            r == self.spec_is_valid(),
    {
        (self.bits & 1) != 0
    }

    /// Whether the mapped page is readable.
    pub fn readable(&self) -> (r: bool)
        ensures
            r == (self.spec_flags() & PTE_R != 0),
    {
        proof {
            let b = self.bits;
            assert((b & 2 != 0) <==> (((b & 0xff) as u8) & 0x02 != 0)) by (bit_vector);
        }
        (self.bits & 2) != 0
    }

    /// Whether the mapped page is writable.
    pub fn writable(&self) -> (r: bool)
        ensures
            r == (self.spec_flags() & PTE_W != 0),
    {
        proof {
            let b = self.bits;
            assert((b & 4 != 0) <==> (((b & 0xff) as u8) & 0x04 != 0)) by (bit_vector);
        }
        (self.bits & 4) != 0
    }

    /// Whether the mapped page is executable.
    pub fn executable(&self) -> (r: bool)
        ensures
            r == (self.spec_flags() & PTE_X != 0),
    {
        proof {
            let b = self.bits;
            assert((b & 8 != 0) <==> (((b & 0xff) as u8) & 0x08 != 0)) by (bit_vector);
        }
        (self.bits & 8) != 0
    }
}


/// Why a `map` or `unmap` request was refused.
#[derive(Clone, Copy, PartialEq, Eq, Structural, Debug)]
pub enum MapError {
    /// The virtual page already carries a valid leaf entry; callers must
    /// unmap first, re-mapping is never a silent overwrite.
    AlreadyMapped,
    /// The virtual page carries no valid leaf entry to remove.
    NotMapped,
    /// The frame pool could not supply a fresh table node.
    OutOfFrames,
}

/// A level-2 table node: one owned frame holding the 512 leaf entries.
pub struct LeafNode {
    /// The physical frame this node lives in.
    pub ppn: u64,
    /// The 512 leaf page-table entries.
    pub entries: Vec<PageTableEntry>,
}

/// A level-1 table node: one owned frame holding 512 directory entries,
/// each valid one linking a level-2 node the table owns.
pub struct MidNode {
    /// The physical frame this node lives in.
    pub ppn: u64,
    /// The 512 directory page-table entries.
    pub entries: Vec<PageTableEntry>,
    /// The owned level-2 nodes, one per valid directory entry.
    pub children: Vec<Option<LeafNode>>,
}

/// A directory slot is consistent: the entry is valid exactly when the
/// owned child is present, and then carries the child frame's number and
/// the Valid flag alone (a directory link, not a data page: no R/W/X).
pub open spec fn leaf_slot_ok(e: PageTableEntry, c: Option<LeafNode>) -> bool {
    match c {
        Some(l) => e.spec_flags() == PTE_V && e.spec_is_valid() && e.spec_ppn() == l.ppn && l.wf(),
        None => !e.spec_is_valid(),
    }
}

/// Same consistency for a root slot linking a level-1 node.
pub open spec fn mid_slot_ok(e: PageTableEntry, c: Option<MidNode>) -> bool {
    match c {
        Some(m) => e.spec_flags() == PTE_V && e.spec_is_valid() && e.spec_ppn() == m.ppn && m.wf(),
        None => !e.spec_is_valid(),
    }
}

impl LeafNode {
    /// The node holds exactly 512 entries.
    pub open spec fn wf(self) -> bool {
        self.entries@.len() == 512
    }

    /// A fresh zero-filled leaf node in frame `ppn`.
    fn new(ppn: u64) -> (r: Self)
        ensures
            r.wf(),
            r.ppn == ppn,
            forall|k: int| 0 <= k < 512 ==> !(#[trigger] r.entries@[k]).spec_is_valid(),
    {
        LeafNode { ppn, entries: empty_entries() }
    }
}

impl MidNode {
    /// The node holds 512 consistent directory slots.
    pub open spec fn wf(self) -> bool {
        &&& self.entries@.len() == 512
        &&& self.children@.len() == 512
        &&& forall|k: int|
            0 <= k < 512 ==> leaf_slot_ok(self.entries@[k], #[trigger] self.children@[k])
    }

    /// A fresh zero-filled level-1 node in frame `ppn`: no children yet.
    fn new(ppn: u64) -> (r: Self)
        ensures
            r.wf(),
            r.ppn == ppn,
            forall|k: int| 0 <= k < 512 ==> (#[trigger] r.children@[k]) is None,
    {
        MidNode { ppn, entries: empty_entries(), children: none_children() }
    }
}

/// 512 empty (invalid) page-table entries.
fn empty_entries() -> (r: Vec<PageTableEntry>)
    ensures
        r@.len() == 512,
        forall|k: int| 0 <= k < 512 ==> !(#[trigger] r@[k]).spec_is_valid(),
{
    let mut v: Vec<PageTableEntry> = Vec::new();
    let mut i: usize = 0;
    while i < 512
        invariant
            i == v@.len(),
            i <= 512,
            forall|k: int| 0 <= k < i ==> !(#[trigger] v@[k]).spec_is_valid(),
        decreases 512 - i,
    {
        v.push(PageTableEntry::empty());
        i = i + 1;
    }
    v
}

/// 512 absent children.
fn none_children<T>() -> (r: Vec<Option<T>>)
    ensures
        r@.len() == 512,
        forall|k: int| 0 <= k < 512 ==> (#[trigger] r@[k]) is None,
{
    let mut v: Vec<Option<T>> = Vec::new();
    let mut i: usize = 0;
    while i < 512
        invariant
            i == v@.len(),
            i <= 512,
            forall|k: int| 0 <= k < i ==> (#[trigger] v@[k]) is None,
        decreases 512 - i,
    {
        v.push(None);
        i = i + 1;
    }
    v
}

/// One address space's three-level translation tree: the root frame's 512
/// directory slots plus the owned lower-level nodes. Every intermediate
/// valid entry points to a node the table owns; a leaf page is mapped at
/// most once and only through `map`/`unmap`.
pub struct PageTable {
    /// The physical frame holding the root node.
    pub root_ppn: u64,
    /// The 512 root directory entries.
    pub entries: Vec<PageTableEntry>,
    /// The owned level-1 nodes, one per valid root entry.
    pub children: Vec<Option<MidNode>>,
}

impl PageTable {
    /// The whole tree is consistent.
    pub open spec fn wf(self) -> bool {
        &&& self.entries@.len() == 512
        &&& self.children@.len() == 512
        &&& self.root_ppn <= PPN_MASK
        &&& forall|k: int|
            0 <= k < 512 ==> mid_slot_ok(self.entries@[k], #[trigger] self.children@[k])
    }

    /// The leaf entry the three-level walk of `vpn` reaches, if the walk
    /// does not hit an absent directory entry.
    pub open spec fn spec_pte_for(self, vpn: u64) -> Option<PageTableEntry> {
        match self.children@[spec_idx0(vpn) as int] {
            Some(mid) => match mid.children@[spec_idx1(vpn) as int] {
                Some(leaf) => Some(leaf.entries@[spec_idx2(vpn) as int]),
                None => None,
            },
            None => None,
        }
    }

    /// What translating `vpn` yields: the leaf entry if present and valid,
    /// else nothing.
    pub open spec fn spec_translate(self, vpn: u64) -> Option<PageTableEntry> {
        match self.spec_pte_for(vpn) {
            Some(pte) => if pte.spec_is_valid() {
                Some(pte)
            } else {
                None
            },
            None => None,
        }
    }

    /// Whether `vpn` currently has a valid mapping.
    pub open spec fn is_mapped(self, vpn: u64) -> bool {
        self.spec_translate(vpn) is Some
    }

    /// How many table-node frames mapping `vpn` has to allocate: one for
    /// each directory level absent from its walk.
    pub open spec fn spec_nodes_needed(self, vpn: u64) -> int {
        match self.children@[spec_idx0(vpn) as int] {
            Some(mid) => match mid.children@[spec_idx1(vpn) as int] {
                Some(leaf) => 0,
                None => 1,
            },
            None => 2,
        }
    }

    /// Create a new page table: one fresh frame as the empty root node.
    /// Nothing succeeds only when the frame pool is exhausted; a fresh
    /// table maps no page at all.
    pub fn new(alloc: &mut FrameAllocator) -> (r: Option<PageTable>)
        requires
            old(alloc).wf(),
        ensures
            final (alloc).wf(),
            final (alloc).base == old(alloc).base,
            final (alloc).end == old(alloc).end,
            r is Some <==> old(alloc).spec_free_count() > 0,
            r is None ==> final (alloc).current == old(alloc).current
                && final (alloc).recycled@ == old(alloc).recycled@,
            r matches Some(pt) ==> {
                &&& pt.wf()
                &&& forall|v: u64| #[trigger] pt.spec_translate(v) is None
                &&& !old(alloc).is_allocated(pt.root_ppn)
                &&& final (alloc).is_allocated(pt.root_ppn)
                &&& final (alloc).spec_free_count() == old(alloc).spec_free_count() - 1
                &&& forall|q: u64|
                    q != pt.root_ppn ==> final (alloc).is_allocated(q) == old(alloc).is_allocated(
                        q,
                    )
            },
    {
        match alloc.alloc_frame() {
            Some(f) => {
                let pt = PageTable {
                    root_ppn: f.ppn.0,
                    entries: empty_entries(),
                    children: none_children(),
                };
                proof {
                    assert forall|v: u64| pt.spec_translate(v) is None by {
                        lemma_indexes_bounded(v);
                        assert(pt.children@[spec_idx0(v) as int] is None);
                    }
                }
                Some(pt)
            },
            None => None,
        }
    }

    /// Encode the root into the hardware translation-control format:
    /// top four bits select three-level translation (mode 8), the low 44
    /// bits hold the root frame number, everything between is zero.
    pub fn token(&self) -> (r: u64)
        requires
            self.wf(),
        ensures
            r == (8u64 << 60) | self.root_ppn,
            r & PPN_MASK == self.root_ppn,
            r >> 60 == 8,
    {
        let t = (8u64 << 60) | self.root_ppn;
        proof {
            let p = self.root_ppn;
            assert(p <= 0xfff_ffff_ffff ==> {
                &&& (((8u64 << 60) | p) & 0xfff_ffff_ffff) == p
                &&& (((8u64 << 60) | p) >> 60) == 8
            }) by (bit_vector);
        }
        t
    }

    /// Walk the tree without creating: the valid leaf entry for `vpn`,
    /// or nothing when the page is not mapped.
    pub fn translate(&self, vpn: VirtPageNum) -> (r: Option<PageTableEntry>)
        requires
            self.wf(),
        ensures
            r == self.spec_translate(vpn.0),
    {
        let (i0, i1, i2) = vpn_indexes(vpn);
        let e0 = self.entries[i0];
        if !e0.is_valid() {
            return None;
        }
        match &self.children[i0] {
            Some(mid) => {
                let e1 = mid.entries[i1];
                if !e1.is_valid() {
                    return None;
                }
                match &mid.children[i1] {
                    Some(leaf) => {
                        let pte = leaf.entries[i2];
                        if pte.is_valid() {
                            Some(pte)
                        } else {
                            None
                        }
                    },
                    None => {
                        proof {
                            assert(false);
                        }
                        None
                    },
                }
            },
            None => {
                proof {
                    assert(false);
                }
                None
            },
        }
    }

    /// Map `vpn` to `ppn` with `flags` (Valid forced on), creating absent
    /// directory levels from fresh frames. A page mapped before is refused,
    /// never silently overwritten; on any refusal no mapping changes.
    pub fn map(&mut self, alloc: &mut FrameAllocator, vpn: VirtPageNum, ppn: PhysPageNum,
        flags: u8) -> (r: Result<(), MapError>)
        requires
            old(self).wf(),
            old(alloc).wf(),
            vpn.in_range(),
            ppn.0 <= PPN_MASK,
        ensures
            final (self).wf(),
            final (alloc).wf(),
            final (alloc).base == old(alloc).base,
            final (alloc).end == old(alloc).end,
            final (self).root_ppn == old(self).root_ppn,
            final (alloc).spec_free_count() >= old(alloc).spec_free_count() - 2,
            forall|q: u64| old(alloc).is_allocated(q) ==> final (alloc).is_allocated(q),
            forall|v: u64|
                v < VPN_LIMIT && v != vpn.0 ==> #[trigger] final (self).spec_translate(v) == old(
                    self,
                ).spec_translate(v),
            match r {
                Ok(()) => {
                    &&& old(self).spec_translate(vpn.0) is None
                    &&& final (self).spec_translate(vpn.0) == Some(
                        PageTableEntry {
                            bits: PageTableEntry::spec_new_bits(ppn.0, flags | PTE_V),
                        },
                    )
                    &&& final (alloc).spec_free_count() == old(alloc).spec_free_count() - old(
                        self,
                    ).spec_nodes_needed(vpn.0)
                },
                Err(MapError::AlreadyMapped) => {
                    &&& old(self).spec_translate(vpn.0) is Some
                    &&& final (self).spec_translate(vpn.0) == old(self).spec_translate(vpn.0)
                    &&& final (alloc).spec_free_count() == old(alloc).spec_free_count()
                },
                Err(MapError::OutOfFrames) => {
                    &&& old(alloc).spec_free_count() < old(self).spec_nodes_needed(vpn.0)
                    &&& final (self).spec_translate(vpn.0) == old(self).spec_translate(vpn.0)
                },
                Err(MapError::NotMapped) => false,
            },
    {
        let (i0, i1, i2) = vpn_indexes(vpn);
        if self.translate(vpn).is_some() {
            return Err(MapError::AlreadyMapped);
        }
        // Level 0: make sure the root slot links a level-1 node.
        if !self.entries[i0].is_valid() {
            let f = match alloc.alloc_frame() {
                Some(f) => f,
                None => {
                    return Err(MapError::OutOfFrames);
                },
            };
            let node = MidNode::new(f.ppn.0);
            let e = PageTableEntry::new(f.ppn, PTE_V);
            self.entries.set(i0, e);
            self.children.set(i0, Some(node));
            proof {
                assert(PTE_V & PTE_V != 0) by (bit_vector);
                assert(mid_slot_ok(self.entries@[i0 as int], self.children@[i0 as int]));
                assert forall|k: int|
                    0 <= k < 512 implies mid_slot_ok(
                    self.entries@[k],
                    #[trigger] self.children@[k],
                ) by {
                    if k != i0 {
                        assert(mid_slot_ok(old(self).entries@[k], old(self).children@[k]));
                    }
                }
                assert forall|v: u64| #[trigger]
                    self.spec_translate(v) == old(self).spec_translate(v) by {
                    lemma_indexes_bounded(v);
                    if spec_idx0(v) == i0 {
                        assert(old(self).children@[i0 as int] is None);
                    }
                }
            }
        }
        proof {
            assert(self.wf());
            assert(self.children@[i0 as int] is Some);
            assert(forall|v: u64| #[trigger]
                self.spec_translate(v) == old(self).spec_translate(v));
        }
        let ghost g1 = *self;
        let mut mid = match self.children[i0].take() {
            Some(m) => m,
            None => {
                proof {
                    assert(false);
                }
                MidNode { ppn: 0, entries: Vec::new(), children: Vec::new() }
            },
        };
        let ghost mid0 = mid;
        // Level 1: make sure the slot in the level-1 node links a leaf node.
        if !mid.entries[i1].is_valid() {
            let f = match alloc.alloc_frame() {
                Some(f) => f,
                None => {
                    self.children.set(i0, Some(mid));
                    proof {
                        assert(self.children@ =~= g1.children@);
                        assert(self.entries@ == g1.entries@);
                        assert forall|k: int|
                            0 <= k < 512 implies mid_slot_ok(
                            self.entries@[k],
                            #[trigger] self.children@[k],
                        ) by {
                            assert(mid_slot_ok(g1.entries@[k], g1.children@[k]));
                        }
                        assert forall|v: u64| #[trigger]
                            self.spec_translate(v) == g1.spec_translate(v) by {
                            lemma_indexes_bounded(v);
                        }
                    }
                    return Err(MapError::OutOfFrames);
                },
            };
            let leaf = LeafNode::new(f.ppn.0);
            mid.entries.set(i1, PageTableEntry::new(f.ppn, PTE_V));
            mid.children.set(i1, Some(leaf));
            proof {
                assert(PTE_V & PTE_V != 0) by (bit_vector);
                assert(leaf_slot_ok(mid.entries@[i1 as int], mid.children@[i1 as int]));
                assert forall|k: int|
                    0 <= k < 512 implies leaf_slot_ok(
                    mid.entries@[k],
                    #[trigger] mid.children@[k],
                ) by {
                    if k != i1 {
                        assert(leaf_slot_ok(mid0.entries@[k], mid0.children@[k]));
                    }
                }
            }
        }
        proof {
            assert(mid.wf());
            assert(mid.children@[i1 as int] is Some);
        }
        let ghost mid1 = mid;
        let mut leaf = match mid.children[i1].take() {
            Some(l) => l,
            None => {
                proof {
                    assert(false);
                }
                LeafNode { ppn: 0, entries: Vec::new() }
            },
        };
        let ghost leaf1 = leaf;
        let newpte = PageTableEntry::new(ppn, flags | PTE_V);
        leaf.entries.set(i2, newpte);
        mid.children.set(i1, Some(leaf));
        self.children.set(i0, Some(mid));
        proof {
            assert((flags | PTE_V) & PTE_V != 0) by (bit_vector);
            // The tree is still consistent.
            assert forall|k: int|
                0 <= k < 512 implies leaf_slot_ok(mid.entries@[k], #[trigger] mid.children@[k]) by {
                assert(leaf_slot_ok(mid1.entries@[k], mid1.children@[k]));
            }
            assert(mid.wf());
            assert forall|k: int|
                0 <= k < 512 implies mid_slot_ok(self.entries@[k], #[trigger] self.children@[k]) by {
                assert(mid_slot_ok(g1.entries@[k], g1.children@[k]));
            }
            assert(self.wf());
            // The new leaf entry is what the walk of `vpn` now reaches.
            assert(self.spec_translate(vpn.0) == Some(newpte));
            // Every other in-range page translates as before.
            assert forall|v: u64|
                v < VPN_LIMIT && v != vpn.0 implies #[trigger] self.spec_translate(v) == old(
                self,
            ).spec_translate(v) by {
                lemma_indexes_bounded(v);
                lemma_indexes_bounded(vpn.0);
                if spec_idx0(v) == i0 && spec_idx1(v) == i1 && spec_idx2(v) == i2 {
                    lemma_indexes_injective(v, vpn.0);
                } else if spec_idx0(v) == i0 && spec_idx1(v) == i1 {
                    // Same leaf node, different slot: that slot kept its entry,
                    // whether the leaf is fresh (then invalid both ways) or old.
                    assert(self.spec_translate(v) == g1.spec_translate(v));
                } else if spec_idx0(v) == i0 {
                    // Same level-1 node, different slot.
                    assert(self.spec_translate(v) == g1.spec_translate(v));
                } else {
                    assert(self.spec_translate(v) == g1.spec_translate(v));
                }
            }
        }
        Ok(())
    }

    /// Remove the mapping of `vpn`: clear its valid leaf entry. A page not
    /// currently mapped is refused, and nothing changes.
    pub fn unmap(&mut self, vpn: VirtPageNum) -> (r: Result<(), MapError>)
        requires
            old(self).wf(),
            vpn.in_range(),
        ensures
            final (self).wf(),
            final (self).root_ppn == old(self).root_ppn,
            forall|v: u64|
                v < VPN_LIMIT && v != vpn.0 ==> #[trigger] final (self).spec_translate(v) == old(
                    self,
                ).spec_translate(v),
            match r {
                Ok(()) => {
                    &&& old(self).spec_translate(vpn.0) is Some
                    &&& final (self).spec_translate(vpn.0) is None
                },
                Err(MapError::NotMapped) => {
                    &&& old(self).spec_translate(vpn.0) is None
                    &&& final (self).spec_translate(vpn.0) is None
                },
                _ => false,
            },
    {
        let (i0, i1, i2) = vpn_indexes(vpn);
        if self.translate(vpn).is_none() {
            return Err(MapError::NotMapped);
        }
        let ghost g0 = *old(self);
        let mut mid = match self.children[i0].take() {
            Some(m) => m,
            None => {
                proof {
                    assert(false);
                }
                MidNode { ppn: 0, entries: Vec::new(), children: Vec::new() }
            },
        };
        let mut leaf = match mid.children[i1].take() {
            Some(l) => l,
            None => {
                proof {
                    assert(false);
                }
                LeafNode { ppn: 0, entries: Vec::new() }
            },
        };
        let ghost leaf0 = leaf;
        leaf.entries.set(i2, PageTableEntry::empty());
        mid.children.set(i1, Some(leaf));
        self.children.set(i0, Some(mid));
        proof {
            let mid0 = g0.children@[i0 as int].unwrap();
            assert forall|k: int|
                0 <= k < 512 implies leaf_slot_ok(mid.entries@[k], #[trigger] mid.children@[k]) by {
                assert(leaf_slot_ok(mid0.entries@[k], mid0.children@[k]));
            }
            assert(mid.wf());
            assert forall|k: int|
                0 <= k < 512 implies mid_slot_ok(self.entries@[k], #[trigger] self.children@[k]) by {
                assert(mid_slot_ok(g0.entries@[k], g0.children@[k]));
            }
            assert(self.wf());
            assert(self.spec_translate(vpn.0) is None);
            assert forall|v: u64|
                v < VPN_LIMIT && v != vpn.0 implies #[trigger] self.spec_translate(v) == old(
                self,
            ).spec_translate(v) by {
                lemma_indexes_bounded(v);
                lemma_indexes_bounded(vpn.0);
                if spec_idx0(v) == i0 && spec_idx1(v) == i1 && spec_idx2(v) == i2 {
                    lemma_indexes_injective(v, vpn.0);
                }
            }
        }
        Ok(())
    }
}


/// Field view of a freshly encoded entry: the 44-bit page number and the
/// flag byte come back out unchanged.
pub proof fn lemma_new_bits_fields(p: u64, f: u8)
    requires
        p <= PPN_MASK,
    ensures
        (PageTableEntry { bits: PageTableEntry::spec_new_bits(p, f) }).spec_ppn() == p,
        (PageTableEntry { bits: PageTableEntry::spec_new_bits(p, f) }).spec_flags() == f,
        (PageTableEntry { bits: PageTableEntry::spec_new_bits(p, f) }).spec_is_valid() == (f & 1
            != 0),
{
    assert(p <= 0xfff_ffff_ffff ==> {
        &&& (((p << 10) | f as u64) >> 10) & 0xfff_ffff_ffff == p
        &&& (((p << 10) | f as u64) & 0xff) as u8 == f
        &&& ((((p << 10) | f as u64) & 1 != 0) <==> (f & 1 != 0))
    }) by (bit_vector);
}

/// One contiguous run of bytes inside a single physical page, produced by
/// the cross-address-space walk: the bytes of virtual range
/// `[vbase, vbase + len)` live at `[off, off + len)` of frame `ppn`.
#[derive(Clone, Copy, PartialEq, Eq, Structural, Debug)]
pub struct ByteWindow {
    /// Virtual address of the window's first byte.
    pub vbase: u64,
    /// Physical page holding the window.
    pub ppn: u64,
    /// Offset of the window inside that page.
    pub off: u64,
    /// Length of the window in bytes; never crosses the page end.
    pub len: u64,
}

/// The windows sit back to back and cover exactly `[from, to)`.
pub open spec fn windows_chained(ws: Seq<ByteWindow>, from: u64, to: u64) -> bool {
    &&& (ws.len() == 0 ==> from == to)
    &&& (ws.len() > 0 ==> ws[0].vbase == from)
    &&& (ws.len() > 0 ==> ws[ws.len() - 1].vbase + ws[ws.len() - 1].len == to)
    &&& forall|j: int|
        0 <= j < ws.len() - 1 ==> #[trigger] ws[j].vbase + ws[j].len == ws[j + 1].vbase
}

/// One window is internally consistent with the table it was walked from:
/// non-empty, within one page, and its frame is what the table maps the
/// containing virtual page to.
pub open spec fn window_wf(w: ByteWindow, pt: PageTable) -> bool {
    &&& w.len > 0
    &&& w.off == w.vbase % PAGE_SIZE
    &&& w.off + w.len <= PAGE_SIZE
    &&& match pt.spec_translate((w.vbase / PAGE_SIZE) as u64) {
        Some(pte) => pte.spec_ppn() == w.ppn,
        None => false,
    }
}

/// Total number of bytes the windows carry.
pub open spec fn windows_total_len(ws: Seq<ByteWindow>) -> int
    decreases ws.len(),
{
    if ws.len() == 0 {
        0
    } else {
        windows_total_len(ws.drop_last()) + ws.last().len
    }
}

/// Windows chained over `[from, to)` carry exactly `to - from` bytes:
/// the concatenation of a transfer's windows has exactly the requested
/// length.
#[verifier::spinoff_prover]
#[verifier::rlimit(100)]
pub proof fn lemma_chained_windows_total_len(ws: Seq<ByteWindow>, from: u64, to: u64)
    requires
        windows_chained(ws, from, to),
    ensures
        windows_total_len(ws) == to - from,
    decreases ws.len(),
{
    if ws.len() == 0 {
    } else if ws.len() == 1 {
        assert(windows_total_len(ws.drop_last()) == 0);
    } else {
        let head = ws.drop_last();
        let last = ws.last();
        assert(head[head.len() - 1].vbase + head[head.len() - 1].len == last.vbase);
        assert(windows_chained(head, from, last.vbase)) by {
            assert forall|j: int|
                0 <= j < head.len() - 1 implies #[trigger] head[j].vbase + head[j].len == head[j
                + 1].vbase by {
                assert(ws[j].vbase + ws[j].len == ws[j + 1].vbase);
            }
        }
        lemma_chained_windows_total_len(head, from, last.vbase);
    }
}

/// Where virtual address `va` lives physically under `pt`: the frame and
/// the offset inside it, if the containing page is mapped.
pub open spec fn spec_paddr(pt: PageTable, va: u64) -> Option<(u64, u64)> {
    match pt.spec_translate((va / PAGE_SIZE) as u64) {
        Some(pte) => Some(((pte.spec_ppn()), (va % PAGE_SIZE) as u64)),
        None => None,
    }
}

/// `b` is the byte `mem` holds at the physical place of `va` under `pt`.
pub open spec fn byte_at(pt: PageTable, mem: PhysMemory, va: u64, b: u8) -> bool {
    match spec_paddr(pt, va) {
        Some(pa) => mem.spec_byte(pa.0, pa.1) == b,
        None => false,
    }
}

/// Every frame `pt` maps a page to exists in `mem`.
pub open spec fn pt_fits(pt: PageTable, mem: PhysMemory) -> bool {
    forall|v: u64|
        v < VPN_LIMIT && (#[trigger] pt.spec_translate(v)) is Some
            ==> pt.spec_translate(v).unwrap().spec_ppn() < mem.spec_num_pages()
}

/// No two distinct pages of `[ptr, ptr + len)` are mapped to the same
/// frame, as far as they are mapped at all.
pub open spec fn range_no_alias(pt: PageTable, ptr: u64, len: u64) -> bool {
    forall|a: u64, b: u64|
        a * PAGE_SIZE < ptr + len && ptr < a * PAGE_SIZE + PAGE_SIZE && b * PAGE_SIZE < ptr + len
            && ptr < b * PAGE_SIZE + PAGE_SIZE && a != b && (#[trigger] pt.spec_translate(a))
            is Some && (#[trigger] pt.spec_translate(b)) is Some ==> pt.spec_translate(
            a,
        ).unwrap().spec_ppn() != pt.spec_translate(b).unwrap().spec_ppn()
}

/// Every byte of a well-formed window lives where the table translates
/// its virtual address: window contents are exactly the translated bytes
/// of the window's virtual range.
pub proof fn lemma_window_bytes(w: ByteWindow, pt: PageTable)
    requires
        window_wf(w, pt),
        w.vbase + w.len <= VA_LIMIT,
    ensures
        forall|t: u64|
            t < w.len ==> #[trigger] spec_paddr(pt, (w.vbase + t) as u64) == Some(
                (w.ppn, (w.off + t) as u64),
            ),
{
    assert forall|t: u64|
        t < w.len implies #[trigger] spec_paddr(pt, (w.vbase + t) as u64) == Some(
        (w.ppn, (w.off + t) as u64),
    ) by {
        let va = (w.vbase + t) as u64;
        assert(va == w.vbase / PAGE_SIZE * PAGE_SIZE + (w.off + t));
        assert(w.off + t < PAGE_SIZE);
        assert(va / PAGE_SIZE == w.vbase / PAGE_SIZE);
        assert(va % PAGE_SIZE == w.off + t);
    }
}

/// Walk a foreign address space's table over `[ptr, ptr + len)`: locate
/// each touched page, translate it, and emit the largest run not crossing
/// the page boundary, in order. Succeeds exactly when every touched page
/// is mapped.
pub fn translated_byte_buffer(pt: &PageTable, ptr: u64, len: u64) -> (r: Result<
    Vec<ByteWindow>,
    MapError,
>)
    requires
        pt.wf(),
        ptr + len <= VA_LIMIT,
    ensures
        match r {
            Ok(ws) => {
                &&& windows_chained(ws@, ptr, (ptr + len) as u64)
                &&& forall|j: int| 0 <= j < ws@.len() ==> window_wf(#[trigger] ws@[j], *pt)
                &&& forall|j: int|
                    0 <= j < ws@.len() - 1 ==> (#[trigger] ws@[j]).off + ws@[j].len == PAGE_SIZE
                &&& forall|p: u64|
                    len > 0 && p * PAGE_SIZE < ptr + len && ptr < p * PAGE_SIZE + PAGE_SIZE
                        ==> (#[trigger] pt.spec_translate(p)) is Some
            },
            Err(MapError::NotMapped) => exists|p: u64|
                len > 0 && p * PAGE_SIZE < ptr + len && ptr < p * PAGE_SIZE + PAGE_SIZE
                    && (#[trigger] pt.spec_translate(p)) is None,
            _ => false,
        },
{
    let end = ptr + len;
    let mut start = ptr;
    let mut ws: Vec<ByteWindow> = Vec::new();
    while start < end
        invariant
            pt.wf(),
            ptr <= start <= end,
            end == ptr + len,
            end <= VA_LIMIT,
            windows_chained(ws@, ptr, start),
            forall|j: int| 0 <= j < ws@.len() ==> window_wf(#[trigger] ws@[j], *pt),
            forall|j: int|
                0 <= j < ws@.len() - 1 ==> (#[trigger] ws@[j]).off + ws@[j].len == PAGE_SIZE,
            ws@.len() > 0 && start < end ==> ws@[ws@.len() - 1].off + ws@[ws@.len() - 1].len
                == PAGE_SIZE,
            forall|p: u64|
                start > ptr && p * PAGE_SIZE < start && ptr < p * PAGE_SIZE + PAGE_SIZE ==> (
                #[trigger] pt.spec_translate(p)) is Some,
        decreases end - start,
    {
        let vpn = start / PAGE_SIZE;
        proof {
            assert(vpn * PAGE_SIZE <= start < vpn * PAGE_SIZE + PAGE_SIZE);
        }
        let pte = match pt.translate(VirtPageNum(vpn)) {
            Some(p) => p,
            None => {
                proof {
                    assert(vpn * PAGE_SIZE < ptr + len && ptr < vpn * PAGE_SIZE + PAGE_SIZE
                        && pt.spec_translate(vpn) is None);
                }
                return Err(MapError::NotMapped);
            },
        };
        let page_end = vpn * PAGE_SIZE + PAGE_SIZE;
        let w_end = if page_end < end {
            page_end
        } else {
            end
        };
        let w = ByteWindow {
            vbase: start,
            ppn: pte.ppn().0,
            off: start % PAGE_SIZE,
            len: w_end - start,
        };
        let ghost old_ws = ws@;
        ws.push(w);
        proof {
            assert(window_wf(w, *pt)) by {
                assert(start / PAGE_SIZE == vpn);
            }
            assert(windows_chained(ws@, ptr, w_end)) by {
                if old_ws.len() > 0 {
                    assert(old_ws[old_ws.len() - 1].vbase + old_ws[old_ws.len() - 1].len == start);
                }
            }
            assert forall|p: u64|
                w_end > ptr && p * PAGE_SIZE < w_end && ptr < p * PAGE_SIZE + PAGE_SIZE implies (
                #[trigger] pt.spec_translate(p)) is Some by {
                if p * PAGE_SIZE < start && start > ptr {
                } else {
                    assert(p == vpn);
                }
            }
        }
        start = w_end;
    }
    Ok(ws)
}

/// Copy `data` into the space behind `pt`, byte by byte in window order,
/// through the translation of each touched page. Succeeds exactly when
/// every touched page is mapped; on refusal nothing is written. The
/// caller asserts that no two touched pages share a frame: a space
/// assembled by this library's mapping operations backs each page with
/// its own fresh frame.
pub fn write_translated_buffer(pt: &PageTable, mem: &mut PhysMemory, ptr: u64, data: &Vec<u8>)
    -> (r: Result<(), MapError>)
    requires
        pt.wf(),
        old(mem).wf(),
        ptr + data@.len() <= VA_LIMIT,
        pt_fits(*pt, *old(mem)),
        range_no_alias(*pt, ptr, data@.len() as u64),
    ensures
        final (mem).wf(),
        final (mem).spec_num_pages() == old(mem).spec_num_pages(),
        match r {
            Ok(()) => {
                &&& forall|i: int|
                    0 <= i < data@.len() ==> byte_at(
                        *pt,
                        *final (mem),
                        (ptr + i) as u64,
                        #[trigger] data@[i],
                    )
                &&& forall|p: u64, o: u64|
                    p < old(mem).spec_num_pages() && o < PAGE_SIZE && !(exists|i: int|
                        0 <= i < data@.len() && #[trigger] spec_paddr(*pt, (ptr + i) as u64) == Some((p, o)))
                        ==> #[trigger] final (mem).spec_byte(p, o) == old(mem).spec_byte(p, o)
            },
            Err(MapError::NotMapped) => {
                &&& (exists|i: int|
                    0 <= i < data@.len() && #[trigger] spec_paddr(*pt, (ptr + i) as u64) is None)
                &&& *final (mem) == *old(mem)
            },
            _ => false,
        },
{
    let n = data.len();
    // First pass: refuse the whole transfer if any touched page is unmapped.
    let mut i: usize = 0;
    while i < n
        invariant
            pt.wf(),
            i <= n,
            n == data@.len(),
            ptr + n <= VA_LIMIT,
            *mem == *old(mem),
            old(mem).wf(),
            forall|k: int| 0 <= k < i ==> (#[trigger] spec_paddr(*pt, (ptr + k) as u64)) is Some,
        decreases n - i,
    {
        let va = ptr + i as u64;
        if pt.translate(VirtPageNum(va / PAGE_SIZE)).is_none() {
            proof {
                assert(spec_paddr(*pt, (ptr + i as int) as u64) is None);
            }
            return Err(MapError::NotMapped);
        }
        i = i + 1;
    }
    // Second pass: copy.
    let mut i: usize = 0;
    while i < n
        invariant
            pt.wf(),
            mem.wf(),
            mem.spec_num_pages() == old(mem).spec_num_pages(),
            i <= n,
            n == data@.len(),
            ptr + n <= VA_LIMIT,
            pt_fits(*pt, *mem),
            range_no_alias(*pt, ptr, n as u64),
            forall|k: int| 0 <= k < n ==> (#[trigger] spec_paddr(*pt, (ptr + k) as u64)) is Some,
            forall|k: int|
                0 <= k < i ==> byte_at(*pt, *mem, (ptr + k) as u64, #[trigger] data@[k]),
            forall|p: u64, o: u64|
                p < old(mem).spec_num_pages() && o < PAGE_SIZE && !(exists|k: int|
                    0 <= k < i && #[trigger] spec_paddr(*pt, (ptr + k) as u64) == Some((p, o)))
                    ==> #[trigger] mem.spec_byte(p, o) == old(mem).spec_byte(p, o),
        decreases n - i,
    {
        let va = ptr + i as u64;
        let vpn = va / PAGE_SIZE;
        let pte = match pt.translate(VirtPageNum(vpn)) {
            Some(p) => p,
            None => {
                proof {
                    assert(spec_paddr(*pt, (ptr + i as int) as u64) is Some);
                    assert(false);
                }
                return Err(MapError::NotMapped);
            },
        };
        proof {
            assert(pt.spec_translate(vpn) is Some);
            assert(pte.spec_ppn() < mem.spec_num_pages());
        }
        let ghost prev = *mem;
        mem.write_byte(pte.ppn().0, va % PAGE_SIZE, data[i]);
        proof {
            assert(spec_paddr(*pt, va) == Some((pte.spec_ppn(), (va % PAGE_SIZE) as u64)));
            assert(byte_at(*pt, *mem, va, data@[i as int]));
            // Earlier bytes keep their value: their physical places differ.
            assert forall|k: int|
                0 <= k < i + 1 implies byte_at(*pt, *mem, (ptr + k) as u64, #[trigger] data@[k]) by {
                if k < i {
                    let w = (ptr + k) as u64;
                    assert(spec_paddr(*pt, w) is Some);
                    let pa = spec_paddr(*pt, w).unwrap();
                    if pa == (pte.spec_ppn(), (va % PAGE_SIZE) as u64) {
                        // Same physical byte: the pages must alias, refused by
                        // `range_no_alias`, or it is the same virtual byte.
                        let kv = (w / PAGE_SIZE) as u64;
                        assert(w % PAGE_SIZE == va % PAGE_SIZE);
                        if kv != vpn {
                            assert(kv * PAGE_SIZE <= w < kv * PAGE_SIZE + PAGE_SIZE);
                            assert(vpn * PAGE_SIZE <= va < vpn * PAGE_SIZE + PAGE_SIZE);
                            assert(false);
                        } else {
                            assert(w == va);
                            assert(false);
                        }
                    } else {
                        assert(mem.spec_byte(pa.0, pa.1) == prev.spec_byte(pa.0, pa.1));
                    }
                }
            }
            assert forall|p: u64, o: u64|
                p < old(mem).spec_num_pages() && o < PAGE_SIZE && !(exists|k: int|
                    0 <= k < i + 1 && #[trigger] spec_paddr(*pt, (ptr + k) as u64) == Some((p, o)))
                    implies #[trigger] mem.spec_byte(p, o) == old(mem).spec_byte(p, o) by {
                assert(spec_paddr(*pt, (ptr + i as int) as u64) == Some(
                    (pte.spec_ppn(), (va % PAGE_SIZE) as u64),
                ));
                assert(!(p == pte.spec_ppn() && o == (va % PAGE_SIZE) as u64));
                assert(mem.spec_byte(p, o) == prev.spec_byte(p, o));
            }
        }
        i = i + 1;
    }
    Ok(())
}

/// Read `len` bytes starting at `ptr` out of the space behind `pt`,
/// concatenated in order into one contiguous buffer. Succeeds exactly
/// when every touched page is mapped.
pub fn read_translated_bytes(pt: &PageTable, mem: &PhysMemory, ptr: u64, len: u64) -> (r: Result<
    Vec<u8>,
    MapError,
>)
    requires
        pt.wf(),
        mem.wf(),
        ptr + len <= VA_LIMIT,
        pt_fits(*pt, *mem),
    ensures
        match r {
            Ok(bytes) => {
                &&& bytes@.len() == len
                &&& forall|i: int|
                    0 <= i < len ==> byte_at(*pt, *mem, (ptr + i) as u64, #[trigger] bytes@[i])
            },
            Err(MapError::NotMapped) => exists|i: int|
                0 <= i < len && #[trigger] spec_paddr(*pt, (ptr + i) as u64) is None,
            _ => false,
        },
{
    let mut bytes: Vec<u8> = Vec::new();
    let mut i: u64 = 0;
    while i < len
        invariant
            pt.wf(),
            mem.wf(),
            i <= len,
            ptr + len <= VA_LIMIT,
            pt_fits(*pt, *mem),
            bytes@.len() == i,
            forall|k: int| 0 <= k < i ==> byte_at(*pt, *mem, (ptr + k) as u64, #[trigger] bytes@[k]),
        decreases len - i,
    {
        let va = ptr + i;
        let vpn = va / PAGE_SIZE;
        let pte = match pt.translate(VirtPageNum(vpn)) {
            Some(p) => p,
            None => {
                proof {
                    assert(spec_paddr(*pt, (ptr + i as int) as u64) is None);
                }
                return Err(MapError::NotMapped);
            },
        };
        proof {
            assert(pt.spec_translate(vpn) is Some);
            assert(pte.spec_ppn() < mem.spec_num_pages());
        }
        let b = mem.read_byte(pte.ppn().0, va % PAGE_SIZE);
        bytes.push(b);
        i = i + 1;
    }
    Ok(bytes)
}


} // verus!
