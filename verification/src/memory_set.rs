//! An address space: one page table plus the page-aligned regions mapped
//! into it, with region-level operations (`mmap`/`munmap`, heap growth).

use vstd::pervasive::VecAdditionalExecFns;
use vstd::prelude::*;

use crate::addr::{PhysPageNum, VirtAddr, VirtPageNum};
use crate::config::{PAGE_SIZE, PPN_MASK, VA_LIMIT, VPN_LIMIT};
use crate::frame_allocator::{FrameAllocator, FrameTracker};
use crate::page_table::{MapError, PageTable, PageTableEntry, PTE_U, PTE_V};

verus! {

/// Region permission: readable.
pub const PERM_R: u8 = 0x02;

/// Region permission: writable.
pub const PERM_W: u8 = 0x04;

/// Region permission: executable.
pub const PERM_X: u8 = 0x08;

/// Region permission: user-accessible.
pub const PERM_U: u8 = 0x10;

/// A half-open, page-aligned virtual region with one permission set,
/// backed by one freshly allocated frame per page.
#[derive(Clone, Copy, PartialEq, Eq, Structural, Debug)]
pub struct MapArea {
    /// First page of the region.
    pub start_vpn: u64,
    /// One past the last page of the region.
    pub end_vpn: u64,
    /// Permission bits of every page in the region.
    pub perm: u8,
}

/// Whether page `v` lies in region `a`.
pub open spec fn area_contains(a: MapArea, v: u64) -> bool {
    a.start_vpn <= v < a.end_vpn
}

/// Whether region `a` overlaps the page range `[s, e)` at all.
pub open spec fn area_overlaps(a: MapArea, s: u64, e: u64) -> bool {
    a.start_vpn < a.end_vpn && a.start_vpn < e && s < a.end_vpn
}

/// One task's address space: a page table and the regions mapped in it.
pub struct MemorySet {
    /// The translation tree of this space.
    pub page_table: PageTable,
    /// The regions; pairwise non-overlapping, and together with the heap
    /// they account for every page the table maps.
    pub areas: Vec<MapArea>,
    /// The heap region, grown and shrunk by the program break; empty
    /// until the first growth.
    pub heap: MapArea,
}

impl MemorySet {
    /// Whether some recorded region contains page `v`.
    pub open spec fn covered(self, v: u64) -> bool {
        (exists|i: int| 0 <= i < self.areas@.len() && area_contains(#[trigger] self.areas@[i], v))
            || area_contains(self.heap, v)
    }

    /// The space is consistent: regions are in range and pairwise
    /// disjoint, every region page is mapped, and every mapped page
    /// belongs to a region (no orphan mappings).
    pub open spec fn wf(self) -> bool {
        &&& self.page_table.wf()
        &&& forall|i: int|
            0 <= i < self.areas@.len() ==> (#[trigger] self.areas@[i]).start_vpn
                <= self.areas@[i].end_vpn <= VPN_LIMIT
        &&& forall|i: int, j: int|
            0 <= i < j < self.areas@.len() ==> ((#[trigger] self.areas@[i]).start_vpn
                >= self.areas@[i].end_vpn || (#[trigger] self.areas@[j]).start_vpn
                >= self.areas@[j].end_vpn || self.areas@[i].end_vpn <= self.areas@[j].start_vpn
                || self.areas@[j].end_vpn <= self.areas@[i].start_vpn)
        &&& forall|i: int, v: u64|
            0 <= i < self.areas@.len() && #[trigger] area_contains(self.areas@[i], v)
                ==> self.page_table.is_mapped(v)
        &&& self.heap.start_vpn <= self.heap.end_vpn <= VPN_LIMIT
        &&& forall|i: int|
            0 <= i < self.areas@.len() ==> ((#[trigger] self.areas@[i]).start_vpn
                >= self.areas@[i].end_vpn || self.heap.start_vpn >= self.heap.end_vpn
                || self.areas@[i].end_vpn <= self.heap.start_vpn || self.heap.end_vpn
                <= self.areas@[i].start_vpn)
        &&& forall|v: u64| #[trigger] area_contains(self.heap, v) ==> self.page_table.is_mapped(v)
        &&& forall|v: u64|
            v < VPN_LIMIT && (#[trigger] self.page_table.spec_translate(v)) is Some
                ==> self.covered(v)
    }

    /// A fresh empty address space; fails only when no frame is left for
    /// the root table node.
    pub fn new_bare(alloc: &mut FrameAllocator) -> (r: Option<MemorySet>)
        requires
            old(alloc).wf(),
        ensures
            final (alloc).wf(),
            final (alloc).base == old(alloc).base,
            final (alloc).end == old(alloc).end,
            r is Some <==> old(alloc).spec_free_count() > 0,
            final (alloc).spec_free_count() >= old(alloc).spec_free_count() - 1,
            r matches Some(ms) ==> {
                &&& ms.wf()
                &&& ms.areas@.len() == 0
                &&& ms.heap.start_vpn == ms.heap.end_vpn
                &&& ms.heap.perm == (PERM_R | PERM_W | PERM_U)
                &&& forall|v: u64| #[trigger] ms.page_table.spec_translate(v) is None
            },
    {
        match PageTable::new(alloc) {
            Some(pt) => Some(
                MemorySet {
                    page_table: pt,
                    areas: Vec::new(),
                    heap: MapArea { start_vpn: 0, end_vpn: 0, perm: PERM_R | PERM_W | PERM_U },
                },
            ),
            None => None,
        }
    }

    /// Fix the heap bottom: the heap region starts (empty) at `start_vpn`
    /// and grows from there.
    pub fn init_heap(&mut self, start_vpn: u64)
        requires
            old(self).wf(),
            old(self).heap.start_vpn == old(self).heap.end_vpn,
            start_vpn <= VPN_LIMIT,
        ensures
            final (self).wf(),
            final (self).page_table == old(self).page_table,
            final (self).areas@ == old(self).areas@,
            final (self).heap.start_vpn == start_vpn,
            final (self).heap.end_vpn == start_vpn,
            final (self).heap.perm == old(self).heap.perm,
    {
        self.heap.start_vpn = start_vpn;
        self.heap.end_vpn = start_vpn;
        proof {
            assert forall|v: u64|
                v < VPN_LIMIT && (#[trigger] self.page_table.spec_translate(v)) is Some
                implies self.covered(v) by {
                assert(self.page_table == old(self).page_table);
                assert(old(self).page_table.spec_translate(v) is Some);
                assert(old(self).covered(v));
                let i = choose|i: int|
                    0 <= i < old(self).areas@.len() && area_contains(
                        #[trigger] old(self).areas@[i],
                        v,
                    );
                assert(area_contains(self.areas@[i], v));
            }
        }
    }

    /// The hardware-register encoding of this space's root table.
    pub fn token(&self) -> (r: u64)
        requires
            self.page_table.wf(),
        ensures
            r == (8u64 << 60) | self.page_table.root_ppn,
    {
        self.page_table.token()
    }

    /// Translate one page through this space's table.
    pub fn translate(&self, vpn: VirtPageNum) -> (r: Option<PageTableEntry>)
        requires
            self.page_table.wf(),
        ensures
            r == self.page_table.spec_translate(vpn.0),
    {
        self.page_table.translate(vpn)
    }

    /// Whether any recorded region overlaps the page range `[start, end)`;
    /// required before accepting a new mapping.
    pub fn is_conflict(&self, start: VirtPageNum, end: VirtPageNum) -> (r: bool)
        ensures
            r == ((exists|i: int|
                0 <= i < self.areas@.len() && area_overlaps(#[trigger] self.areas@[i], start.0, end.0))
                || area_overlaps(self.heap, start.0, end.0)),
    {
        let h = self.heap;
        if h.start_vpn < h.end_vpn && h.start_vpn < end.0 && start.0 < h.end_vpn {
            return true;
        }
        let mut i: usize = 0;
        while i < self.areas.len()
            invariant
                i <= self.areas@.len(),
                forall|k: int|
                    0 <= k < i ==> !area_overlaps(#[trigger] self.areas@[k], start.0, end.0),
            decreases self.areas@.len() - i,
        {
            let a = self.areas[i];
            if a.start_vpn < a.end_vpn && a.start_vpn < end.0 && start.0 < a.end_vpn {
                proof {
                    assert(area_overlaps(self.areas@[i as int], start.0, end.0));
                }
                return true;
            }
            i = i + 1;
        }
        false
    }

    /// Whether the entire page range `[start, end)` is currently mapped:
    /// zero when it is, negative when some page in it is not.
    pub fn is_vmm_mapped(&self, start: VirtPageNum, end: VirtPageNum) -> (r: isize)
        requires
            self.page_table.wf(),
            start.0 <= end.0,
        ensures
            r == 0 <==> (forall|v: u64|
                start.0 <= v < end.0 ==> (#[trigger] self.page_table.spec_translate(v)) is Some),
            r == 0 || r == -1,
    {
        let mut v = start.0;
        while v < end.0
            invariant
                self.page_table.wf(),
                start.0 <= v <= end.0,
                forall|w: u64|
                    start.0 <= w < v ==> (#[trigger] self.page_table.spec_translate(w)) is Some,
            decreases end.0 - v,
        {
            if self.page_table.translate(VirtPageNum(v)).is_none() {
                return -1;
            }
            v = v + 1;
        }
        0
    }

    /// Register and map a fresh frame-backed region over every page of
    /// `[start, end)`, immediately (no demand paging), with permissions
    /// `perm`. The frame pool must have room for each page and its table
    /// nodes.
    pub fn insert_framed_area(&mut self, alloc: &mut FrameAllocator, start: VirtAddr,
        end: VirtAddr, perm: u8)
        requires
            old(self).wf(),
            old(alloc).wf(),
            start.0 <= end.0,
            end.0 <= VA_LIMIT,
            !(exists|i: int|
                0 <= i < old(self).areas@.len() && area_overlaps(
                    #[trigger] old(self).areas@[i],
                    start.spec_floor(),
                    end.spec_ceil(),
                )),
            !area_overlaps(old(self).heap, start.spec_floor(), end.spec_ceil()),
            old(alloc).spec_free_count() >= 3 * (end.spec_ceil() - start.spec_floor()),
        ensures
            final (self).wf(),
            final (alloc).wf(),
            final (alloc).base == old(alloc).base,
            final (alloc).end == old(alloc).end,
            final (self).page_table.root_ppn == old(self).page_table.root_ppn,
            final (self).heap == old(self).heap,
            final (self).areas@ == old(self).areas@.push(
                (MapArea {
                    start_vpn: start.spec_floor(),
                    end_vpn: end.spec_ceil(),
                    perm: perm,
                }),
            ),
            forall|v: u64|
                start.spec_floor() <= v < end.spec_ceil() ==> pte_maps_fresh(
                    #[trigger] final (self).page_table.spec_translate(v),
                    perm,
                    final (alloc).end,
                ),
            forall|v: u64|
                v < VPN_LIMIT && !(start.spec_floor() <= v < end.spec_ceil())
                    ==> #[trigger] final (self).page_table.spec_translate(v) == old(
                    self,
                ).page_table.spec_translate(v),
    {
        let s = start.floor().0;
        let e = end.ceil().0;
        proof {
            assert(e <= VPN_LIMIT) by {
                assert(end.spec_ceil() * PAGE_SIZE <= end.0 + PAGE_SIZE - 1 < VA_LIMIT
                    + PAGE_SIZE);
            }
        }
        let mut v = s;
        while v < e
            invariant
                self.page_table.wf(),
                alloc.wf(),
                alloc.base == old(alloc).base,
                alloc.end == old(alloc).end,
                self.page_table.root_ppn == old(self).page_table.root_ppn,
                self.areas@ == old(self).areas@,
                self.heap == old(self).heap,
                old(self).wf(),
                !area_overlaps(old(self).heap, s, e),
                s == start.spec_floor(),
                e == end.spec_ceil(),
                s <= v <= e <= VPN_LIMIT,
                alloc.spec_free_count() >= 3 * (e - v),
                !(exists|i: int|
                    0 <= i < old(self).areas@.len() && area_overlaps(
                        #[trigger] old(self).areas@[i],
                        s,
                        e,
                    )),
                forall|w: u64|
                    s <= w < v ==> pte_maps_fresh(
                        #[trigger] self.page_table.spec_translate(w),
                        perm,
                        alloc.end,
                    ),
                forall|w: u64|
                    w < VPN_LIMIT && !(s <= w < v) ==> #[trigger] self.page_table.spec_translate(w)
                        == old(self).page_table.spec_translate(w),
            decreases e - v,
        {
            proof {
                // The page about to be mapped is not mapped yet: it was not
                // mapped at entry (no region overlaps the range and the space
                // has no orphan mappings) and has not been touched since.
                if old(self).page_table.spec_translate(v) is Some {
                    assert(old(self).covered(v));
                    let i = choose|i: int|
                        0 <= i < old(self).areas@.len() && area_contains(
                            #[trigger] old(self).areas@[i],
                            v,
                        );
                    assert(area_overlaps(old(self).areas@[i], s, e));
                }
            }
            let f = match alloc.alloc_frame() {
                Some(f) => f,
                None => {
                    proof {
                        assert(false);
                    }
                    FrameTracker { ppn: PhysPageNum(0) }
                },
            };
            let res = self.page_table.map(alloc, VirtPageNum(v), f.ppn, perm);
            proof {
                assert(res is Ok);
                crate::page_table::lemma_new_bits_fields(f.ppn.0, perm | PTE_V);
                assert((perm | PTE_V) & 1 != 0) by (bit_vector);
            }
            v = v + 1;
        }
        self.areas.push(MapArea { start_vpn: s, end_vpn: e, perm });
        proof {
            let fs = *self;
            let os = *old(self);
            let newa = (MapArea { start_vpn: s, end_vpn: e, perm: perm });
            assert(fs.areas@ == os.areas@.push(newa));
            // Regions stay pairwise disjoint: the new one overlaps none.
            assert forall|i: int, j: int|
                0 <= i < j < fs.areas@.len() implies ((#[trigger] fs.areas@[i]).start_vpn
                >= fs.areas@[i].end_vpn || (#[trigger] fs.areas@[j]).start_vpn
                >= fs.areas@[j].end_vpn || fs.areas@[i].end_vpn <= fs.areas@[j].start_vpn
                || fs.areas@[j].end_vpn <= fs.areas@[i].start_vpn) by {
                if j == fs.areas@.len() - 1 {
                    assert(fs.areas@[i] == os.areas@[i]);
                    assert(!area_overlaps(os.areas@[i], s, e));
                } else {
                    assert(fs.areas@[i] == os.areas@[i]);
                    assert(fs.areas@[j] == os.areas@[j]);
                }
            }
            // Every region page is mapped.
            assert forall|i: int, v2: u64|
                0 <= i < fs.areas@.len() && #[trigger] area_contains(fs.areas@[i], v2)
                implies fs.page_table.is_mapped(v2) by {
                if i == fs.areas@.len() - 1 {
                    assert(pte_maps_fresh(fs.page_table.spec_translate(v2), perm, alloc.end));
                } else {
                    assert(fs.areas@[i] == os.areas@[i]);
                    if s <= v2 < e {
                        assert(pte_maps_fresh(fs.page_table.spec_translate(v2), perm, alloc.end));
                    } else {
                        assert(os.page_table.is_mapped(v2));
                    }
                }
            }
            // Heap pages stay mapped.
            assert forall|v2: u64| #[trigger]
                area_contains(fs.heap, v2) implies fs.page_table.is_mapped(v2) by {
                if s <= v2 < e {
                    assert(pte_maps_fresh(fs.page_table.spec_translate(v2), perm, alloc.end));
                } else {
                    assert(os.page_table.is_mapped(v2));
                }
            }
            // No orphan mappings.
            assert forall|v2: u64|
                v2 < VPN_LIMIT && (#[trigger] fs.page_table.spec_translate(v2)) is Some
                implies fs.covered(v2) by {
                if s <= v2 < e {
                    assert(area_contains(fs.areas@[fs.areas@.len() - 1], v2));
                } else {
                    assert(os.covered(v2));
                    if !area_contains(os.heap, v2) {
                        let i = choose|i: int|
                            0 <= i < os.areas@.len() && area_contains(#[trigger] os.areas@[i], v2);
                        assert(area_contains(fs.areas@[i], v2));
                    }
                }
            }
        }
    }
}

/// The translation of a freshly mapped page: present, carrying exactly
/// the region permissions plus Valid, its frame inside the pool bound.
pub open spec fn pte_maps_fresh(t: Option<PageTableEntry>, perm: u8, pool_end: u64) -> bool {
    match t {
        Some(pte) => pte.spec_flags() == (perm | PTE_V) && pte.spec_ppn() < pool_end && pte.spec_ppn()
            <= PPN_MASK,
        None => false,
    }
}


/// Every page of `[s, e)` is mapped to a frame the pool currently has
/// outstanding.
pub open spec fn range_frames_allocated(pt: PageTable, alloc: FrameAllocator, s: u64,
    e: u64) -> bool {
    forall|v: u64|
        s <= v < e ==> match #[trigger] pt.spec_translate(v) {
            Some(pte) => alloc.is_allocated(pte.spec_ppn()),
            None => false,
        }
}

/// No two pages of `[s, e)` are backed by the same frame.
pub open spec fn range_frames_distinct(pt: PageTable, s: u64, e: u64) -> bool {
    forall|a: u64, b: u64|
        s <= a < b < e ==> match (#[trigger] pt.spec_translate(a), #[trigger] pt.spec_translate(
            b,
        )) {
            (Some(pa), Some(pb)) => pa.spec_ppn() != pb.spec_ppn(),
            _ => true,
        }
}

/// What is left of region `a` below the freed range starting at `s`.
pub open spec fn left_piece(a: MapArea, s: u64) -> MapArea {
    let lend = if a.end_vpn < s {
        a.end_vpn
    } else {
        s
    };
    let lstart = if a.start_vpn < lend {
        a.start_vpn
    } else {
        lend
    };
    MapArea { start_vpn: lstart, end_vpn: lend, perm: a.perm }
}

/// What is left of region `a` above the freed range ending at `e`.
pub open spec fn right_piece(a: MapArea, e: u64) -> MapArea {
    let rstart = if a.start_vpn > e {
        a.start_vpn
    } else {
        e
    };
    let rend = if a.end_vpn > rstart {
        a.end_vpn
    } else {
        rstart
    };
    MapArea { start_vpn: rstart, end_vpn: rend, perm: a.perm }
}

impl MemorySet {
    /// Unmap every page of `[start, end)`, return their frames to the
    /// pool, and trim the region bookkeeping: each region keeps its parts
    /// outside the range; a heap cut keeps the part below the range as
    /// the heap and keeps the part above it as an ordinary region.
    pub fn free(&mut self, alloc: &mut FrameAllocator, start: VirtPageNum, end: VirtPageNum)
        requires
            old(self).wf(),
            old(alloc).wf(),
            start.0 <= end.0 <= VPN_LIMIT,
            forall|v: u64|
                start.0 <= v < end.0 ==> (#[trigger] old(self).page_table.spec_translate(v))
                    is Some,
        ensures
            final (self).wf(),
            final (alloc).wf(),
            final (alloc).base == old(alloc).base,
            final (alloc).end == old(alloc).end,
            final (alloc).spec_free_count() >= old(alloc).spec_free_count(),
            range_frames_allocated(old(self).page_table, *old(alloc), start.0, end.0)
                && range_frames_distinct(old(self).page_table, start.0, end.0) ==> final (
            alloc).spec_free_count() == old(alloc).spec_free_count() + (end.0 - start.0),
            final (self).page_table.root_ppn == old(self).page_table.root_ppn,
            final (self).heap == left_piece(old(self).heap, start.0),
            forall|v: u64|
                start.0 <= v < end.0 ==> (#[trigger] final (self).page_table.spec_translate(v))
                    is None,
            forall|v: u64|
                v < VPN_LIMIT && !(start.0 <= v < end.0)
                    ==> #[trigger] final (self).page_table.spec_translate(v) == old(
                    self,
                ).page_table.spec_translate(v),
    {
        let s = start.0;
        let e = end.0;
        let mut v = s;
        while v < e
            invariant
                self.page_table.wf(),
                alloc.wf(),
                alloc.base == old(alloc).base,
                alloc.end == old(alloc).end,
                self.page_table.root_ppn == old(self).page_table.root_ppn,
                self.areas@ == old(self).areas@,
                self.heap == old(self).heap,
                old(self).wf(),
                s == start.0,
                e == end.0,
                s <= v <= e <= VPN_LIMIT,
                forall|w: u64|
                    s <= w < e ==> (#[trigger] old(self).page_table.spec_translate(w)) is Some,
                forall|w: u64|
                    s <= w < v ==> (#[trigger] self.page_table.spec_translate(w)) is None,
                forall|w: u64|
                    w < VPN_LIMIT && !(s <= w < v) ==> #[trigger] self.page_table.spec_translate(w)
                        == old(self).page_table.spec_translate(w),
                alloc.spec_free_count() >= old(alloc).spec_free_count(),
                range_frames_allocated(old(self).page_table, *old(alloc), s, e)
                    && range_frames_distinct(old(self).page_table, s, e) ==> {
                    &&& alloc.spec_free_count() == old(alloc).spec_free_count() + (v - s)
                    &&& forall|w: u64|
                        v <= w < e ==> alloc.is_allocated(
                            (#[trigger] old(self).page_table.spec_translate(
                                w,
                            )).unwrap().spec_ppn(),
                        )
                },
            decreases e - v,
        {
            let pte = match self.page_table.translate(VirtPageNum(v)) {
                Some(p) => p,
                None => {
                    proof {
                        assert(false);
                    }
                    PageTableEntry { bits: 0 }
                },
            };
            let res = self.page_table.unmap(VirtPageNum(v));
            proof {
                assert(res is Ok);
                assert(pte == old(self).page_table.spec_translate(v).unwrap());
            }
            let ghost pre_alloc = *alloc;
            let freed = alloc.dealloc_frame(pte.ppn().0);
            proof {
                if range_frames_allocated(old(self).page_table, *old(alloc), s, e)
                    && range_frames_distinct(old(self).page_table, s, e) {
                    // This page's frame was still outstanding, so returning
                    // it grew the pool by exactly one ...
                    assert(pre_alloc.is_allocated(pte.spec_ppn()));
                    assert(freed);
                    // ... and the frames of the pages still to be freed are
                    // untouched: they are all different from this one.
                    assert forall|w: u64|
                        v + 1 <= w < e implies alloc.is_allocated(
                        (#[trigger] old(self).page_table.spec_translate(w)).unwrap().spec_ppn(),
                    ) by {
                        assert(old(self).page_table.spec_translate(w).unwrap().spec_ppn()
                            != pte.spec_ppn());
                    }
                }
            }
            v = v + 1;
        }
        let ghost oldareas = self.areas@;
        let mut newareas: Vec<MapArea> = Vec::new();
        let mut i: usize = 0;
        while i < self.areas.len()
            invariant
                self.areas@ == oldareas,
                i <= oldareas.len(),
                newareas@.len() == 2 * i,
                forall|m: int|
                    0 <= m < newareas@.len() ==> (#[trigger] newareas@[m]) == (if m % 2 == 0 {
                        left_piece(oldareas[m / 2], s)
                    } else {
                        right_piece(oldareas[m / 2], e)
                    }),
            decreases oldareas.len() - i,
        {
            let a = self.areas[i];
            let lend = if a.end_vpn < s {
                a.end_vpn
            } else {
                s
            };
            let lstart = if a.start_vpn < lend {
                a.start_vpn
            } else {
                lend
            };
            newareas.push(MapArea { start_vpn: lstart, end_vpn: lend, perm: a.perm });
            let rstart = if a.start_vpn > e {
                a.start_vpn
            } else {
                e
            };
            let rend = if a.end_vpn > rstart {
                a.end_vpn
            } else {
                rstart
            };
            newareas.push(MapArea { start_vpn: rstart, end_vpn: rend, perm: a.perm });
            i = i + 1;
        }
        self.areas = newareas;
        let h = self.heap;
        let rstart = if h.start_vpn > e {
            h.start_vpn
        } else {
            e
        };
        let rend = if h.end_vpn > rstart {
            h.end_vpn
        } else {
            rstart
        };
        self.areas.push(MapArea { start_vpn: rstart, end_vpn: rend, perm: h.perm });
        let lend = if h.end_vpn < s {
            h.end_vpn
        } else {
            s
        };
        let lstart = if h.start_vpn < lend {
            h.start_vpn
        } else {
            lend
        };
        self.heap = MapArea { start_vpn: lstart, end_vpn: lend, perm: h.perm };
        proof {
            let fs = *self;
            let os = *old(self);
            let n = oldareas.len() as int;
            assert(fs.areas@.len() == 2 * n + 1);
            assert(fs.areas@[2 * n] == right_piece(os.heap, e));
            assert(fs.heap == left_piece(os.heap, s));
            assert forall|m: int|
                0 <= m < 2 * n implies (#[trigger] fs.areas@[m]) == (if m % 2 == 0 {
                left_piece(oldareas[m / 2], s)
            } else {
                right_piece(oldareas[m / 2], e)
            }) by {}
            // Pieces sit inside their regions and outside the freed range.
            assert forall|i2: int, j2: int|
                0 <= i2 < j2 < fs.areas@.len() implies ((#[trigger] fs.areas@[i2]).start_vpn
                >= fs.areas@[i2].end_vpn || (#[trigger] fs.areas@[j2]).start_vpn
                >= fs.areas@[j2].end_vpn || fs.areas@[i2].end_vpn <= fs.areas@[j2].start_vpn
                || fs.areas@[j2].end_vpn <= fs.areas@[i2].start_vpn) by {
                let ai = fs.areas@[i2];
                let aj = fs.areas@[j2];
                if ai.start_vpn < ai.end_vpn && aj.start_vpn < aj.end_vpn {
                    if j2 == 2 * n {
                        if i2 / 2 < n {
                            assert(oldareas[i2 / 2].start_vpn < oldareas[i2 / 2].end_vpn);
                        }
                    } else if i2 / 2 == j2 / 2 {
                        assert(ai.end_vpn <= s && aj.start_vpn >= e);
                    } else {
                        assert(oldareas[i2 / 2].start_vpn < oldareas[i2 / 2].end_vpn);
                        assert(oldareas[j2 / 2].start_vpn < oldareas[j2 / 2].end_vpn);
                    }
                }
            }
            // Every region page is still mapped.
            assert forall|i2: int, v2: u64|
                0 <= i2 < fs.areas@.len() && #[trigger] area_contains(fs.areas@[i2], v2)
                implies fs.page_table.is_mapped(v2) by {
                if i2 == 2 * n {
                    assert(area_contains(os.heap, v2));
                } else {
                    assert(area_contains(oldareas[i2 / 2], v2));
                }
                assert(!(s <= v2 < e));
                assert(os.page_table.is_mapped(v2));
            }
            assert forall|v2: u64| #[trigger]
                area_contains(fs.heap, v2) implies fs.page_table.is_mapped(v2) by {
                assert(area_contains(os.heap, v2));
                assert(!(s <= v2 < e));
            }
            // No orphan mappings.
            assert forall|v2: u64|
                v2 < VPN_LIMIT && (#[trigger] fs.page_table.spec_translate(v2)) is Some
                implies fs.covered(v2) by {
                assert(!(s <= v2 < e));
                assert(os.page_table.spec_translate(v2) is Some);
                assert(os.covered(v2));
                if area_contains(os.heap, v2) {
                    if v2 < s {
                        assert(area_contains(fs.heap, v2));
                    } else {
                        assert(area_contains(fs.areas@[2 * n], v2));
                    }
                } else {
                    let i2 = choose|i2: int|
                        0 <= i2 < os.areas@.len() && area_contains(#[trigger] os.areas@[i2], v2);
                    if v2 < s {
                        assert(fs.areas@[2 * i2] == left_piece(oldareas[i2], s));
                        assert(area_contains(fs.areas@[2 * i2], v2));
                    } else {
                        assert(fs.areas@[2 * i2 + 1] == right_piece(oldareas[i2], e));
                        assert(area_contains(fs.areas@[2 * i2 + 1], v2));
                    }
                }
            }
        }
    }

    /// Grow the heap region up to the page covering `new_end`: map each
    /// new page with the heap permissions. Refused (false, nothing
    /// changes) when the target lies below the current heap end, a page
    /// in the growth range is already mapped, or the frame pool is too
    /// small; otherwise it succeeds.
    pub fn append_to(&mut self, alloc: &mut FrameAllocator, new_end: VirtAddr) -> (r: bool)
        requires
            old(self).wf(),
            old(alloc).wf(),
            new_end.0 + PAGE_SIZE - 1 <= VA_LIMIT,
        ensures
            final (self).wf(),
            final (alloc).wf(),
            final (alloc).base == old(alloc).base,
            final (alloc).end == old(alloc).end,
            final (self).page_table.root_ppn == old(self).page_table.root_ppn,
            final (self).areas@ == old(self).areas@,
            final (self).heap.start_vpn == old(self).heap.start_vpn,
            final (self).heap.perm == old(self).heap.perm,
            r == ({
                &&& new_end.spec_ceil() >= old(self).heap.end_vpn
                &&& forall|v: u64|
                    old(self).heap.end_vpn <= v < new_end.spec_ceil() ==> (
                    #[trigger] old(self).page_table.spec_translate(v)) is None
                &&& old(alloc).spec_free_count() >= 3 * (new_end.spec_ceil() - old(
                    self,
                ).heap.end_vpn)
            }),
            r ==> {
                &&& final (self).heap.end_vpn == new_end.spec_ceil()
                &&& forall|v: u64|
                    old(self).heap.end_vpn <= v < new_end.spec_ceil() ==> pte_maps_fresh(
                        #[trigger] final (self).page_table.spec_translate(v),
                        old(self).heap.perm,
                        old(alloc).end,
                    )
                &&& forall|v: u64|
                    v < VPN_LIMIT && !(old(self).heap.end_vpn <= v < new_end.spec_ceil())
                        ==> #[trigger] final (self).page_table.spec_translate(v) == old(
                        self,
                    ).page_table.spec_translate(v)
            },
            !r ==> {
                &&& final (self).heap == old(self).heap
                &&& forall|v: u64| #[trigger]
                    final (self).page_table.spec_translate(v) == old(
                        self,
                    ).page_table.spec_translate(v)
                &&& final (alloc).spec_free_count() == old(alloc).spec_free_count()
            },
    {
        let hend = self.heap.end_vpn;
        let nec = new_end.ceil().0;
        proof {
            assert(nec <= VPN_LIMIT) by {
                assert(new_end.spec_ceil() * PAGE_SIZE <= new_end.0 + PAGE_SIZE - 1 <= VA_LIMIT);
            }
        }
        if nec < hend {
            return false;
        }
        // Refuse when a page of the growth range is already mapped.
        let mut v = hend;
        while v < nec
            invariant
                self == old(self),
                alloc == old(alloc),
                old(self).wf(),
                old(alloc).wf(),
                hend == old(self).heap.end_vpn,
                nec == new_end.spec_ceil(),
                hend <= v <= nec <= VPN_LIMIT,
                forall|w: u64|
                    hend <= w < v ==> (#[trigger] self.page_table.spec_translate(w)) is None,
            decreases nec - v,
        {
            if self.page_table.translate(VirtPageNum(v)).is_some() {
                proof {
                    assert(old(self).page_table.spec_translate(v) is Some);
                }
                return false;
            }
            v = v + 1;
        }
        // Refuse when the pool cannot hold every page and its table nodes.
        let needed = 3 * (nec - hend);
        if !alloc.has_free(needed) {
            return false;
        }
        let mut v = hend;
        while v < nec
            invariant
                self.page_table.wf(),
                alloc.wf(),
                alloc.base == old(alloc).base,
                alloc.end == old(alloc).end,
                self.page_table.root_ppn == old(self).page_table.root_ppn,
                self.areas@ == old(self).areas@,
                self.heap == old(self).heap,
                old(self).wf(),
                hend == old(self).heap.end_vpn,
                hend <= v <= nec <= VPN_LIMIT,
                alloc.spec_free_count() >= 3 * (nec - v),
                forall|w: u64|
                    hend <= w < nec ==> (#[trigger] old(self).page_table.spec_translate(w))
                        is None,
                forall|w: u64|
                    hend <= w < v ==> pte_maps_fresh(
                        #[trigger] self.page_table.spec_translate(w),
                        old(self).heap.perm,
                        alloc.end,
                    ),
                forall|w: u64|
                    w < VPN_LIMIT && !(hend <= w < v) ==> #[trigger] self.page_table.spec_translate(
                        w,
                    ) == old(self).page_table.spec_translate(w),
            decreases nec - v,
        {
            let f = match alloc.alloc_frame() {
                Some(f) => f,
                None => {
                    proof {
                        assert(false);
                    }
                    FrameTracker { ppn: PhysPageNum(0) }
                },
            };
            let perm = self.heap.perm;
            let res = self.page_table.map(alloc, VirtPageNum(v), f.ppn, perm);
            proof {
                assert(res is Ok);
                crate::page_table::lemma_new_bits_fields(f.ppn.0, perm | PTE_V);
                assert((perm | PTE_V) & 1 != 0) by (bit_vector);
            }
            v = v + 1;
        }
        self.heap.end_vpn = nec;
        proof {
            let fs = *self;
            let os = *old(self);
            // Regions stay disjoint from the grown heap: a region page is
            // mapped, while the growth range was wholly unmapped.
            assert forall|i2: int|
                0 <= i2 < fs.areas@.len() implies ((#[trigger] fs.areas@[i2]).start_vpn
                >= fs.areas@[i2].end_vpn || fs.heap.start_vpn >= fs.heap.end_vpn
                || fs.areas@[i2].end_vpn <= fs.heap.start_vpn || fs.heap.end_vpn
                <= fs.areas@[i2].start_vpn) by {
                let a = fs.areas@[i2];
                if a.start_vpn < a.end_vpn && fs.heap.start_vpn < fs.heap.end_vpn {
                    if !(a.end_vpn <= fs.heap.start_vpn || fs.heap.end_vpn <= a.start_vpn) {
                        // They would share a page, necessarily in the growth
                        // range, both mapped and unmapped at entry.
                        let w = if a.start_vpn >= fs.heap.start_vpn {
                            a.start_vpn
                        } else {
                            fs.heap.start_vpn
                        };
                        assert(area_contains(a, w));
                        assert(os.page_table.is_mapped(w));
                        if hend <= w < nec {
                            assert(false);
                        } else {
                            assert(area_contains(os.heap, w));
                            assert(false);
                        }
                    }
                }
            }
            assert forall|v2: u64| #[trigger]
                area_contains(fs.heap, v2) implies fs.page_table.is_mapped(v2) by {
                if hend <= v2 < nec {
                    assert(pte_maps_fresh(fs.page_table.spec_translate(v2), os.heap.perm,
                        alloc.end));
                } else {
                    assert(area_contains(os.heap, v2));
                    assert(os.page_table.is_mapped(v2));
                }
            }
            assert forall|v2: u64|
                v2 < VPN_LIMIT && (#[trigger] fs.page_table.spec_translate(v2)) is Some
                implies fs.covered(v2) by {
                if hend <= v2 < nec {
                    assert(area_contains(fs.heap, v2));
                } else {
                    assert(os.page_table.spec_translate(v2) is Some);
                    assert(os.covered(v2));
                    if !area_contains(os.heap, v2) {
                        let i2 = choose|i2: int|
                            0 <= i2 < os.areas@.len() && area_contains(
                                #[trigger] os.areas@[i2],
                                v2,
                            );
                        assert(area_contains(fs.areas@[i2], v2));
                    }
                }
            }
        }
        true
    }

    /// Shrink the heap region down to the page covering `new_end`: unmap
    /// the pages above it and return their frames. Refused (false,
    /// nothing changes) when the target lies outside the current heap.
    pub fn shrink_to(&mut self, alloc: &mut FrameAllocator, new_end: VirtAddr) -> (r: bool)
        requires
            old(self).wf(),
            old(alloc).wf(),
            new_end.0 + PAGE_SIZE - 1 <= VA_LIMIT,
        ensures
            final (self).wf(),
            final (alloc).wf(),
            final (alloc).base == old(alloc).base,
            final (alloc).end == old(alloc).end,
            final (alloc).spec_free_count() >= old(alloc).spec_free_count(),
            final (self).page_table.root_ppn == old(self).page_table.root_ppn,
            final (self).areas@ == old(self).areas@,
            final (self).heap.start_vpn == old(self).heap.start_vpn,
            final (self).heap.perm == old(self).heap.perm,
            r == (old(self).heap.start_vpn <= new_end.spec_ceil() <= old(self).heap.end_vpn),
            r ==> {
                &&& final (self).heap.end_vpn == new_end.spec_ceil()
                &&& forall|v: u64|
                    new_end.spec_ceil() <= v < old(self).heap.end_vpn ==> (
                    #[trigger] final (self).page_table.spec_translate(v)) is None
                &&& forall|v: u64|
                    v < VPN_LIMIT && !(new_end.spec_ceil() <= v < old(self).heap.end_vpn)
                        ==> #[trigger] final (self).page_table.spec_translate(v) == old(
                        self,
                    ).page_table.spec_translate(v)
            },
            !r ==> {
                &&& final (self).heap == old(self).heap
                &&& forall|v: u64| #[trigger]
                    final (self).page_table.spec_translate(v) == old(
                        self,
                    ).page_table.spec_translate(v)
            },
    {
        let hend = self.heap.end_vpn;
        let nec = new_end.ceil().0;
        if nec < self.heap.start_vpn || nec > hend {
            return false;
        }
        let mut v = nec;
        while v < hend
            invariant
                self.page_table.wf(),
                alloc.wf(),
                alloc.base == old(alloc).base,
                alloc.end == old(alloc).end,
                self.page_table.root_ppn == old(self).page_table.root_ppn,
                self.areas@ == old(self).areas@,
                self.heap == old(self).heap,
                old(self).wf(),
                hend == old(self).heap.end_vpn,
                old(self).heap.start_vpn <= nec <= v <= hend <= VPN_LIMIT,
                nec == new_end.spec_ceil(),
                alloc.spec_free_count() >= old(alloc).spec_free_count(),
                forall|w: u64|
                    nec <= w < v ==> (#[trigger] self.page_table.spec_translate(w)) is None,
                forall|w: u64|
                    w < VPN_LIMIT && !(nec <= w < v) ==> #[trigger] self.page_table.spec_translate(
                        w,
                    ) == old(self).page_table.spec_translate(w),
            decreases hend - v,
        {
            proof {
                assert(area_contains(old(self).heap, v));
                assert(old(self).page_table.is_mapped(v));
            }
            let pte = match self.page_table.translate(VirtPageNum(v)) {
                Some(p) => p,
                None => {
                    proof {
                        assert(false);
                    }
                    PageTableEntry { bits: 0 }
                },
            };
            let res = self.page_table.unmap(VirtPageNum(v));
            proof {
                assert(res is Ok);
            }
            let _freed = alloc.dealloc_frame(pte.ppn().0);
            v = v + 1;
        }
        self.heap.end_vpn = nec;
        proof {
            let fs = *self;
            let os = *old(self);
            assert forall|v2: u64| #[trigger]
                area_contains(fs.heap, v2) implies fs.page_table.is_mapped(v2) by {
                assert(area_contains(os.heap, v2));
                assert(os.page_table.is_mapped(v2));
            }
            assert forall|v2: u64|
                v2 < VPN_LIMIT && (#[trigger] fs.page_table.spec_translate(v2)) is Some
                implies fs.covered(v2) by {
                assert(os.page_table.spec_translate(v2) is Some);
                assert(os.covered(v2));
                if area_contains(os.heap, v2) {
                    assert(!(nec <= v2 < hend));
                    assert(area_contains(fs.heap, v2));
                } else {
                    let i2 = choose|i2: int|
                        0 <= i2 < os.areas@.len() && area_contains(#[trigger] os.areas@[i2], v2);
                    assert(area_contains(fs.areas@[i2], v2));
                }
            }
        }
        true
    }
}


/// The first page number at or above byte address `addr_end`.
pub open spec fn spec_ceil_vpn(addr_end: int) -> int {
    (addr_end + PAGE_SIZE - 1) / (PAGE_SIZE as int)
}

impl MemorySet {
    /// The region permissions a `port` word asks for: its three low bits
    /// shifted into the R/W/X positions, plus user accessibility.
    pub open spec fn spec_port_perm(port: u64) -> u8 {
        (((port & 0x7) << 1) as u8) | PERM_U
    }

    /// An `mmap` request is acceptable: page-aligned start, no bits
    /// outside the three permission bits, at least one of them set, and
    /// (for a non-empty length) an in-range target that overlaps no
    /// existing region and fits the frame pool together with its table
    /// nodes.
    pub open spec fn mmap_ok(self, alloc: FrameAllocator, start: u64, len: u64, port: u64) -> bool {
        &&& start % PAGE_SIZE == 0
        &&& port & 0xffff_ffff_ffff_fff8 == 0
        &&& port & 0x7 != 0
        &&& (len == 0 || {
            let sv = start / PAGE_SIZE;
            let ev = spec_ceil_vpn(start + len);
            &&& start + len <= VA_LIMIT
            &&& !(exists|i: int|
                0 <= i < self.areas@.len() && area_overlaps(
                    #[trigger] self.areas@[i],
                    sv as u64,
                    ev as u64,
                ))
            &&& !area_overlaps(self.heap, sv as u64, ev as u64)
            &&& alloc.spec_free_count() >= 3 * (ev - sv)
        })
    }

    /// Map `len` bytes (rounded up to whole pages) of fresh frames at
    /// `start` with the permissions of `port`, user-accessible. Returns
    /// zero exactly on an acceptable request (a zero length maps
    /// nothing); anything else returns negative one and leaves no partial
    /// mapping behind.
    pub fn mmap(&mut self, alloc: &mut FrameAllocator, start: u64, len: u64, port: u64) -> (r:
        isize)
        requires
            old(self).wf(),
            old(alloc).wf(),
        ensures
            final (self).wf(),
            final (alloc).wf(),
            final (alloc).base == old(alloc).base,
            final (alloc).end == old(alloc).end,
            final (self).page_table.root_ppn == old(self).page_table.root_ppn,
            final (self).heap == old(self).heap,
            r == 0 || r == -1,
            (r == 0) == old(self).mmap_ok(*old(alloc), start, len, port),
            r == 0 && len > 0 ==> {
                &&& forall|v: u64|
                    start / PAGE_SIZE <= v < spec_ceil_vpn(start + len) ==> pte_maps_fresh(
                        #[trigger] final (self).page_table.spec_translate(v),
                        Self::spec_port_perm(port),
                        old(alloc).end,
                    )
                &&& forall|v: u64|
                    v < VPN_LIMIT && !(start / PAGE_SIZE <= v < spec_ceil_vpn(start + len))
                        ==> #[trigger] final (self).page_table.spec_translate(v)
                        == old(self).page_table.spec_translate(v)
            },
            r == 0 && len == 0 ==> final (self).areas@ == old(self).areas@ && forall|v: u64|
                #[trigger] final (self).page_table.spec_translate(v) == old(
                    self,
                ).page_table.spec_translate(v),
            r == -1 ==> final (self).areas@ == old(self).areas@ && forall|v: u64| #[trigger]
                final (self).page_table.spec_translate(v) == old(self).page_table.spec_translate(
                    v,
                ),
    {
        if start % PAGE_SIZE != 0 {
            return -1;
        }
        if port & 0xffff_ffff_ffff_fff8 != 0 {
            return -1;
        }
        if port & 0x7 == 0 {
            return -1;
        }
        if len == 0 {
            return 0;
        }
        if len > VA_LIMIT || start > VA_LIMIT - len {
            return -1;
        }
        let sv = start / PAGE_SIZE;
        let ev = (start + len + PAGE_SIZE - 1) / PAGE_SIZE;
        if self.is_conflict(VirtPageNum(sv), VirtPageNum(ev)) {
            return -1;
        }
        let needed = 3 * (ev - sv);
        if !alloc.has_free(needed) {
            return -1;
        }
        let perm = (((port & 0x7) << 1) as u8) | PERM_U;
        self.insert_framed_area(alloc, VirtAddr(start), VirtAddr(start + len), perm);
        0
    }

    /// A `munmap` request is acceptable: page-aligned start, in-range
    /// length, and every page of the target currently mapped.
    pub open spec fn munmap_ok(self, start: u64, len: u64) -> bool {
        &&& start % PAGE_SIZE == 0
        &&& start + len <= VA_LIMIT
        &&& forall|v: u64|
            start / PAGE_SIZE <= v < spec_ceil_vpn(start + len) ==> (
            #[trigger] self.page_table.spec_translate(v)) is Some
    }

    /// Unmap the whole page range of `[start, start + len)` and free its
    /// frames. Returns zero exactly on an acceptable request; anything
    /// else returns negative one and leaves every mapping as it was.
    pub fn munmap(&mut self, alloc: &mut FrameAllocator, start: u64, len: u64) -> (r: isize)
        requires
            old(self).wf(),
            old(alloc).wf(),
        ensures
            final (self).wf(),
            final (alloc).wf(),
            final (alloc).base == old(alloc).base,
            final (alloc).end == old(alloc).end,
            final (self).page_table.root_ppn == old(self).page_table.root_ppn,
            r == 0 || r == -1,
            (r == 0) == old(self).munmap_ok(start, len),
            final (alloc).spec_free_count() >= old(alloc).spec_free_count(),
            r == 0 ==> {
                &&& (range_frames_allocated(
                    old(self).page_table,
                    *old(alloc),
                    (start / PAGE_SIZE) as u64,
                    spec_ceil_vpn(start + len) as u64,
                ) && range_frames_distinct(
                    old(self).page_table,
                    (start / PAGE_SIZE) as u64,
                    spec_ceil_vpn(start + len) as u64,
                ) ==> final (alloc).spec_free_count() == old(alloc).spec_free_count() + (
                spec_ceil_vpn(start + len) - start / PAGE_SIZE))
                &&& final (self).heap.end_vpn <= old(self).heap.end_vpn
                &&& final (self).heap.perm == old(self).heap.perm
                &&& forall|v: u64|
                    start / PAGE_SIZE <= v < spec_ceil_vpn(start + len) ==> (
                    #[trigger] final (self).page_table.spec_translate(v)) is None
                &&& forall|v: u64|
                    v < VPN_LIMIT && !(start / PAGE_SIZE <= v < spec_ceil_vpn(start + len))
                        ==> #[trigger] final (self).page_table.spec_translate(v)
                        == old(self).page_table.spec_translate(v)
            },
            r == -1 ==> final (self).areas@ == old(self).areas@ && final (self).heap == old(
                self,
            ).heap && final (alloc).current == old(alloc).current && final (alloc).recycled@ == old(
                alloc,
            ).recycled@ && forall|v: u64| #[trigger]
                final (self).page_table.spec_translate(v) == old(self).page_table.spec_translate(
                    v,
                ),
    {
        if start % PAGE_SIZE != 0 {
            return -1;
        }
        if len > VA_LIMIT || start > VA_LIMIT - len {
            return -1;
        }
        let sv = start / PAGE_SIZE;
        let ev = (start + len + PAGE_SIZE - 1) / PAGE_SIZE;
        proof {
            assert(ev * PAGE_SIZE <= start + len + PAGE_SIZE - 1 < VA_LIMIT + PAGE_SIZE);
        }
        if self.is_vmm_mapped(VirtPageNum(sv), VirtPageNum(ev)) != 0 {
            return -1;
        }
        self.free(alloc, VirtPageNum(sv), VirtPageNum(ev));
        0
    }
}

} // verus!
