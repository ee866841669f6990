//! The machine's physical page frames as byte storage.
//!
//! Page-table nodes model their frames inside [`crate::page_table::PageTable`];
//! this module holds the byte contents of data frames, indexed by physical
//! page number.

use vstd::pervasive::VecAdditionalExecFns;
use vstd::prelude::*;

use crate::config::PAGE_SIZE;

verus! {

/// Byte contents of the physical frames `0 .. num_pages`.
pub struct PhysMemory {
    /// One 4096-byte page per physical page number.
    pub pages: Vec<Vec<u8>>,
}

impl PhysMemory {
    /// Every page holds exactly one page worth of bytes.
    pub open spec fn wf(self) -> bool {
        forall|i: int| 0 <= i < self.pages@.len() ==> (#[trigger] self.pages@[i])@.len() == PAGE_SIZE
    }

    /// Number of frames.
    pub open spec fn spec_num_pages(self) -> int {
        self.pages@.len() as int
    }

    /// The byte stored at offset `off` of frame `ppn`.
    pub open spec fn spec_byte(self, ppn: u64, off: u64) -> u8 {
        self.pages@[ppn as int]@[off as int]
    }

    /// Zero-filled memory of `num_pages` frames.
    pub fn new(num_pages: usize) -> (r: Self)
        ensures
            r.wf(),
            r.spec_num_pages() == num_pages,
            forall|p: u64, o: u64|
                p < num_pages && o < PAGE_SIZE ==> #[trigger] r.spec_byte(p, o) == 0u8,
    {
        let mut pages: Vec<Vec<u8>> = Vec::new();
        let mut i: usize = 0;
        while i < num_pages
            invariant
                i == pages@.len(),
                i <= num_pages,
                forall|k: int| 0 <= k < i ==> (#[trigger] pages@[k])@.len() == PAGE_SIZE,
                forall|k: int, o: int|
                    0 <= k < i && 0 <= o < PAGE_SIZE ==> (#[trigger] pages@[k]@[o]) == 0u8,
            decreases num_pages - i,
        {
            let mut page: Vec<u8> = Vec::new();
            let mut j: usize = 0;
            while j < 4096
                invariant
                    j == page@.len(),
                    j <= 4096,
                    forall|o: int| 0 <= o < j ==> (#[trigger] page@[o]) == 0u8,
                decreases 4096 - j,
            {
                page.push(0u8);
                j = j + 1;
            }
            pages.push(page);
            i = i + 1;
        }
        PhysMemory { pages }
    }

    /// Number of frames this memory holds.
    pub fn num_pages(&self) -> (r: usize)
        ensures
            r == self.spec_num_pages(),
    {
        self.pages.len()
    }

    /// Read the byte at offset `off` of frame `ppn`.
    pub fn read_byte(&self, ppn: u64, off: u64) -> (r: u8)
        requires
            self.wf(),
            ppn < self.spec_num_pages(),
            off < PAGE_SIZE,
        ensures
            r == self.spec_byte(ppn, off),
    {
        let n: usize = self.pages.len();
        proof {
            assert((ppn as int) < (n as int));
        }
        let pi: usize = ppn as usize;
        let oi: usize = off as usize;
        proof {
            assert(pi as int == ppn as int);
            assert(oi as int == off as int);
        }
        self.pages[pi][oi]
    }

    /// Write `val` at offset `off` of frame `ppn`; no other byte changes.
    pub fn write_byte(&mut self, ppn: u64, off: u64, val: u8)
        requires
            old(self).wf(),
            ppn < old(self).spec_num_pages(),
            off < PAGE_SIZE,
        ensures
            final (self).wf(),
            final (self).spec_num_pages() == old(self).spec_num_pages(),
            final (self).spec_byte(ppn, off) == val,
            forall|p: u64, o: u64|
                p < old(self).spec_num_pages() && o < PAGE_SIZE && !(p == ppn && o == off)
                    ==> #[trigger] final (self).spec_byte(p, o) == old(self).spec_byte(p, o),
    {
        let n: usize = self.pages.len();
        proof {
            assert((ppn as int) < (n as int));
        }
        let pi: usize = ppn as usize;
        let oi: usize = off as usize;
        proof {
            assert(pi as int == ppn as int);
            assert(oi as int == off as int);
        }
        let page: &mut Vec<u8> = &mut self.pages[pi];
        page.set(oi, val);
        proof {
            assert forall|p: u64, o: u64|
                p < old(self).spec_num_pages() && o < PAGE_SIZE && !(p == ppn && o == off)
                    implies #[trigger] self.spec_byte(p, o) == old(self).spec_byte(p, o) by {
                if p == ppn {
                    assert(self.pages@[p as int]@ == old(self).pages@[p as int]@.update(
                        off as int,
                        val,
                    ));
                } else {
                    assert(self.pages@[p as int] == old(self).pages@[p as int]);
                }
            }
        }
    }
}

} // verus!
