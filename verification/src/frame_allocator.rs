//! Ownership of the pool of physical page frames.
//!
//! A stack-style allocator hands out single frames and reclaims them.
//! Each frame is outstanding (allocated) or free; a handed-out frame is
//! owned by exactly one holder until it is explicitly returned.

use vstd::prelude::*;

use crate::addr::PhysPageNum;
use crate::config::PPN_MASK;

verus! {

/// Handle for one allocated physical frame: exactly one owner at a time;
/// the frame returns to the pool only through [`FrameAllocator::dealloc_frame`].
#[derive(Clone, Copy, PartialEq, Eq, Structural, Debug)]
pub struct FrameTracker {
    /// The physical page number of the owned frame.
    pub ppn: PhysPageNum,
}

/// The pool of physical frames in `[base, end)`. Frames in
/// `[base, current)` have been handed out at some point; those among them
/// on the `recycled` stack have been returned and are free again.
pub struct FrameAllocator {
    /// First frame of the managed pool.
    pub base: u64,
    /// Next never-handed-out frame.
    pub current: u64,
    /// One past the last frame of the pool.
    pub end: u64,
    /// Returned frames, free for reuse.
    pub recycled: Vec<u64>,
}

impl FrameAllocator {
    /// Internal consistency of the pool bookkeeping.
    pub open spec fn wf(self) -> bool {
        &&& self.base <= self.current <= self.end
        &&& self.end <= PPN_MASK + 1
        &&& forall|i: int|
            0 <= i < self.recycled@.len() ==> self.base <= #[trigger] self.recycled@[i]
                < self.current
        &&& forall|i: int, j: int|
            0 <= i < j < self.recycled@.len() ==> self.recycled@[i] != self.recycled@[j]
    }

    /// Whether frame `ppn` is currently handed out.
    pub open spec fn is_allocated(self, ppn: u64) -> bool {
        self.base <= ppn < self.current && !self.recycled@.contains(ppn)
    }

    /// How many frames are still free.
    pub open spec fn spec_free_count(self) -> int {
        self.end - self.current + self.recycled@.len()
    }

    /// A new allocator owning the frames of `[base, end)`.
    pub fn new(base: u64, end: u64) -> (r: Self)
        requires
            base <= end,
            end <= PPN_MASK,
        ensures
            r.wf(),
            r.spec_free_count() == end - base,
            forall|p: u64| !r.is_allocated(p),
    {
        FrameAllocator { base, current: base, end, recycled: Vec::new() }
    }

    /// Whether at least `needed` frames are still free.
    pub fn has_free(&self, needed: u64) -> (r: bool)
        requires
            self.wf(),
        ensures
            r == (self.spec_free_count() >= needed),
    {
        let direct = self.end - self.current;
        if direct >= needed {
            true
        } else {
            (self.recycled.len() as u64) >= needed - direct
        }
    }

    /// Hand out one free frame, if any is left: a frame that is not
    /// currently allocated becomes allocated; nothing else changes.
    pub fn alloc_frame(&mut self) -> (r: Option<FrameTracker>)
        requires
            old(self).wf(),
        ensures
            final (self).wf(),
            final (self).base == old(self).base,
            final (self).end == old(self).end,
            r is Some <==> old(self).spec_free_count() > 0,
            r is None ==> final (self).current == old(self).current
                && final (self).recycled@ == old(self).recycled@,
            r matches Some(f) ==> {
                &&& f.ppn.0 <= PPN_MASK
                &&& !old(self).is_allocated(f.ppn.0)
                &&& final (self).is_allocated(f.ppn.0)
                &&& forall|q: u64|
                    q != f.ppn.0 ==> final (self).is_allocated(q) == old(self).is_allocated(q)
                &&& final (self).spec_free_count() == old(self).spec_free_count() - 1
            },
    {
        match self.recycled.pop() {
            Some(p) => {
                proof {
                    assert(old(self).recycled@.contains(p));
                    assert forall|q: u64| q != p implies self.is_allocated(q) == old(
                        self,
                    ).is_allocated(q) by {
                        if old(self).recycled@.contains(q) {
                            let i = choose|i: int|
                                0 <= i < old(self).recycled@.len() && old(self).recycled@[i] == q;
                            assert(i < old(self).recycled@.len() - 1);
                            assert(self.recycled@[i] == q);
                        }
                        if self.recycled@.contains(q) {
                            assert(old(self).recycled@.contains(q));
                        }
                    }
                }
                Some(FrameTracker { ppn: PhysPageNum(p) })
            },
            None => {
                if self.current < self.end {
                    let p = self.current;
                    self.current = self.current + 1;
                    proof {
                        assert(!old(self).recycled@.contains(p));
                    }
                    Some(FrameTracker { ppn: PhysPageNum(p) })
                } else {
                    None
                }
            },
        }
    }

    /// Return frame `ppn` to the pool. A frame that is currently
    /// allocated becomes free; returning anything else changes nothing.
    pub fn dealloc_frame(&mut self, ppn: u64) -> (freed: bool)
        requires
            old(self).wf(),
        ensures
            final (self).wf(),
            final (self).base == old(self).base,
            final (self).end == old(self).end,
            final (self).current == old(self).current,
            freed == old(self).is_allocated(ppn),
            freed ==> {
                &&& !final (self).is_allocated(ppn)
                &&& final (self).spec_free_count() == old(self).spec_free_count() + 1
            },
            !freed ==> final (self).recycled@ == old(self).recycled@,
            forall|q: u64| q != ppn ==> final (self).is_allocated(q) == old(self).is_allocated(q),
    {
        if ppn < self.base || ppn >= self.current {
            return false;
        }
        let mut i: usize = 0;
        while i < self.recycled.len()
            invariant
                i <= self.recycled@.len(),
                forall|j: int| 0 <= j < i ==> self.recycled@[j] != ppn,
                self.base == old(self).base,
                self.current == old(self).current,
                self.end == old(self).end,
                self.recycled@ == old(self).recycled@,
                old(self).wf(),
            decreases self.recycled@.len() - i,
        {
            if self.recycled[i] == ppn {
                proof {
                    assert(self.recycled@.contains(ppn));
                    assert(!self.is_allocated(ppn));
                    assert(self.wf());
                }
                return false;
            }
            i = i + 1;
        }
        proof {
            assert(!self.recycled@.contains(ppn));
        }
        self.recycled.push(ppn);
        proof {
            assert(self.recycled@ == old(self).recycled@.push(ppn));
            assert(self.recycled@[self.recycled@.len() - 1] == ppn);
            assert(self.recycled@.contains(ppn));
            assert forall|a: int, b: int|
                0 <= a < b < self.recycled@.len() implies self.recycled@[a]
                != self.recycled@[b] by {
                if b == self.recycled@.len() - 1 {
                    assert(self.recycled@[a] == old(self).recycled@[a]);
                    assert(!old(self).recycled@.contains(ppn));
                }
            }
            assert forall|q: u64| q != ppn implies self.is_allocated(q) == old(
                self,
            ).is_allocated(q) by {
                if old(self).recycled@.contains(q) {
                    let k = choose|k: int|
                        0 <= k < old(self).recycled@.len() && old(self).recycled@[k] == q;
                    assert(self.recycled@[k] == q);
                }
                if self.recycled@.contains(q) {
                    let k = choose|k: int|
                        0 <= k < self.recycled@.len() && self.recycled@[k] == q;
                    assert(k < old(self).recycled@.len());
                }
            }
        }
        true
    }
}

} // verus!
