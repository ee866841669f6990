use rvcore::addr::{PhysPageNum, VirtAddr, VirtPageNum};
use rvcore::frame_allocator::FrameAllocator;
use rvcore::page_table::{
    read_translated_bytes, translated_byte_buffer, write_translated_buffer, MapError, PageTable,
    PageTableEntry, PTE_R, PTE_U, PTE_V, PTE_W,
};
use rvcore::memory_set::MemorySet;
use rvcore::phys_mem::PhysMemory;

#[test]
fn pte_encoding_round_trip() {
    let pte = PageTableEntry::new(PhysPageNum(0x1234), PTE_V | PTE_R | PTE_W);
    assert_eq!(pte.ppn().0, 0x1234);
    assert_eq!(pte.flags(), PTE_V | PTE_R | PTE_W);
    assert!(pte.is_valid());
    assert!(pte.readable());
    assert!(pte.writable());
    assert!(!pte.executable());
    let empty = PageTableEntry::empty();
    assert!(!empty.is_valid());
    assert_eq!(empty.bits, 0);
}

#[test]
fn pte_large_ppn() {
    // The full 44-bit page number survives the encoding.
    let big = 0xfff_ffff_fffe;
    let pte = PageTableEntry::new(PhysPageNum(big), PTE_V);
    assert_eq!(pte.ppn().0, big);
    assert_eq!(pte.flags(), PTE_V);
}

#[test]
fn token_layout() {
    let mut alloc = FrameAllocator::new(16, 64);
    let pt = PageTable::new(&mut alloc).unwrap();
    let token = pt.token();
    assert_eq!(token >> 60, 8);
    assert_eq!(token & 0xfff_ffff_ffff, pt.root_ppn);
    assert_eq!(token, (8u64 << 60) | pt.root_ppn);
}

#[test]
fn map_translate_unmap_round_trip() {
    let mut alloc = FrameAllocator::new(16, 64);
    let mut pt = PageTable::new(&mut alloc).unwrap();
    let vpn = VirtPageNum(0x42);
    let frame = alloc.alloc_frame().unwrap();
    pt.map(&mut alloc, vpn, frame.ppn, PTE_R | PTE_W).unwrap();
    let pte = pt.translate(vpn).expect("mapped page must translate");
    assert_eq!(pte.ppn().0, frame.ppn.0);
    assert_eq!(pte.flags(), PTE_R | PTE_W | PTE_V);
    pt.unmap(vpn).unwrap();
    assert!(pt.translate(vpn).is_none());
}

#[test]
fn double_map_rejected() {
    let mut alloc = FrameAllocator::new(16, 64);
    let mut pt = PageTable::new(&mut alloc).unwrap();
    let vpn = VirtPageNum(7);
    let f1 = alloc.alloc_frame().unwrap();
    let f2 = alloc.alloc_frame().unwrap();
    pt.map(&mut alloc, vpn, f1.ppn, PTE_R).unwrap();
    let second = pt.map(&mut alloc, vpn, f2.ppn, PTE_R);
    assert_eq!(second, Err(MapError::AlreadyMapped));
    // The first mapping is untouched, never silently overwritten.
    let pte = pt.translate(vpn).unwrap();
    assert_eq!(pte.ppn().0, f1.ppn.0);
}

#[test]
fn unmap_unmapped_rejected() {
    let mut alloc = FrameAllocator::new(16, 64);
    let mut pt = PageTable::new(&mut alloc).unwrap();
    assert_eq!(pt.unmap(VirtPageNum(9)), Err(MapError::NotMapped));
}

#[test]
fn boundary_crossing_transfer() {
    let mut alloc = FrameAllocator::new(2, 64);
    let mut mem = PhysMemory::new(64);
    let mut pt = PageTable::new(&mut alloc).unwrap();
    // Map three consecutive pages.
    for v in 16u64..19 {
        let f = alloc.alloc_frame().unwrap();
        pt.map(&mut alloc, VirtPageNum(v), f.ppn, PTE_R | PTE_W | PTE_U).unwrap();
    }
    // A range spanning all three pages, starting mid-page.
    let start = 16 * 4096 + 4000;
    let len = 5000u64;
    let data: Vec<u8> = (0..len).map(|i| (i % 251) as u8).collect();
    write_translated_buffer(&pt, &mut mem, start, &data).unwrap();

    let windows = translated_byte_buffer(&pt, start, len).unwrap();
    assert_eq!(windows.len(), 3);
    // Windows chain exactly over the range...
    assert_eq!(windows[0].vbase, start);
    for j in 0..windows.len() - 1 {
        assert_eq!(windows[j].vbase + windows[j].len, windows[j + 1].vbase);
    }
    let last = &windows[windows.len() - 1];
    assert_eq!(last.vbase + last.len, start + len);
    // ...their lengths add up to exactly the requested length...
    let total: u64 = windows.iter().map(|w| w.len).sum();
    assert_eq!(total, len);
    // ...and their concatenated contents match a page-by-page reference
    // copy of what was written.
    let mut windowed: Vec<u8> = Vec::new();
    for w in &windows {
        for t in 0..w.len {
            windowed.push(mem.read_byte(w.ppn, w.off + t));
        }
    }
    assert_eq!(windowed, data);
    let direct = read_translated_bytes(&pt, &mem, start, len).unwrap();
    assert_eq!(direct, data);
}

#[test]
fn transfer_unmapped_page_refused() {
    let mut alloc = FrameAllocator::new(2, 64);
    let mut pt = PageTable::new(&mut alloc).unwrap();
    let f = alloc.alloc_frame().unwrap();
    pt.map(&mut alloc, VirtPageNum(16), f.ppn, PTE_R).unwrap();
    // The second page of the range is unmapped.
    let r = translated_byte_buffer(&pt, 16 * 4096 + 4000, 1000);
    assert_eq!(r.err(), Some(MapError::NotMapped));
    let mut mem = PhysMemory::new(64);
    let data = vec![1u8, 2, 3];
    let w = write_translated_buffer(&pt, &mut mem, 17 * 4096, &data);
    assert_eq!(w.err(), Some(MapError::NotMapped));
}

#[test]
fn allocator_recycles_frames() {
    let mut alloc = FrameAllocator::new(10, 13);
    let a = alloc.alloc_frame().unwrap();
    let b = alloc.alloc_frame().unwrap();
    let c = alloc.alloc_frame().unwrap();
    assert_eq!((a.ppn.0, b.ppn.0, c.ppn.0), (10, 11, 12));
    assert!(alloc.alloc_frame().is_none());
    assert!(alloc.dealloc_frame(11));
    // Returning a frame twice changes nothing.
    assert!(!alloc.dealloc_frame(11));
    let again = alloc.alloc_frame().unwrap();
    assert_eq!(again.ppn.0, 11);
    // A frame outside the pool is never "freed".
    assert!(!alloc.dealloc_frame(99));
}

#[test]
fn virt_addr_page_math() {
    let a = VirtAddr(4096 * 5 + 123);
    assert_eq!(a.floor().0, 5);
    assert_eq!(a.ceil().0, 6);
    assert_eq!(a.page_offset(), 123);
    assert!(!a.is_aligned());
    let b = VirtAddr(4096 * 7);
    assert_eq!(b.floor().0, 7);
    assert_eq!(b.ceil().0, 7);
    assert!(b.is_aligned());
    assert_eq!(b.floor().step().0, 8);
}

#[test]
fn map_out_of_frames() {
    // Three frames: the root node takes one, the data frame one more,
    // and the two directory levels cannot both be allocated.
    let mut alloc = FrameAllocator::new(10, 13);
    let mut pt = PageTable::new(&mut alloc).unwrap();
    let f = alloc.alloc_frame().unwrap();
    let r = pt.map(&mut alloc, VirtPageNum(3), f.ppn, PTE_R);
    assert_eq!(r, Err(MapError::OutOfFrames));
    assert!(pt.translate(VirtPageNum(3)).is_none());
}

#[test]
fn mmap_out_of_frames_reports_failure() {
    let mut alloc = FrameAllocator::new(10, 13);
    let mut ms = MemorySet::new_bare(&mut alloc).unwrap();
    // Two frames left: not enough room for a page and its table nodes.
    let r = ms.mmap(&mut alloc, 0x20000, 4096, 0b011);
    assert_eq!(r, -1);
    assert!(ms.translate(VirtPageNum(0x20)).is_none());
}
