use rvcore::addr::VirtPageNum;
use rvcore::frame_allocator::FrameAllocator;
use rvcore::memory_set::{MemorySet, PERM_U, PERM_W};
use rvcore::page_table::{PTE_R, PTE_U, PTE_V, PTE_W};
use rvcore::phys_mem::PhysMemory;
use rvcore::syscall::{sys_mmap, sys_munmap, sys_sbrk, TimeVal};
use rvcore::task::{TaskControlBlock, TaskStatus};
use rvcore::task_manager::TaskManager;

const USER_SP: u64 = 0x10000;

fn make_machine() -> (TaskManager, FrameAllocator, PhysMemory) {
    let mut alloc = FrameAllocator::new(1, 512);
    let mut mem = PhysMemory::new(512);
    let tcb = TaskControlBlock::new(
        &mut alloc,
        &mut mem,
        0,
        USER_SP,
        0x1000,
        0x8000_0000_0000_0001,
        0xffff_f000,
        0xffff_e000,
    );
    let mut tm = TaskManager::new(vec![tcb]);
    tm.run_first_task(TimeVal::from_us(0));
    (tm, alloc, mem)
}

#[test]
fn mmap_precondition_checks() {
    let (mut tm, mut alloc, _mem) = make_machine();
    // Unaligned start.
    assert_eq!(sys_mmap(&mut tm, &mut alloc, 0x20001, 4096, 0b011), -1);
    // No permission bit at all.
    assert_eq!(sys_mmap(&mut tm, &mut alloc, 0x20000, 4096, 0), -1);
    // A bit outside the three permission bits.
    assert_eq!(sys_mmap(&mut tm, &mut alloc, 0x20000, 4096, 0b1000), -1);
    // A zero length is legal and maps nothing.
    assert_eq!(sys_mmap(&mut tm, &mut alloc, 0x20000, 0, 0b001), 0);
    assert!(tm.tasks[0].memory_set.translate(VirtPageNum(0x20)).is_none());
    // A proper request succeeds...
    assert_eq!(sys_mmap(&mut tm, &mut alloc, 0x20000, 4096, 0b011), 0);
    let pte = tm.tasks[0].memory_set.translate(VirtPageNum(0x20)).unwrap();
    assert_eq!(pte.flags(), PTE_R | PTE_W | PTE_U | PTE_V);
    // ...and mapping over an already-mapped page is refused.
    assert_eq!(sys_mmap(&mut tm, &mut alloc, 0x20000, 4096, 0b001), -1);
}

#[test]
fn mmap_rounds_length_up() {
    let (mut tm, mut alloc, _mem) = make_machine();
    assert_eq!(sys_mmap(&mut tm, &mut alloc, 0x40000, 4097, 0b001), 0);
    // Two pages are covered.
    assert!(tm.tasks[0].memory_set.translate(VirtPageNum(0x40)).is_some());
    assert!(tm.tasks[0].memory_set.translate(VirtPageNum(0x41)).is_some());
    assert!(tm.tasks[0].memory_set.translate(VirtPageNum(0x42)).is_none());
}

#[test]
fn munmap_precondition_checks() {
    let (mut tm, mut alloc, _mem) = make_machine();
    assert_eq!(sys_mmap(&mut tm, &mut alloc, 0x20000, 4096, 0b011), 0);
    // The second page of the target range is unmapped: the whole call is
    // refused and the mapped page stays queryable as mapped.
    assert_eq!(sys_munmap(&mut tm, &mut alloc, 0x20000, 8192), -1);
    assert!(tm.tasks[0].memory_set.translate(VirtPageNum(0x20)).is_some());
    // An unaligned start is refused.
    assert_eq!(sys_munmap(&mut tm, &mut alloc, 0x20001, 16), -1);
    // The exact range is released...
    assert_eq!(sys_munmap(&mut tm, &mut alloc, 0x20000, 4096), 0);
    assert!(tm.tasks[0].memory_set.translate(VirtPageNum(0x20)).is_none());
    // ...and unmapping it again is refused.
    assert_eq!(sys_munmap(&mut tm, &mut alloc, 0x20000, 4096), -1);
}

#[test]
fn munmap_middle_of_region() {
    let (mut tm, mut alloc, _mem) = make_machine();
    assert_eq!(sys_mmap(&mut tm, &mut alloc, 0x20000, 3 * 4096, 0b011), 0);
    // Cut out the middle page: the outer two stay mapped.
    assert_eq!(sys_munmap(&mut tm, &mut alloc, 0x21000, 4096), 0);
    assert!(tm.tasks[0].memory_set.translate(VirtPageNum(0x20)).is_some());
    assert!(tm.tasks[0].memory_set.translate(VirtPageNum(0x21)).is_none());
    assert!(tm.tasks[0].memory_set.translate(VirtPageNum(0x22)).is_some());
    // The hole can be mapped anew.
    assert_eq!(sys_mmap(&mut tm, &mut alloc, 0x21000, 4096, 0b001), 0);
}

#[test]
fn mmap_frames_recycled_after_munmap() {
    let (mut tm, mut alloc, _mem) = make_machine();
    assert_eq!(sys_mmap(&mut tm, &mut alloc, 0x20000, 4096, 0b001), 0);
    let before = alloc.recycled.len();
    assert_eq!(sys_munmap(&mut tm, &mut alloc, 0x20000, 4096), 0);
    assert_eq!(alloc.recycled.len(), before + 1);
}

#[test]
fn heap_growth_and_underflow() {
    let (mut tm, mut alloc, _mem) = make_machine();
    // Growing by one page succeeds and returns the old break.
    let old = sys_sbrk(&mut tm, &mut alloc, 4096);
    assert_eq!(old, USER_SP as i64);
    assert_eq!(tm.tasks[0].program_brk, USER_SP + 4096);
    // The newly covered page is mapped readable and writable for the user.
    let pte = tm.tasks[0].memory_set.translate(VirtPageNum(USER_SP / 4096)).unwrap();
    assert!(pte.readable());
    assert!(pte.writable());
    assert_eq!(pte.flags(), PTE_R | PTE_W | PTE_U | PTE_V);
    // Shrinking below the heap bottom fails and leaves the break alone.
    let heap_size = tm.tasks[0].program_brk - tm.tasks[0].heap_bottom;
    let r = sys_sbrk(&mut tm, &mut alloc, -((heap_size + 1) as i32));
    assert_eq!(r, -1);
    assert_eq!(tm.tasks[0].program_brk, USER_SP + 4096);
    // Shrinking back to the bottom unmaps the heap page.
    let r = sys_sbrk(&mut tm, &mut alloc, -(heap_size as i32));
    assert_eq!(r, (USER_SP + 4096) as i64);
    assert_eq!(tm.tasks[0].program_brk, USER_SP);
    assert!(tm.tasks[0].memory_set.translate(VirtPageNum(USER_SP / 4096)).is_none());
}

#[test]
fn sbrk_zero_is_noop_success() {
    let (mut tm, mut alloc, _mem) = make_machine();
    let r = sys_sbrk(&mut tm, &mut alloc, 0);
    assert_eq!(r, USER_SP as i64);
    assert_eq!(tm.tasks[0].program_brk, USER_SP);
}

#[test]
fn heap_collides_with_mapped_region() {
    let (mut tm, mut alloc, _mem) = make_machine();
    // Map the page right above the heap bottom, then ask the heap to grow
    // into it: the remap fails and the break stays.
    assert_eq!(sys_mmap(&mut tm, &mut alloc, USER_SP, 4096, 0b011), 0);
    assert_eq!(sys_sbrk(&mut tm, &mut alloc, 4096), -1);
    assert_eq!(tm.tasks[0].program_brk, USER_SP);
}

#[test]
fn conflict_and_mapped_queries() {
    let (mut tm, mut alloc, _mem) = make_machine();
    assert_eq!(sys_mmap(&mut tm, &mut alloc, 0x20000, 2 * 4096, 0b011), 0);
    assert!(tm.is_conflict(VirtPageNum(0x21), VirtPageNum(0x23)));
    assert!(!tm.is_conflict(VirtPageNum(0x22), VirtPageNum(0x24)));
    assert_eq!(tm.is_vmm_mapped(VirtPageNum(0x20), VirtPageNum(0x22)), 0);
    assert_eq!(tm.is_vmm_mapped(VirtPageNum(0x20), VirtPageNum(0x23)), -1);
}

#[test]
fn insert_framed_area_direct() {
    let mut alloc = FrameAllocator::new(1, 256);
    let mut ms = MemorySet::new_bare(&mut alloc).unwrap();
    ms.insert_framed_area(
        &mut alloc,
        rvcore::addr::VirtAddr(0x5000),
        rvcore::addr::VirtAddr(0x7000),
        PERM_W | PERM_U,
    );
    let pte = ms.translate(VirtPageNum(5)).unwrap();
    assert_eq!(pte.flags(), PTE_W | PTE_U | PTE_V);
    assert!(ms.translate(VirtPageNum(6)).is_some());
    assert!(ms.translate(VirtPageNum(7)).is_none());
    assert_eq!(ms.token() >> 60, 8);
}
