use rvcore::addr::VirtPageNum;
use rvcore::frame_allocator::FrameAllocator;
use rvcore::phys_mem::PhysMemory;
use rvcore::syscall::{
    sys_exit, sys_get_time, sys_mmap, sys_munmap, sys_sbrk, sys_task_info, sys_yield, TaskInfo,
    TimeVal,
};
use rvcore::task::{TaskControlBlock, TaskStatus};
use rvcore::task_manager::TaskManager;

const USER_SP: u64 = 0x10000;

fn make_machine(n: usize) -> (TaskManager, FrameAllocator, PhysMemory) {
    let mut alloc = FrameAllocator::new(1, 512);
    let mut mem = PhysMemory::new(512);
    let mut tasks = Vec::new();
    for i in 0..n {
        let tcb = TaskControlBlock::new(
            &mut alloc,
            &mut mem,
            i,
            USER_SP,
            0x1000,
            0x8000_0000_0000_0001,
            0xffff_f000,
            0xffff_e000,
        );
        tasks.push(tcb);
    }
    (TaskManager::new(tasks), alloc, mem)
}

fn running_count(tm: &TaskManager) -> usize {
    tm.tasks.iter().filter(|t| t.task_status == TaskStatus::Running).count()
}

#[test]
fn new_task_state() {
    let (tm, _alloc, mem) = make_machine(1);
    let t = &tm.tasks[0];
    assert_eq!(t.task_status, TaskStatus::Init);
    assert_eq!(t.heap_bottom, USER_SP);
    assert_eq!(t.program_brk, USER_SP);
    assert_eq!(t.base_size, USER_SP);
    assert!(t.syscall_cnt.iter().all(|&c| c == 0));
    // The trap-context page is mapped and holds the primed trap context.
    let trap_vpn = 0x7f_ffff_e000u64 / 4096;
    let pte = t.memory_set.translate(VirtPageNum(trap_vpn)).expect("trap page mapped");
    assert_eq!(pte.ppn().0, t.trap_cx_ppn);
    let sp = u64::from_le_bytes(
        (0..8).map(|o| mem.read_byte(t.trap_cx_ppn, o)).collect::<Vec<u8>>().try_into().unwrap(),
    );
    assert_eq!(sp, USER_SP);
    let sepc = u64::from_le_bytes(
        (8..16).map(|o| mem.read_byte(t.trap_cx_ppn, o)).collect::<Vec<u8>>().try_into().unwrap(),
    );
    assert_eq!(sepc, 0x1000);
}

#[test]
fn round_robin_visits_all_in_order() {
    let (mut tm, _alloc, _mem) = make_machine(4);
    for t in tm.tasks.iter_mut() {
        t.task_status = TaskStatus::Ready;
    }
    tm.current_task = 1;
    // From task 1, the ring is visited as 2, 3, 0, 1, 2, ... exactly.
    let mut visited = Vec::new();
    for _ in 0..5 {
        let (id, st) = tm.find_next_task().expect("all tasks ready");
        assert!(st == TaskStatus::Ready);
        visited.push(id);
        tm.tasks[tm.current_task].task_status = TaskStatus::Ready;
        tm.current_task = id;
        tm.tasks[id].task_status = TaskStatus::Running;
    }
    assert_eq!(visited, vec![2, 3, 0, 1, 2]);
}

#[test]
fn find_next_skips_exited() {
    let (mut tm, _alloc, _mem) = make_machine(3);
    tm.tasks[0].task_status = TaskStatus::Running;
    tm.tasks[1].task_status = TaskStatus::Exited;
    tm.tasks[2].task_status = TaskStatus::Ready;
    tm.current_task = 0;
    let (id, _) = tm.find_next_task().unwrap();
    assert_eq!(id, 2);
}

#[test]
fn no_schedulable_task_means_shutdown() {
    let (mut tm, _alloc, _mem) = make_machine(2);
    tm.tasks[0].task_status = TaskStatus::Exited;
    tm.tasks[1].task_status = TaskStatus::Exited;
    assert!(tm.find_next_task().is_none());
    let r = tm.run_next_task(TimeVal::from_us(10));
    assert!(r.is_none());
}

#[test]
fn single_running_invariant() {
    let (mut tm, _alloc, _mem) = make_machine(3);
    assert_eq!(running_count(&tm), 0);
    let first = tm.run_first_task(TimeVal::from_us(100));
    assert_eq!(first, 0);
    assert_eq!(running_count(&tm), 1);
    // Yield twice: between any two scheduler operations exactly one task
    // is Running.
    let (code, switch) = sys_yield(&mut tm, TimeVal::from_us(200));
    assert_eq!(code, 0);
    let (prev, next) = switch.unwrap();
    assert_eq!((prev, next), (0, 1));
    assert_eq!(running_count(&tm), 1);
    let (_, switch) = sys_yield(&mut tm, TimeVal::from_us(300));
    assert_eq!(switch.unwrap(), (1, 2));
    assert_eq!(running_count(&tm), 1);
}

#[test]
fn first_dispatch_stamps_start_time() {
    let (mut tm, _alloc, _mem) = make_machine(2);
    tm.run_first_task(TimeVal::from_us(5_000_000));
    assert_eq!(tm.tasks[0].start_up_time, TimeVal::from_us(5_000_000));
    // Task 1 is still Init; its first dispatch stamps its start time.
    let (_, switch) = sys_yield(&mut tm, TimeVal::from_us(7_000_000));
    assert_eq!(switch.unwrap(), (0, 1));
    assert_eq!(tm.tasks[1].start_up_time, TimeVal::from_us(7_000_000));
    // A later re-dispatch does not re-stamp it.
    let (_, switch) = sys_yield(&mut tm, TimeVal::from_us(9_000_000));
    assert_eq!(switch.unwrap(), (1, 0));
    let (_, switch) = sys_yield(&mut tm, TimeVal::from_us(11_000_000));
    assert_eq!(switch.unwrap(), (0, 1));
    assert_eq!(tm.tasks[1].start_up_time, TimeVal::from_us(7_000_000));
}

#[test]
fn exit_is_terminal() {
    let (mut tm, _alloc, _mem) = make_machine(2);
    tm.run_first_task(TimeVal::from_us(10));
    let switch = sys_exit(&mut tm, 0, TimeVal::from_us(20));
    assert_eq!(switch.unwrap(), (0, 1));
    assert_eq!(tm.tasks[0].task_status, TaskStatus::Exited);
    // The exited task is never rescheduled: the only other task keeps
    // getting the CPU back.
    let (_, switch) = sys_yield(&mut tm, TimeVal::from_us(30));
    assert_eq!(switch.unwrap(), (1, 1));
    // When the last task exits, nothing is left to schedule.
    let switch = sys_exit(&mut tm, 0, TimeVal::from_us(40));
    assert!(switch.is_none());
}

#[test]
fn elapsed_time_monotonic() {
    let (mut tm, _alloc, _mem) = make_machine(1);
    tm.run_first_task(TimeVal::from_us(1_000_000));
    let i1 = tm.get_task_info(TimeVal::from_us(1_500_000));
    let i2 = tm.get_task_info(TimeVal::from_us(2_600_000));
    assert_eq!(i1.time, 500);
    assert_eq!(i2.time, 1600);
    assert!(i1.time <= i2.time);
    assert_eq!(i1.status, TaskStatus::Running);
}

#[test]
fn syscall_histogram_counts() {
    let (mut tm, _alloc, _mem) = make_machine(1);
    tm.run_first_task(TimeVal::from_us(0));
    tm.update_syscall_cnt(124);
    tm.update_syscall_cnt(124);
    tm.update_syscall_cnt(169);
    let info = tm.get_task_info(TimeVal::from_us(1000));
    assert_eq!(info.syscall_times[124], 2);
    assert_eq!(info.syscall_times[169], 1);
    assert_eq!(info.syscall_times[0], 0);
}

#[test]
fn task_info_bytes_layout() {
    let cnt = vec![0u32; 500];
    let info = TaskInfo::new(TaskStatus::Running, &cnt, 77);
    let bytes = info.to_bytes();
    assert_eq!(bytes.len(), 2016);
    assert_eq!(u64::from_le_bytes(bytes[0..8].try_into().unwrap()), 2);
    assert_eq!(u64::from_le_bytes(bytes[2008..2016].try_into().unwrap()), 77);
}

#[test]
fn get_time_writes_through_translation() {
    let (mut tm, mut alloc, mut mem) = make_machine(1);
    tm.run_first_task(TimeVal::from_us(0));
    // Map a user page and have the kernel write the time into it.
    let ptr = 0x20000u64;
    assert_eq!(sys_mmap(&mut tm, &mut alloc, ptr, 4096, 0b011), 0);
    let r = sys_get_time(&tm, &mut mem, ptr + 100, 0, 3_456_789);
    assert_eq!(r, 0);
    let pte = tm.tasks[0].memory_set.translate(VirtPageNum(ptr / 4096)).unwrap();
    let read = |off: u64| -> u64 {
        u64::from_le_bytes(
            (off..off + 8)
                .map(|o| mem.read_byte(pte.ppn().0, 100 + o))
                .collect::<Vec<u8>>()
                .try_into()
                .unwrap(),
        )
    };
    assert_eq!(read(0), 3);
    assert_eq!(read(8), 456_789);
    // Writing through an unmapped pointer is refused.
    assert_eq!(sys_get_time(&tm, &mut mem, 0x500000, 0, 1), -1);
}

#[test]
fn task_info_written_to_user_memory() {
    let (mut tm, mut alloc, mut mem) = make_machine(1);
    tm.run_first_task(TimeVal::from_us(1_000_000));
    let ptr = 0x30000u64;
    assert_eq!(sys_mmap(&mut tm, &mut alloc, ptr, 4096, 0b011), 0);
    tm.update_syscall_cnt(64);
    let r = sys_task_info(&tm, &mut mem, ptr, TimeVal::from_us(3_000_000));
    assert_eq!(r, 0);
    let pte = tm.tasks[0].memory_set.translate(VirtPageNum(ptr / 4096)).unwrap();
    let status_code = u64::from_le_bytes(
        (0..8).map(|o| mem.read_byte(pte.ppn().0, o)).collect::<Vec<u8>>().try_into().unwrap(),
    );
    assert_eq!(status_code, 2);
    // Histogram entry 64 sits at offset 8 + 4 * 64.
    let cnt = u32::from_le_bytes(
        (0..4)
            .map(|o| mem.read_byte(pte.ppn().0, 8 + 4 * 64 + o))
            .collect::<Vec<u8>>()
            .try_into()
            .unwrap(),
    );
    assert_eq!(cnt, 1);
    let elapsed = u64::from_le_bytes(
        (2008..2016).map(|o| mem.read_byte(pte.ppn().0, o)).collect::<Vec<u8>>().try_into().unwrap(),
    );
    assert_eq!(elapsed, 2000);
}

#[test]
fn status_text() {
    assert_eq!(TaskStatus::Ready.text(), "Ready");
    assert_eq!(TaskStatus::Running.text(), "Running");
    assert_eq!(TaskStatus::Exited.text(), "Exited");
    assert_eq!(TaskStatus::Init.text(), "Init");
    assert_eq!(TaskStatus::UnInit.text(), "UnInit");
}

#[test]
fn time_val_conversions() {
    let tv = TimeVal::from_us(1_234_567);
    assert_eq!(tv.sec, 1);
    assert_eq!(tv.usec, 234_567);
    let later = TimeVal::from_us(3_000_000);
    assert_eq!(later.diff_ms(tv), 3000 - 1234);
    assert_eq!(TimeVal::default(), TimeVal { sec: 0, usec: 0 });
}
