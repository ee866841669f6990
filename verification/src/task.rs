//! Per-task state: lifecycle status, saved register context, the owned
//! address space, and the program-break bookkeeping.

use vstd::pervasive::VecAdditionalExecFns;
use vstd::prelude::*;

use crate::addr::{VirtAddr, VirtPageNum};
use crate::config::{KERNEL_STACK_SIZE, KERNEL_STACK_STRIDE, MAX_SYSCALL_NUM, PAGE_SIZE,
    TRAMPOLINE, TRAP_CONTEXT_BASE, VA_LIMIT, VPN_LIMIT};
use crate::frame_allocator::FrameAllocator;
use crate::memory_set::{spec_ceil_vpn, MemorySet, PERM_R, PERM_U, PERM_W};
use crate::page_table::{byte_at, pt_fits, range_no_alias, write_translated_buffer};
use crate::phys_mem::PhysMemory;
use crate::syscall::TimeVal;

verus! {

/// The lifecycle of a task. `Init` is loaded but never dispatched;
/// `Exited` is terminal and never rescheduled.
#[derive(Clone, Copy, PartialEq, Eq, Structural, Debug)]
pub enum TaskStatus {
    /// Not yet initialized.
    UnInit,
    /// Ready to run, dispatched before.
    Ready,
    /// Currently on the CPU.
    Running,
    /// Finished; never scheduled again.
    Exited,
    /// Initialized, but never ran yet.
    Init,
}

impl TaskStatus {
    /// The status is eligible for dispatch.
    pub open spec fn schedulable(self) -> bool {
        self == TaskStatus::Ready || self == TaskStatus::Init
    }

    /// A stable numeric code, used when the status is written into user
    /// memory.
    pub open spec fn spec_code(self) -> u64 {
        match self {
            TaskStatus::UnInit => 0,
            TaskStatus::Ready => 1,
            TaskStatus::Running => 2,
            TaskStatus::Exited => 3,
            TaskStatus::Init => 4,
        }
    }

    /// The numeric code of this status.
    pub fn code(&self) -> (r: u64)
        ensures
            r == self.spec_code(),
    {
        match self {
            TaskStatus::UnInit => 0,
            TaskStatus::Ready => 1,
            TaskStatus::Running => 2,
            TaskStatus::Exited => 3,
            TaskStatus::Init => 4,
        }
    }

    /// The label of the status.
    pub open spec fn spec_text(self) -> Seq<char> {
        match self {
            TaskStatus::UnInit => "UnInit"@,
            TaskStatus::Ready => "Ready"@,
            TaskStatus::Running => "Running"@,
            TaskStatus::Exited => "Exited"@,
            TaskStatus::Init => "Init"@,
        }
    }

    /// A short label of the status.
    pub fn text(&self) -> (r: String)
        ensures
            r@ == self.spec_text(),
    {
        match self {
            TaskStatus::UnInit => "UnInit".to_string(),
            TaskStatus::Ready => "Ready".to_string(),
            TaskStatus::Running => "Running".to_string(),
            TaskStatus::Exited => "Exited".to_string(),
            TaskStatus::Init => "Init".to_string(),
        }
    }
}

/// The callee-saved register context a context switch saves and
/// restores: return address, stack pointer, and the saved registers.
#[derive(Clone, Copy, Debug)]
pub struct TaskContext {
    /// Where execution resumes after the switch.
    pub ra: u64,
    /// The kernel stack pointer of the task.
    pub sp: u64,
    /// The twelve callee-saved registers.
    pub s: [u64; 12],
}

impl TaskContext {
    /// An all-zero context, used as the throwaway source of the very
    /// first switch.
    pub fn zero_init() -> (r: Self)
        ensures
            r.ra == 0,
            r.sp == 0,
    {
        TaskContext { ra: 0, sp: 0, s: [0u64; 12] }
    }

    /// A context that resumes at the trap-return trampoline on the given
    /// kernel stack: how a task first enters user mode.
    pub fn goto_trap_return(kstack_ptr: u64, trap_return: u64) -> (r: Self)
        ensures
            r.ra == trap_return,
            r.sp == kstack_ptr,
    {
        TaskContext { ra: trap_return, sp: kstack_ptr, s: [0u64; 12] }
    }
}

/// The saved user state a trap hands the kernel: enough here to prime a
/// task's first entry into user mode.
#[derive(Clone, Copy, PartialEq, Eq, Structural, Debug)]
pub struct TrapContext {
    /// User stack pointer.
    pub sp: u64,
    /// User program counter to return to.
    pub sepc: u64,
    /// The kernel space's translation token.
    pub kernel_satp: u64,
    /// The task's kernel stack top.
    pub kernel_sp: u64,
    /// Address of the kernel's trap handler.
    pub trap_handler: u64,
}

impl TrapContext {
    /// The byte image of the context: its five words, little endian.
    pub open spec fn spec_bytes(self) -> Seq<u8> {
        vstd::bytes::spec_u64_to_le_bytes(self.sp) + vstd::bytes::spec_u64_to_le_bytes(self.sepc)
            + vstd::bytes::spec_u64_to_le_bytes(self.kernel_satp)
            + vstd::bytes::spec_u64_to_le_bytes(self.kernel_sp)
            + vstd::bytes::spec_u64_to_le_bytes(self.trap_handler)
    }

    /// The initial trap context of an application: entry point, user
    /// stack, and the kernel-side return path.
    pub fn app_init_context(entry: u64, sp: u64, kernel_satp: u64, kernel_sp: u64,
        trap_handler: u64) -> (r: Self)
        ensures
            r == (TrapContext { sp, sepc: entry, kernel_satp, kernel_sp, trap_handler }),
    {
        TrapContext { sp, sepc: entry, kernel_satp, kernel_sp, trap_handler }
    }

    /// Serialize the context for placement in the trap-context page.
    pub fn to_bytes(&self) -> (r: Vec<u8>)
        ensures
            r@ == self.spec_bytes(),
            r@.len() == 40,
    {
        let mut v = vstd::bytes::u64_to_le_bytes(self.sp);
        let mut b = vstd::bytes::u64_to_le_bytes(self.sepc);
        v.append(&mut b);
        let mut b = vstd::bytes::u64_to_le_bytes(self.kernel_satp);
        v.append(&mut b);
        let mut b = vstd::bytes::u64_to_le_bytes(self.kernel_sp);
        v.append(&mut b);
        let mut b = vstd::bytes::u64_to_le_bytes(self.trap_handler);
        v.append(&mut b);
        v
    }
}

/// The kernel-space position of application `app_id`'s kernel stack:
/// stacks hang below the trampoline, one guard page between neighbours.
pub fn kernel_stack_position(app_id: usize) -> (r: (u64, u64))
    requires
        (app_id + 1) * KERNEL_STACK_STRIDE <= TRAMPOLINE,
    ensures
        r.1 == TRAMPOLINE - app_id * KERNEL_STACK_STRIDE,
        r.0 == r.1 - KERNEL_STACK_SIZE,
{
    let top = TRAMPOLINE - (app_id as u64) * KERNEL_STACK_STRIDE;
    let bottom = top - KERNEL_STACK_SIZE;
    (bottom, top)
}

/// The task control block: everything the kernel keeps per task.
pub struct TaskControlBlock {
    /// Saved register context restored by the next switch into the owner.
    pub task_cx: TaskContext,
    /// Lifecycle status.
    pub task_status: TaskStatus,
    /// The task's own address space.
    pub memory_set: MemorySet,
    /// The physical page backing the fixed trap-context slot.
    pub trap_cx_ppn: u64,
    /// Top address of the loaded program image.
    pub base_size: u64,
    /// Lower bound of the heap; the break never goes below it.
    pub heap_bottom: u64,
    /// Current program break (top of the heap).
    pub program_brk: u64,
    /// Per-syscall invocation counts.
    pub syscall_cnt: Vec<u32>,
    /// When the owner was first dispatched.
    pub start_up_time: TimeVal,
}

impl TaskControlBlock {
    /// The block is consistent: its space is, the break sits between the
    /// heap bottom and the address-space top, and the heap region of the
    /// space covers exactly the pages up to the break.
    pub open spec fn wf(self) -> bool {
        &&& self.memory_set.wf()
        &&& self.syscall_cnt@.len() == MAX_SYSCALL_NUM
        &&& self.heap_bottom <= self.program_brk
        &&& self.program_brk + PAGE_SIZE <= VA_LIMIT
        &&& self.memory_set.heap.end_vpn <= spec_ceil_vpn(self.program_brk as int)
        &&& self.memory_set.heap.perm == (PERM_R | PERM_W | PERM_U)
        &&& self.start_up_time.wf()
    }

    /// The physical page of the owner's trap context.
    pub fn get_trap_cx(&self) -> (r: u64)
        ensures
            r == self.trap_cx_ppn,
    {
        self.trap_cx_ppn
    }

    /// The hardware token of the owner's address space.
    pub fn get_user_token(&self) -> (r: u64)
        requires
            self.memory_set.page_table.wf(),
        ensures
            r == (8u64 << 60) | self.memory_set.page_table.root_ppn,
    {
        self.memory_set.token()
    }

    /// Record one more call of syscall `id` in the histogram.
    pub fn update_syscall_cnt(&mut self, syscall_id: usize)
        requires
            old(self).wf(),
            syscall_id < MAX_SYSCALL_NUM,
            old(self).syscall_cnt@[syscall_id as int] < u32::MAX,
        ensures
            final (self).wf(),
            final (self).syscall_cnt@ == old(self).syscall_cnt@.update(
                syscall_id as int,
                (old(self).syscall_cnt@[syscall_id as int] + 1) as u32,
            ),
            final (self).task_cx == old(self).task_cx,
            final (self).task_status == old(self).task_status,
            final (self).memory_set == old(self).memory_set,
            final (self).trap_cx_ppn == old(self).trap_cx_ppn,
            final (self).base_size == old(self).base_size,
            final (self).heap_bottom == old(self).heap_bottom,
            final (self).program_brk == old(self).program_brk,
            final (self).start_up_time == old(self).start_up_time,
    {
        let c = self.syscall_cnt[syscall_id];
        self.syscall_cnt.set(syscall_id, c + 1);
    }
}


impl TaskControlBlock {
    /// The program break can move by `size`: the target stays at or
    /// above the heap bottom and below the address-space top, and a
    /// growth finds its new pages unmapped and enough room in the frame
    /// pool for them and their table nodes.
    pub open spec fn brk_ok(self, alloc: FrameAllocator, size: i32) -> bool {
        let nb = self.program_brk + size;
        &&& nb >= self.heap_bottom
        &&& nb + PAGE_SIZE <= VA_LIMIT
        &&& (size < 0 ==> self.memory_set.heap.start_vpn <= spec_ceil_vpn(nb)
            <= self.memory_set.heap.end_vpn)
        &&& (size >= 0 ==> {
            let newend = spec_ceil_vpn(nb);
            &&& (forall|v: u64|
                self.memory_set.heap.end_vpn <= v < newend ==> (
                #[trigger] self.memory_set.page_table.spec_translate(v)) is None)
            &&& alloc.spec_free_count() >= 3 * (newend - self.memory_set.heap.end_vpn)
        })
    }

    /// Build a fresh task: a new address space holding the trap-context
    /// page, the initial trap context written into that page, the saved
    /// context primed to enter user mode over the task's kernel stack,
    /// and the heap rooted at the loaded image's top.
    pub fn new(alloc: &mut FrameAllocator, mem: &mut PhysMemory, app_id: usize, user_sp: u64,
        entry_point: u64, kernel_satp: u64, trap_handler: u64, trap_return: u64) -> (r:
        TaskControlBlock)
        requires
            old(alloc).wf(),
            old(mem).wf(),
            old(alloc).end <= old(mem).spec_num_pages(),
            old(alloc).spec_free_count() >= 4,
            user_sp + PAGE_SIZE <= VA_LIMIT,
            (app_id + 1) * KERNEL_STACK_STRIDE <= TRAMPOLINE,
        ensures
            final (alloc).wf(),
            final (mem).wf(),
            final (alloc).base == old(alloc).base,
            final (alloc).end == old(alloc).end,
            final (mem).spec_num_pages() == old(mem).spec_num_pages(),
            r.wf(),
            r.task_status == TaskStatus::Init,
            r.heap_bottom == user_sp,
            r.program_brk == user_sp,
            r.base_size == user_sp,
            r.start_up_time == (TimeVal { sec: 0, usec: 0 }),
            forall|k: int| 0 <= k < MAX_SYSCALL_NUM ==> (#[trigger] r.syscall_cnt@[k]) == 0,
            r.memory_set.page_table.spec_translate(TRAP_CONTEXT_BASE / PAGE_SIZE) matches Some(pte)
                && pte.spec_ppn() == r.trap_cx_ppn,
            r.task_cx.ra == trap_return,
            forall|i: int|
                0 <= i < 40 ==> #[trigger] byte_at(
                    r.memory_set.page_table,
                    *final (mem),
                    (TRAP_CONTEXT_BASE + i) as u64,
                    (TrapContext {
                        sp: user_sp,
                        sepc: entry_point,
                        kernel_satp,
                        kernel_sp: (TRAMPOLINE - app_id * KERNEL_STACK_STRIDE) as u64,
                        trap_handler,
                    }).spec_bytes()[i],
                ),
    {
        let mut memory_set = match MemorySet::new_bare(alloc) {
            Some(ms) => ms,
            None => {
                proof {
                    assert(false);
                }
                MemorySet::new_bare(alloc).unwrap()
            },
        };
        // Map the fixed trap-context page, kernel-owned (not user-visible).
        memory_set.insert_framed_area(
            alloc,
            VirtAddr(TRAP_CONTEXT_BASE),
            VirtAddr(TRAP_CONTEXT_BASE + PAGE_SIZE),
            PERM_R | PERM_W,
        );
        let trap_vpn = TRAP_CONTEXT_BASE / PAGE_SIZE;
        let trap_cx_ppn = match memory_set.translate(VirtPageNum(trap_vpn)) {
            Some(pte) => pte.ppn().0,
            None => {
                proof {
                    assert(false);
                }
                0
            },
        };
        // The heap begins, empty, at the top of the loaded image.
        memory_set.init_heap((user_sp + PAGE_SIZE - 1) / PAGE_SIZE);
        let (_kernel_stack_bottom, kernel_stack_top) = kernel_stack_position(app_id);
        // Prime the trap context in the task's own space.
        let trap_cx = TrapContext::app_init_context(
            entry_point,
            user_sp,
            kernel_satp,
            kernel_stack_top,
            trap_handler,
        );
        let bytes = trap_cx.to_bytes();
        proof {
            assert(pt_fits(memory_set.page_table, *mem));
            assert(range_no_alias(memory_set.page_table, TRAP_CONTEXT_BASE, 40)) by {
                assert forall|a: u64, b: u64|
                    a * PAGE_SIZE < TRAP_CONTEXT_BASE + 40 && TRAP_CONTEXT_BASE < a * PAGE_SIZE
                        + PAGE_SIZE && b * PAGE_SIZE < TRAP_CONTEXT_BASE + 40 && TRAP_CONTEXT_BASE
                        < b * PAGE_SIZE + PAGE_SIZE && a != b && (
                    #[trigger] memory_set.page_table.spec_translate(a)) is Some && (
                    #[trigger] memory_set.page_table.spec_translate(b)) is Some
                    implies memory_set.page_table.spec_translate(a).unwrap().spec_ppn()
                    != memory_set.page_table.spec_translate(b).unwrap().spec_ppn() by {
                    assert(a == b);
                }
            }
        }
        let res = write_translated_buffer(&memory_set.page_table, mem, TRAP_CONTEXT_BASE, &bytes);
        proof {
            assert(res is Ok) by {
                if res is Err {
                    let i = choose|i: int|
                        0 <= i < bytes@.len() && (#[trigger] crate::page_table::spec_paddr(
                            memory_set.page_table,
                            (TRAP_CONTEXT_BASE + i) as u64,
                        )) is None;
                    assert((TRAP_CONTEXT_BASE + i) as u64 / PAGE_SIZE == trap_vpn);
                }
            }
        }
        let mut syscall_cnt: Vec<u32> = Vec::new();
        let mut k: usize = 0;
        while k < MAX_SYSCALL_NUM
            invariant
                k == syscall_cnt@.len(),
                k <= MAX_SYSCALL_NUM,
                forall|j: int| 0 <= j < k ==> (#[trigger] syscall_cnt@[j]) == 0,
            decreases MAX_SYSCALL_NUM - k,
        {
            syscall_cnt.push(0);
            k = k + 1;
        }
        TaskControlBlock {
            task_cx: TaskContext::goto_trap_return(kernel_stack_top, trap_return),
            task_status: TaskStatus::Init,
            memory_set,
            trap_cx_ppn,
            base_size: user_sp,
            heap_bottom: user_sp,
            program_brk: user_sp,
            syscall_cnt,
            start_up_time: TimeVal { sec: 0, usec: 0 },
        }
    }

    /// Move the program break by `size` bytes. On success the old break
    /// comes back and the break moves; pages newly covered by a growth
    /// are freshly mapped readable and writable for the user, pages
    /// uncovered by a shrink are unmapped and their frames freed. On
    /// refusal the break and every mapping stay as they were.
    pub fn change_program_brk(&mut self, alloc: &mut FrameAllocator, size: i32) -> (r: Option<u64>)
        requires
            old(self).wf(),
            old(alloc).wf(),
        ensures
            final (self).wf(),
            final (alloc).wf(),
            final (alloc).base == old(alloc).base,
            final (alloc).end == old(alloc).end,
            final (self).heap_bottom == old(self).heap_bottom,
            final (self).task_status == old(self).task_status,
            final (self).syscall_cnt@ == old(self).syscall_cnt@,
            final (self).start_up_time == old(self).start_up_time,
            final (self).trap_cx_ppn == old(self).trap_cx_ppn,
            (r is Some) == old(self).brk_ok(*old(alloc), size),
            r matches Some(old_brk) ==> {
                &&& old_brk == old(self).program_brk
                &&& final (self).program_brk == old(self).program_brk + size
                &&& size >= 0 ==> forall|v: u64|
                    old(self).memory_set.heap.end_vpn <= v < spec_ceil_vpn(
                        old(self).program_brk + size,
                    ) ==> crate::memory_set::pte_maps_fresh(
                        #[trigger] final (self).memory_set.page_table.spec_translate(v),
                        PERM_R | PERM_W | PERM_U,
                        old(alloc).end,
                    )
                &&& size < 0 ==> forall|v: u64|
                    spec_ceil_vpn(old(self).program_brk + size) <= v < old(
                        self,
                    ).memory_set.heap.end_vpn ==> (
                    #[trigger] final (self).memory_set.page_table.spec_translate(v)) is None
                &&& size >= 0 ==> forall|v: u64|
                    v < VPN_LIMIT && !(old(self).memory_set.heap.end_vpn <= v < spec_ceil_vpn(
                        old(self).program_brk + size,
                    )) ==> #[trigger] final (self).memory_set.page_table.spec_translate(v) == old(
                        self,
                    ).memory_set.page_table.spec_translate(v)
                &&& size < 0 ==> forall|v: u64|
                    v < VPN_LIMIT && !(spec_ceil_vpn(old(self).program_brk + size) <= v < old(
                        self,
                    ).memory_set.heap.end_vpn)
                        ==> #[trigger] final (self).memory_set.page_table.spec_translate(v) == old(
                        self,
                    ).memory_set.page_table.spec_translate(v)
            },
            r is None ==> {
                &&& final (self).program_brk == old(self).program_brk
                &&& forall|v: u64| #[trigger]
                    final (self).memory_set.page_table.spec_translate(v) == old(
                        self,
                    ).memory_set.page_table.spec_translate(v)
            },
    {
        let old_brk = self.program_brk;
        let new_brk_i = old_brk as i64 + size as i64;
        if new_brk_i < self.heap_bottom as i64 {
            return None;
        }
        let new_brk = new_brk_i as u64;
        if new_brk > VA_LIMIT - PAGE_SIZE {
            return None;
        }
        let ok = if size < 0 {
            self.memory_set.shrink_to(alloc, VirtAddr(new_brk))
        } else {
            proof {
                assert(spec_ceil_vpn(old_brk as int) <= spec_ceil_vpn(new_brk as int)) by {
                    vstd::arithmetic::div_mod::lemma_div_is_ordered(
                        old_brk + PAGE_SIZE - 1,
                        new_brk + PAGE_SIZE - 1,
                        PAGE_SIZE as int,
                    );
                }
            }
            self.memory_set.append_to(alloc, VirtAddr(new_brk))
        };
        if ok {
            self.program_brk = new_brk;
            Some(old_brk)
        } else {
            None
        }
    }
}

} // verus!
