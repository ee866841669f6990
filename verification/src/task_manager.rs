//! The scheduler: the task list, the current-task index, round-robin
//! selection, status transitions, and per-task accounting.
//!
//! The raw register switch itself is hardware work: the scheduler
//! decides and records a transition, and hands back which contexts to
//! switch between.

use vstd::prelude::*;

use crate::addr::{VirtAddr, VirtPageNum};
use crate::frame_allocator::FrameAllocator;
use crate::memory_set::{area_overlaps, spec_ceil_vpn, MapArea};
use crate::syscall::TimeVal;
use crate::task::{TaskControlBlock, TaskStatus};

verus! {

/// The task index reached from `cur` after `j` forward steps in a ring
/// of `n` tasks (`1 <= j <= n`).
pub open spec fn step_idx(cur: int, j: int, n: int) -> int {
    if cur + j < n {
        cur + j
    } else {
        cur + j - n
    }
}

/// The first schedulable task at or after `j` steps from `cur`, in
/// circular order: the round-robin choice.
pub open spec fn find_from(tasks: Seq<TaskControlBlock>, cur: int, j: int) -> Option<int>
    decreases tasks.len() + 1 - j,
{
    if j < 1 || j > tasks.len() {
        None
    } else if tasks[step_idx(cur, j, tasks.len() as int)].task_status.schedulable() {
        Some(step_idx(cur, j, tasks.len() as int))
    } else {
        find_from(tasks, cur, j + 1)
    }
}

/// The single global scheduler: all task control blocks and the index of
/// the task currently on the CPU.
pub struct TaskManager {
    /// Total number of tasks; fixed at startup.
    pub num_app: usize,
    /// The task control blocks.
    pub tasks: Vec<TaskControlBlock>,
    /// Index of the current task, always in range.
    pub current_task: usize,
}

impl TaskManager {
    /// The scheduler is consistent; in particular a task marked Running
    /// can only be the current one, so at most one task is ever Running.
    pub open spec fn wf(self) -> bool {
        &&& self.tasks@.len() == self.num_app
        &&& 0 < self.num_app <= 0x1000_0000
        &&& self.current_task < self.num_app
        &&& forall|i: int| 0 <= i < self.tasks@.len() ==> (#[trigger] self.tasks@[i]).wf()
        &&& forall|i: int|
            0 <= i < self.tasks@.len() && (#[trigger] self.tasks@[i]).task_status
                == TaskStatus::Running ==> i == self.current_task
    }

    /// The round-robin choice from the current position.
    pub open spec fn spec_next_task(self) -> Option<int> {
        find_from(self.tasks@, self.current_task as int, 1)
    }

    /// The current task's block with its status changed to `st` and
    /// everything else kept.
    pub open spec fn spec_current_marked(self, st: TaskStatus) -> TaskControlBlock {
        TaskControlBlock { task_status: st, ..self.tasks@[self.current_task as int] }
    }

    /// The round-robin choice made right after the current task's status
    /// changes to `st`: what a suspend or an exit dispatches next.
    pub open spec fn spec_next_after(self, st: TaskStatus) -> Option<int> {
        find_from(
            self.tasks@.update(self.current_task as int, self.spec_current_marked(st)),
            self.current_task as int,
            1,
        )
    }

    /// A scheduler over the given tasks, starting at task zero.
    pub fn new(tasks: Vec<TaskControlBlock>) -> (r: TaskManager)
        requires
            0 < tasks@.len() <= 0x1000_0000,
            forall|i: int| 0 <= i < tasks@.len() ==> (#[trigger] tasks@[i]).wf(),
            forall|i: int|
                0 <= i < tasks@.len() ==> (#[trigger] tasks@[i]).task_status
                    != TaskStatus::Running,
        ensures
            r.wf(),
            r.tasks@ == tasks@,
            r.current_task == 0,
            r.num_app == tasks@.len(),
    {
        let n = tasks.len();
        TaskManager { num_app: n, tasks, current_task: 0 }
    }

    /// Change the status of the current `Running` task into `Ready`.
    /// Only the Running task may be suspended: an Exited task can never
    /// become Ready again.
    pub fn mark_current_suspended(&mut self)
        requires
            old(self).wf(),
            old(self).tasks@[old(self).current_task as int].task_status == TaskStatus::Running,
        ensures
            final (self).wf(),
            final (self).num_app == old(self).num_app,
            final (self).current_task == old(self).current_task,
            final (self).tasks@ == old(self).tasks@.update(
                old(self).current_task as int,
                old(self).spec_current_marked(TaskStatus::Ready),
            ),
            final (self).tasks@[old(self).current_task as int].task_status == TaskStatus::Ready,
            forall|i: int|
                0 <= i < old(self).tasks@.len() && i != old(self).current_task
                    ==> #[trigger] final (self).tasks@[i] == old(self).tasks@[i],
    {
        let cur = self.current_task;
        let t = &mut self.tasks[cur];
        t.task_status = TaskStatus::Ready;
    }

    /// Change the status of the current `Running` task into `Exited`; it
    /// will never be scheduled again.
    pub fn mark_current_exited(&mut self)
        requires
            old(self).wf(),
            old(self).tasks@[old(self).current_task as int].task_status == TaskStatus::Running,
        ensures
            final (self).wf(),
            final (self).num_app == old(self).num_app,
            final (self).current_task == old(self).current_task,
            final (self).tasks@ == old(self).tasks@.update(
                old(self).current_task as int,
                old(self).spec_current_marked(TaskStatus::Exited),
            ),
            final (self).tasks@[old(self).current_task as int].task_status == TaskStatus::Exited,
            forall|i: int|
                0 <= i < old(self).tasks@.len() && i != old(self).current_task
                    ==> #[trigger] final (self).tasks@[i] == old(self).tasks@[i],
    {
        let cur = self.current_task;
        let t = &mut self.tasks[cur];
        t.task_status = TaskStatus::Exited;
    }

    /// Scan the task ring starting right after the current task and
    /// return the first `Ready` or `Init` task, with its status. Nothing
    /// comes back only when no task is schedulable any more.
    pub fn find_next_task(&self) -> (r: Option<(usize, TaskStatus)>)
        requires
            self.wf(),
        ensures
            match r {
                Some((id, st)) => {
                    &&& id < self.num_app
                    &&& self.spec_next_task() == Some(id as int)
                    &&& st == self.tasks@[id as int].task_status
                    &&& st.schedulable()
                },
                None => self.spec_next_task() is None,
            },
    {
        let n = self.num_app;
        let cur = self.current_task;
        let mut j: usize = 1;
        while j <= n
            invariant
                self.wf(),
                n == self.num_app,
                cur == self.current_task,
                1 <= j <= n + 1,
                find_from(self.tasks@, cur as int, j as int) == self.spec_next_task(),
            decreases n + 1 - j,
        {
            let mut id = cur + j;
            if id >= n {
                id = id - n;
            }
            proof {
                assert(id == step_idx(cur as int, j as int, n as int));
            }
            let st = self.tasks[id].task_status;
            if st == TaskStatus::Ready || st == TaskStatus::Init {
                return Some((id, st));
            }
            j = j + 1;
        }
        None
    }

    /// Select task zero, stamp its start time, mark it Running, and hand
    /// back its index for the very first context switch.
    pub fn run_first_task(&mut self, now: TimeVal) -> (r: usize)
        requires
            old(self).wf(),
            now.wf(),
            forall|i: int|
                0 <= i < old(self).tasks@.len() ==> (#[trigger] old(self).tasks@[i]).task_status
                    != TaskStatus::Running,
        ensures
            final (self).wf(),
            r == 0,
            final (self).num_app == old(self).num_app,
            final (self).current_task == 0,
            final (self).tasks@[0].task_status == TaskStatus::Running,
            final (self).tasks@[0].start_up_time == now,
            forall|i: int|
                0 < i < old(self).tasks@.len() ==> #[trigger] final (self).tasks@[i] == old(
                    self,
                ).tasks@[i],
    {
        self.current_task = 0;
        let t = &mut self.tasks[0];
        t.start_up_time = now;
        t.task_status = TaskStatus::Running;
        0
    }

    /// Switch from the current task to the round-robin next one: stamp
    /// its start time on its first-ever dispatch, mark it Running, move
    /// the current index, and hand back the pair of task indices whose
    /// contexts the caller must now switch between. Nothing comes back
    /// only when no task is schedulable: every application has completed.
    pub fn run_next_task(&mut self, now: TimeVal) -> (r: Option<(usize, usize)>)
        requires
            old(self).wf(),
            now.wf(),
            old(self).tasks@[old(self).current_task as int].task_status != TaskStatus::Running,
        ensures
            final (self).wf(),
            final (self).num_app == old(self).num_app,
            match r {
                Some(pair) => {
                    &&& pair.0 == old(self).current_task
                    &&& pair.1 < old(self).num_app
                    &&& old(self).spec_next_task() == Some(pair.1 as int)
                    &&& old(self).tasks@[pair.1 as int].task_status.schedulable()
                    &&& final (self).current_task == pair.1
                    &&& final (self).tasks@[pair.1 as int].task_status == TaskStatus::Running
                    &&& (old(self).tasks@[pair.1 as int].task_status == TaskStatus::Init
                        ==> final (self).tasks@[pair.1 as int].start_up_time == now)
                    &&& (old(self).tasks@[pair.1 as int].task_status != TaskStatus::Init
                        ==> final (self).tasks@[pair.1 as int].start_up_time == old(
                        self,
                    ).tasks@[pair.1 as int].start_up_time)
                    &&& forall|i: int|
                        0 <= i < old(self).tasks@.len() && i != pair.1
                            ==> #[trigger] final (self).tasks@[i] == old(self).tasks@[i]
                    &&& tcb_same_but_status(
                        old(self).tasks@[pair.1 as int],
                        final (self).tasks@[pair.1 as int],
                    )
                },
                None => {
                    &&& old(self).spec_next_task() is None
                    &&& final (self).tasks@ == old(self).tasks@
                    &&& final (self).current_task == old(self).current_task
                },
            },
    {
        match self.find_next_task() {
            Some((next, status)) => {
                let current = self.current_task;
                let t = &mut self.tasks[next];
                if status == TaskStatus::Init {
                    t.start_up_time = now;
                }
                t.task_status = TaskStatus::Running;
                self.current_task = next;
                Some((current, next))
            },
            None => None,
        }
    }

    /// The current task's address-space token.
    pub fn get_current_token(&self) -> (r: u64)
        requires
            self.wf(),
        ensures
            r == (8u64 << 60)
                | self.tasks@[self.current_task as int].memory_set.page_table.root_ppn,
    {
        self.tasks[self.current_task].get_user_token()
    }

    /// The physical page of the current task's trap context.
    pub fn get_current_trap_cx(&self) -> (r: u64)
        requires
            self.wf(),
        ensures
            r == self.tasks@[self.current_task as int].trap_cx_ppn,
    {
        self.tasks[self.current_task].get_trap_cx()
    }

    /// Move the current task's program break by `size` bytes.
    pub fn change_current_program_brk(&mut self, alloc: &mut FrameAllocator, size: i32) -> (r:
        Option<u64>)
        requires
            old(self).wf(),
            old(alloc).wf(),
        ensures
            final (self).wf(),
            final (alloc).wf(),
            final (self).num_app == old(self).num_app,
            final (self).current_task == old(self).current_task,
            (r is Some) == old(self).tasks@[old(self).current_task as int].brk_ok(
                *old(alloc),
                size,
            ),
            r matches Some(old_brk) ==> ({
                let t = old(self).tasks@[old(self).current_task as int];
                let ft = final (self).tasks@[old(self).current_task as int];
                &&& old_brk == t.program_brk
                &&& ft.program_brk == t.program_brk + size
                &&& (size >= 0 ==> forall|v: u64|
                    t.memory_set.heap.end_vpn <= v < spec_ceil_vpn(t.program_brk + size)
                        ==> crate::memory_set::pte_maps_fresh(
                        #[trigger] ft.memory_set.page_table.spec_translate(v),
                        crate::memory_set::PERM_R | crate::memory_set::PERM_W
                            | crate::memory_set::PERM_U,
                        old(alloc).end,
                    ))
                &&& (size < 0 ==> forall|v: u64|
                    spec_ceil_vpn(t.program_brk + size) <= v < t.memory_set.heap.end_vpn ==> (
                    #[trigger] ft.memory_set.page_table.spec_translate(v)) is None)
                &&& (size >= 0 ==> forall|v: u64|
                    v < crate::config::VPN_LIMIT && !(t.memory_set.heap.end_vpn <= v
                        < spec_ceil_vpn(t.program_brk + size))
                        ==> #[trigger] ft.memory_set.page_table.spec_translate(v)
                        == t.memory_set.page_table.spec_translate(v))
                &&& (size < 0 ==> forall|v: u64|
                    v < crate::config::VPN_LIMIT && !(spec_ceil_vpn(t.program_brk + size) <= v
                        < t.memory_set.heap.end_vpn)
                        ==> #[trigger] ft.memory_set.page_table.spec_translate(v)
                        == t.memory_set.page_table.spec_translate(v))
            }),
            r is None ==> final (self).tasks@[old(self).current_task as int].program_brk == old(
                self,
            ).tasks@[old(self).current_task as int].program_brk && forall|v: u64| #[trigger]
                final (self).tasks@[old(
                    self,
                ).current_task as int].memory_set.page_table.spec_translate(v) == old(
                    self,
                ).tasks@[old(self).current_task as int].memory_set.page_table.spec_translate(v),
            forall|i: int|
                0 <= i < old(self).tasks@.len() && i != old(self).current_task
                    ==> #[trigger] final (self).tasks@[i] == old(self).tasks@[i],
            final (self).tasks@[old(self).current_task as int].task_status == old(self).tasks@[old(
                self,
            ).current_task as int].task_status,
    {
        let cur = self.current_task;
        let t = &mut self.tasks[cur];
        t.change_program_brk(alloc, size)
    }

    /// Record one more call of syscall `id` for the current task.
    pub fn update_syscall_cnt(&mut self, syscall_id: usize)
        requires
            old(self).wf(),
            syscall_id < crate::config::MAX_SYSCALL_NUM,
            old(self).tasks@[old(self).current_task as int].syscall_cnt@[syscall_id as int]
                < u32::MAX,
        ensures
            final (self).wf(),
            final (self).num_app == old(self).num_app,
            final (self).current_task == old(self).current_task,
            final (self).tasks@[old(self).current_task as int].syscall_cnt@ == old(
                self,
            ).tasks@[old(self).current_task as int].syscall_cnt@.update(
                syscall_id as int,
                (old(self).tasks@[old(self).current_task as int].syscall_cnt@[syscall_id as int]
                    + 1) as u32,
            ),
            forall|i: int|
                0 <= i < old(self).tasks@.len() && i != old(self).current_task
                    ==> #[trigger] final (self).tasks@[i] == old(self).tasks@[i],
            final (self).tasks@[old(self).current_task as int].task_status == old(self).tasks@[old(
                self,
            ).current_task as int].task_status,
    {
        let cur = self.current_task;
        let t = &mut self.tasks[cur];
        t.update_syscall_cnt(syscall_id);
    }
}

/// The two blocks agree on everything but the lifecycle status and the
/// start timestamp.
pub open spec fn tcb_same_but_status(a: TaskControlBlock, b: TaskControlBlock) -> bool {
    &&& a.task_cx == b.task_cx
    &&& a.memory_set == b.memory_set
    &&& a.trap_cx_ppn == b.trap_cx_ppn
    &&& a.base_size == b.base_size
    &&& a.heap_bottom == b.heap_bottom
    &&& a.program_brk == b.program_brk
    &&& a.syscall_cnt@ == b.syscall_cnt@
}

/// Round-robin fairness: when every task is schedulable, the task
/// chosen from position `cur` is exactly the next one in the ring.
pub proof fn lemma_round_robin(tm: TaskManager)
    requires
        tm.wf(),
        forall|i: int|
            0 <= i < tm.tasks@.len() ==> (#[trigger] tm.tasks@[i]).task_status.schedulable(),
    ensures
        tm.spec_next_task() == Some(
            step_idx(tm.current_task as int, 1, tm.tasks@.len() as int),
        ),
{
    assert(tm.tasks@[step_idx(tm.current_task as int, 1, tm.tasks@.len() as int)]
        .task_status.schedulable());
}

/// The chosen task is the first schedulable one: every strictly earlier
/// position in the ring holds a task that is not schedulable.
pub proof fn lemma_next_task_first(tasks: Seq<TaskControlBlock>, cur: int, j: int, chosen: int)
    requires
        1 <= j <= tasks.len(),
        find_from(tasks, cur, j) == Some(chosen),
    ensures
        exists|d: int|
            j <= d <= tasks.len() && chosen == step_idx(cur, d, tasks.len() as int) && (forall|
                jj: int,
            |
                j <= jj < d ==> !(#[trigger] tasks[step_idx(cur, jj, tasks.len() as int)])
                    .task_status.schedulable()),
    decreases tasks.len() - j,
{
    let n = tasks.len() as int;
    if tasks[step_idx(cur, j, n)].task_status.schedulable() {
        let d = j;
        assert(j <= d <= n && chosen == step_idx(cur, d, n) && (forall|jj: int|
            j <= jj < d ==> !(#[trigger] tasks[step_idx(cur, jj, n)])
                .task_status.schedulable()));
    } else {
        assert(j < n) by {
            if j == n {
                assert(find_from(tasks, cur, j + 1) is None);
            }
        }
        lemma_next_task_first(tasks, cur, j + 1, chosen);
        let d2 = choose|d2: int|
            j + 1 <= d2 <= n && chosen == step_idx(cur, d2, n) && (forall|jj: int|
                j + 1 <= jj < d2 ==> !(#[trigger] tasks[step_idx(cur, jj, n)])
                    .task_status.schedulable());
        assert(j <= d2 <= n && chosen == step_idx(cur, d2, n) && (forall|jj: int|
            j <= jj < d2 ==> !(#[trigger] tasks[step_idx(cur, jj, n)])
                .task_status.schedulable()));
    }
}

/// The scheduler keeps at most one task Running: a Running task can
/// only be the current one.
pub proof fn lemma_single_running(tm: TaskManager, i: int, j: int)
    requires
        tm.wf(),
        0 <= i < tm.tasks@.len(),
        0 <= j < tm.tasks@.len(),
        i != j,
    ensures
        !(tm.tasks@[i].task_status == TaskStatus::Running && tm.tasks@[j].task_status
            == TaskStatus::Running),
{
}


impl TaskManager {
    /// Whether a region of the current task's space overlaps `[start, end)`.
    pub fn is_conflict(&self, start: VirtPageNum, end: VirtPageNum) -> (r: bool)
        requires
            self.wf(),
        ensures
            r == ((exists|i: int|
                0 <= i < self.tasks@[self.current_task as int].memory_set.areas@.len()
                    && area_overlaps(
                    #[trigger] self.tasks@[self.current_task as int].memory_set.areas@[i],
                    start.0,
                    end.0,
                )) || area_overlaps(
                self.tasks@[self.current_task as int].memory_set.heap,
                start.0,
                end.0,
            )),
    {
        self.tasks[self.current_task].memory_set.is_conflict(start, end)
    }

    /// Whether the current task's space maps the whole range `[start, end)`:
    /// zero when it does, negative when some page is missing.
    pub fn is_vmm_mapped(&self, start: VirtPageNum, end: VirtPageNum) -> (r: isize)
        requires
            self.wf(),
            start.0 <= end.0,
        ensures
            r == 0 <==> (forall|v: u64|
                start.0 <= v < end.0 ==> (#[trigger] self.tasks@[self.current_task as int]
                    .memory_set.page_table.spec_translate(v)) is Some),
            r == 0 || r == -1,
    {
        self.tasks[self.current_task].memory_set.is_vmm_mapped(start, end)
    }

    /// Map `len` bytes of fresh user-accessible frames at `start` in the
    /// current task's space, with the permissions of `port`.
    pub fn mmap(&mut self, alloc: &mut FrameAllocator, start: u64, len: u64, port: u64) -> (r:
        isize)
        requires
            old(self).wf(),
            old(alloc).wf(),
        ensures
            final (self).wf(),
            final (alloc).wf(),
            final (alloc).base == old(alloc).base,
            final (alloc).end == old(alloc).end,
            final (self).num_app == old(self).num_app,
            final (self).current_task == old(self).current_task,
            forall|i: int|
                0 <= i < old(self).tasks@.len() && i != old(self).current_task
                    ==> #[trigger] final (self).tasks@[i] == old(self).tasks@[i],
            r == 0 || r == -1,
            (r == 0) == old(self).tasks@[old(self).current_task as int].memory_set.mmap_ok(
                *old(alloc),
                start,
                len,
                port,
            ),
            final (self).tasks@[old(self).current_task as int].task_status == old(self).tasks@[old(
                self,
            ).current_task as int].task_status,
            r == 0 && len > 0 ==> forall|v: u64|
                start / crate::config::PAGE_SIZE <= v < spec_ceil_vpn(start + len)
                    ==> crate::memory_set::pte_maps_fresh(
                    #[trigger] final (self).tasks@[old(
                        self,
                    ).current_task as int].memory_set.page_table.spec_translate(v),
                    crate::memory_set::MemorySet::spec_port_perm(port),
                    old(alloc).end,
                ),
            r == 0 && len > 0 ==> forall|v: u64|
                v < crate::config::VPN_LIMIT && !(start / crate::config::PAGE_SIZE <= v
                    < spec_ceil_vpn(start + len)) ==> #[trigger] final (self).tasks@[old(
                    self,
                ).current_task as int].memory_set.page_table.spec_translate(v) == old(
                    self,
                ).tasks@[old(self).current_task as int].memory_set.page_table.spec_translate(v),
            r == 0 && len == 0 ==> forall|v: u64| #[trigger]
                final (self).tasks@[old(
                    self,
                ).current_task as int].memory_set.page_table.spec_translate(v) == old(
                    self,
                ).tasks@[old(self).current_task as int].memory_set.page_table.spec_translate(v),
            r == -1 ==> forall|v: u64| #[trigger]
                final (self).tasks@[old(
                    self,
                ).current_task as int].memory_set.page_table.spec_translate(v) == old(
                    self,
                ).tasks@[old(self).current_task as int].memory_set.page_table.spec_translate(v),
    {
        let cur = self.current_task;
        let t = &mut self.tasks[cur];
        t.memory_set.mmap(alloc, start, len, port)
    }

    /// Unmap the whole page range of `[start, start + len)` in the
    /// current task's space.
    pub fn munmap(&mut self, alloc: &mut FrameAllocator, start: u64, len: u64) -> (r: isize)
        requires
            old(self).wf(),
            old(alloc).wf(),
        ensures
            final (self).wf(),
            final (alloc).wf(),
            final (alloc).base == old(alloc).base,
            final (alloc).end == old(alloc).end,
            final (self).num_app == old(self).num_app,
            final (self).current_task == old(self).current_task,
            forall|i: int|
                0 <= i < old(self).tasks@.len() && i != old(self).current_task
                    ==> #[trigger] final (self).tasks@[i] == old(self).tasks@[i],
            r == 0 || r == -1,
            final (alloc).spec_free_count() >= old(alloc).spec_free_count(),
            (r == 0) == old(self).tasks@[old(self).current_task as int].memory_set.munmap_ok(
                start,
                len,
            ),
            r == 0 ==> forall|v: u64|
                v < crate::config::VPN_LIMIT && !(start / crate::config::PAGE_SIZE <= v
                    < spec_ceil_vpn(start + len)) ==> #[trigger] final (self).tasks@[old(
                    self,
                ).current_task as int].memory_set.page_table.spec_translate(v) == old(
                    self,
                ).tasks@[old(self).current_task as int].memory_set.page_table.spec_translate(v),
            r == 0 ==> (crate::memory_set::range_frames_allocated(
                old(self).tasks@[old(self).current_task as int].memory_set.page_table,
                *old(alloc),
                (start / crate::config::PAGE_SIZE) as u64,
                spec_ceil_vpn(start + len) as u64,
            ) && crate::memory_set::range_frames_distinct(
                old(self).tasks@[old(self).current_task as int].memory_set.page_table,
                (start / crate::config::PAGE_SIZE) as u64,
                spec_ceil_vpn(start + len) as u64,
            ) ==> final (alloc).spec_free_count() == old(alloc).spec_free_count() + (
            spec_ceil_vpn(start + len) - start / crate::config::PAGE_SIZE)),
            final (self).tasks@[old(self).current_task as int].task_status == old(self).tasks@[old(
                self,
            ).current_task as int].task_status,
            r == 0 ==> forall|v: u64|
                start / crate::config::PAGE_SIZE <= v < spec_ceil_vpn(start + len) ==> (
                #[trigger] final (self).tasks@[old(
                    self,
                ).current_task as int].memory_set.page_table.spec_translate(v)) is None,
            r == -1 ==> forall|v: u64| #[trigger]
                final (self).tasks@[old(
                    self,
                ).current_task as int].memory_set.page_table.spec_translate(v) == old(
                    self,
                ).tasks@[old(self).current_task as int].memory_set.page_table.spec_translate(v),
    {
        let cur = self.current_task;
        let t = &mut self.tasks[cur];
        t.memory_set.munmap(alloc, start, len)
    }
}


impl TaskManager {
    /// Register and map a fresh frame-backed region in the current
    /// task's space. The range must not overlap an existing region and
    /// the pool must have room for each page and its table nodes.
    pub fn alloc_mm(&mut self, alloc: &mut FrameAllocator, start: VirtAddr, end: VirtAddr,
        port: u8)
        requires
            old(self).wf(),
            old(alloc).wf(),
            start.0 <= end.0,
            end.0 <= crate::config::VA_LIMIT,
            !(exists|i: int|
                0 <= i < old(self).tasks@[old(self).current_task as int].memory_set.areas@.len()
                    && area_overlaps(
                    #[trigger] old(self).tasks@[old(
                        self,
                    ).current_task as int].memory_set.areas@[i],
                    start.spec_floor(),
                    end.spec_ceil(),
                )),
            !area_overlaps(
                old(self).tasks@[old(self).current_task as int].memory_set.heap,
                start.spec_floor(),
                end.spec_ceil(),
            ),
            old(alloc).spec_free_count() >= 3 * (end.spec_ceil() - start.spec_floor()),
        ensures
            final (self).wf(),
            final (alloc).wf(),
            final (self).num_app == old(self).num_app,
            final (self).current_task == old(self).current_task,
            forall|v: u64|
                start.spec_floor() <= v < end.spec_ceil()
                    ==> crate::memory_set::pte_maps_fresh(
                    #[trigger] final (self).tasks@[old(
                        self,
                    ).current_task as int].memory_set.page_table.spec_translate(v),
                    port,
                    old(alloc).end,
                ),
            forall|v: u64|
                v < crate::config::VPN_LIMIT && !(start.spec_floor() <= v < end.spec_ceil())
                    ==> #[trigger] final (self).tasks@[old(
                    self,
                ).current_task as int].memory_set.page_table.spec_translate(v) == old(
                    self,
                ).tasks@[old(self).current_task as int].memory_set.page_table.spec_translate(v),
            final (self).tasks@[old(self).current_task as int].memory_set.areas@ == old(
                self,
            ).tasks@[old(self).current_task as int].memory_set.areas@.push(
                (MapArea { start_vpn: start.spec_floor(), end_vpn: end.spec_ceil(), perm: port }),
            ),
            final (self).tasks@[old(self).current_task as int].memory_set.heap == old(
                self,
            ).tasks@[old(self).current_task as int].memory_set.heap,
            forall|i: int|
                0 <= i < old(self).tasks@.len() && i != old(self).current_task
                    ==> #[trigger] final (self).tasks@[i] == old(self).tasks@[i],
    {
        let cur = self.current_task;
        let t = &mut self.tasks[cur];
        t.memory_set.insert_framed_area(alloc, start, end, port);
    }

    /// Unmap and free the whole page range `[start, end)` of the current
    /// task's space; the range must be entirely mapped.
    pub fn dealloc_mm(&mut self, alloc: &mut FrameAllocator, start: VirtPageNum, end: VirtPageNum)
        requires
            old(self).wf(),
            old(alloc).wf(),
            start.0 <= end.0 <= crate::config::VPN_LIMIT,
            forall|v: u64|
                start.0 <= v < end.0 ==> (#[trigger] old(self).tasks@[old(
                    self,
                ).current_task as int].memory_set.page_table.spec_translate(v)) is Some,
        ensures
            final (self).wf(),
            final (alloc).wf(),
            final (self).num_app == old(self).num_app,
            final (self).current_task == old(self).current_task,
            final (alloc).spec_free_count() >= old(alloc).spec_free_count(),
            forall|v: u64|
                start.0 <= v < end.0 ==> (#[trigger] final (self).tasks@[old(
                    self,
                ).current_task as int].memory_set.page_table.spec_translate(v)) is None,
            forall|v: u64|
                v < crate::config::VPN_LIMIT && !(start.0 <= v < end.0)
                    ==> #[trigger] final (self).tasks@[old(
                    self,
                ).current_task as int].memory_set.page_table.spec_translate(v) == old(
                    self,
                ).tasks@[old(self).current_task as int].memory_set.page_table.spec_translate(v),
            crate::memory_set::range_frames_allocated(
                old(self).tasks@[old(self).current_task as int].memory_set.page_table,
                *old(alloc),
                start.0,
                end.0,
            ) && crate::memory_set::range_frames_distinct(
                old(self).tasks@[old(self).current_task as int].memory_set.page_table,
                start.0,
                end.0,
            ) ==> final (alloc).spec_free_count() == old(alloc).spec_free_count() + (end.0
                - start.0),
            forall|i: int|
                0 <= i < old(self).tasks@.len() && i != old(self).current_task
                    ==> #[trigger] final (self).tasks@[i] == old(self).tasks@[i],
    {
        let cur = self.current_task;
        let t = &mut self.tasks[cur];
        t.memory_set.free(alloc, start, end);
    }

    /// Write `data` into the current task's space at user address `ptr`,
    /// through the translation layer. The target range must be alias-free,
    /// as every space assembled by this library's mapping operations is.
    pub fn write_to_cur(&self, mem: &mut crate::phys_mem::PhysMemory, ptr: u64, data: &Vec<u8>)
        -> (r: Result<(), crate::page_table::MapError>)
        requires
            self.wf(),
            old(mem).wf(),
            ptr + data@.len() <= crate::config::VA_LIMIT,
            crate::page_table::pt_fits(
                self.tasks@[self.current_task as int].memory_set.page_table,
                *old(mem),
            ),
            crate::page_table::range_no_alias(
                self.tasks@[self.current_task as int].memory_set.page_table,
                ptr,
                data@.len() as u64,
            ),
        ensures
            final (mem).wf(),
            final (mem).spec_num_pages() == old(mem).spec_num_pages(),
            match r {
                Ok(()) => forall|i: int|
                    0 <= i < data@.len() ==> crate::page_table::byte_at(
                        self.tasks@[self.current_task as int].memory_set.page_table,
                        *final (mem),
                        (ptr + i) as u64,
                        #[trigger] data@[i],
                    ),
                Err(crate::page_table::MapError::NotMapped) => {
                    &&& (exists|i: int|
                        0 <= i < data@.len() && (#[trigger] crate::page_table::spec_paddr(
                            self.tasks@[self.current_task as int].memory_set.page_table,
                            (ptr + i) as u64,
                        )) is None)
                    &&& *final (mem) == *old(mem)
                },
                _ => false,
            },
    {
        let cur = self.current_task;
        crate::page_table::write_translated_buffer(
            &self.tasks[cur].memory_set.page_table,
            mem,
            ptr,
            data,
        )
    }

    /// A snapshot of the current task's accounting: status, the syscall
    /// histogram, and the milliseconds elapsed since its first dispatch,
    /// sampled against the fresh timestamp `now`.
    pub fn get_task_info(&self, now: TimeVal) -> (r: crate::syscall::TaskInfo)
        requires
            self.wf(),
            now.wf(),
            self.tasks@[self.current_task as int].start_up_time.total_us() <= now.total_us(),
        ensures
            r.status == self.tasks@[self.current_task as int].task_status,
            r.syscall_times@ == self.tasks@[self.current_task as int].syscall_cnt@,
            r.time == now.total_us() / 1000 - self.tasks@[self.current_task as int]
                .start_up_time.total_us() / 1000,
    {
        let t = &self.tasks[self.current_task];
        let elapsed = now.diff_ms(t.start_up_time);
        crate::syscall::TaskInfo::new(t.task_status, &t.syscall_cnt, elapsed)
    }
}

} // verus!
