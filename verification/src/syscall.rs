//! The process-management syscall surface: time, task accounting, and
//! the memory-mapping calls, on top of the scheduler and the spaces.

use vstd::prelude::*;

use crate::config::{MAX_SYSCALL_NUM, VA_LIMIT};
use crate::frame_allocator::FrameAllocator;
use crate::phys_mem::PhysMemory;
use crate::task::{TaskControlBlock, TaskStatus};
use crate::task_manager::TaskManager;

verus! {

/// A time value: whole seconds plus the fractional part in microseconds.
#[derive(Clone, Copy, PartialEq, Eq, Structural, Debug)]
pub struct TimeVal {
    /// The seconds part.
    pub sec: u64,
    /// The microseconds part, below one million.
    pub usec: u64,
}

impl TimeVal {
    /// The value as a total count of microseconds.
    pub open spec fn total_us(self) -> int {
        self.sec * 1_000_000 + self.usec
    }

    /// The value stays inside the machine word.
    pub open spec fn wf(self) -> bool {
        self.sec * 1_000_000 + self.usec <= u64::MAX
    }

    /// Split a microsecond count into seconds and microseconds.
    pub fn from_us(us: u64) -> (r: TimeVal)
        ensures
            r.sec == us / 1_000_000,
            r.usec == us % 1_000_000,
            r.total_us() == us,
            r.wf(),
    {
        TimeVal { sec: us / 1_000_000, usec: us % 1_000_000 }
    }

    /// Milliseconds elapsed from `earlier` to `self`, floor division.
    pub fn diff_ms(self, earlier: TimeVal) -> (r: u64)
        requires
            self.wf(),
            earlier.wf(),
            earlier.total_us() <= self.total_us(),
        ensures
            r == self.total_us() / 1000 - earlier.total_us() / 1000,
    {
        let self_ms = (self.sec * 1_000_000 + self.usec) / 1000;
        let rhs_ms = (earlier.sec * 1_000_000 + earlier.usec) / 1000;
        proof {
            assert(self.sec * 1_000_000 + self.usec >= earlier.sec * 1_000_000 + earlier.usec);
            vstd::arithmetic::div_mod::lemma_div_is_ordered(
                earlier.total_us(),
                self.total_us(),
                1000,
            );
        }
        self_ms - rhs_ms
    }

    /// Serialize the two words, little endian.
    pub fn to_bytes(&self) -> (r: Vec<u8>)
        ensures
            r@ == vstd::bytes::spec_u64_to_le_bytes(self.sec) + vstd::bytes::spec_u64_to_le_bytes(
                self.usec,
            ),
            r@.len() == 16,
    {
        let mut v = vstd::bytes::u64_to_le_bytes(self.sec);
        let mut b = vstd::bytes::u64_to_le_bytes(self.usec);
        v.append(&mut b);
        v
    }
}

impl Default for TimeVal {
    /// The zero time value.
    fn default() -> (r: Self)
        ensures
            r.sec == 0,
            r.usec == 0,
    {
        TimeVal { sec: 0, usec: 0 }
    }
}


/// A snapshot of one task's accounting, as handed to user space.
#[derive(Clone, Debug)]
pub struct TaskInfo {
    /// The task's lifecycle status at the time of the snapshot.
    pub status: TaskStatus,
    /// A copy of the per-syscall invocation counts.
    pub syscall_times: Vec<u32>,
    /// Milliseconds elapsed since the task's first dispatch.
    pub time: u64,
}

impl TaskInfo {
    /// Construct a snapshot from a status, a histogram, and an elapsed
    /// time.
    pub fn new(status: TaskStatus, syscall_times: &Vec<u32>, time: u64) -> (r: Self)
        ensures
            r.status == status,
            r.syscall_times@ == syscall_times@,
            r.time == time,
    {
        TaskInfo { status, syscall_times: syscall_times.clone(), time }
    }

    /// Serialize the snapshot: the status code, the histogram entries,
    /// and the elapsed time, each little endian.
    pub fn to_bytes(&self) -> (r: Vec<u8>)
        requires
            self.syscall_times@.len() == MAX_SYSCALL_NUM,
        ensures
            r@.len() == 8 + 4 * MAX_SYSCALL_NUM + 8,
            r@.subrange(0, 8) == vstd::bytes::spec_u64_to_le_bytes(self.status.spec_code()),
            forall|k: int|
                0 <= k < MAX_SYSCALL_NUM ==> #[trigger] r@.subrange(8 + 4 * k, 12 + 4 * k)
                    == vstd::bytes::spec_u32_to_le_bytes(self.syscall_times@[k]),
            r@.subrange(8 + 4 * MAX_SYSCALL_NUM as int, 16 + 4 * MAX_SYSCALL_NUM as int)
                == vstd::bytes::spec_u64_to_le_bytes(self.time),
    {
        let mut v = vstd::bytes::u64_to_le_bytes(self.status.code());
        let mut k: usize = 0;
        while k < MAX_SYSCALL_NUM
            invariant
                self.syscall_times@.len() == MAX_SYSCALL_NUM,
                k <= MAX_SYSCALL_NUM,
                v@.len() == 8 + 4 * k,
                v@.subrange(0, 8) == vstd::bytes::spec_u64_to_le_bytes(self.status.spec_code()),
                forall|j: int|
                    0 <= j < k ==> #[trigger] v@.subrange(8 + 4 * j, 12 + 4 * j)
                        == vstd::bytes::spec_u32_to_le_bytes(self.syscall_times@[j]),
            decreases MAX_SYSCALL_NUM - k,
        {
            let ghost oldv = v@;
            let mut b = vstd::bytes::u32_to_le_bytes(self.syscall_times[k]);
            v.append(&mut b);
            proof {
                assert(v@.subrange(0, 8) =~= oldv.subrange(0, 8));
                assert forall|j: int|
                    0 <= j < k + 1 implies #[trigger] v@.subrange(8 + 4 * j, 12 + 4 * j)
                    == vstd::bytes::spec_u32_to_le_bytes(self.syscall_times@[j]) by {
                    if j < k {
                        assert(v@.subrange(8 + 4 * j, 12 + 4 * j) =~= oldv.subrange(
                            8 + 4 * j,
                            12 + 4 * j,
                        ));
                    } else {
                        assert(v@.subrange(8 + 4 * j, 12 + 4 * j)
                            =~= vstd::bytes::spec_u32_to_le_bytes(self.syscall_times@[j]));
                    }
                }
            }
            k = k + 1;
        }
        let ghost oldv = v@;
        let mut b = vstd::bytes::u64_to_le_bytes(self.time);
        v.append(&mut b);
        proof {
            assert(v@.subrange(0, 8) =~= oldv.subrange(0, 8));
            assert forall|j: int|
                0 <= j < MAX_SYSCALL_NUM implies #[trigger] v@.subrange(8 + 4 * j, 12 + 4 * j)
                == vstd::bytes::spec_u32_to_le_bytes(self.syscall_times@[j]) by {
                assert(v@.subrange(8 + 4 * j, 12 + 4 * j) =~= oldv.subrange(8 + 4 * j, 12 + 4 * j));
            }
            assert(v@.subrange(8 + 4 * MAX_SYSCALL_NUM as int, 16 + 4 * MAX_SYSCALL_NUM as int)
                =~= vstd::bytes::spec_u64_to_le_bytes(self.time));
        }
        v
    }
}

/// Elapsed time is never negative and never decreases: with the start
/// stamp fixed, a later sample of the clock reports at least as many
/// whole milliseconds.
pub proof fn lemma_elapsed_monotonic(start: TimeVal, first: TimeVal, second: TimeVal)
    requires
        start.wf(),
        first.wf(),
        second.wf(),
        start.total_us() <= first.total_us() <= second.total_us(),
    ensures
        0 <= first.total_us() / 1000 - start.total_us() / 1000,
        first.total_us() / 1000 - start.total_us() / 1000 <= second.total_us() / 1000
            - start.total_us() / 1000,
{
    vstd::arithmetic::div_mod::lemma_div_is_ordered(start.total_us(), first.total_us(), 1000);
    vstd::arithmetic::div_mod::lemma_div_is_ordered(first.total_us(), second.total_us(), 1000);
}

/// Exit the current task and pick the next one: the exiting task becomes
/// `Exited`, terminally, and the round-robin successor (never the exited
/// task itself) is dispatched and comes back as a context-switch request.
/// Nothing comes back exactly when no task is schedulable any more:
/// normal shutdown, with every block untouched beyond the exit mark.
pub fn sys_exit(tm: &mut TaskManager, _exit_code: i32, now: TimeVal) -> (r: Option<(usize, usize)>)
    requires
        old(tm).wf(),
        now.wf(),
        old(tm).tasks@[old(tm).current_task as int].task_status == TaskStatus::Running,
    ensures
        final (tm).wf(),
        final (tm).num_app == old(tm).num_app,
        final (tm).tasks@[old(tm).current_task as int].task_status == TaskStatus::Exited,
        match r {
            Some(pair) => {
                &&& pair.0 == old(tm).current_task
                &&& pair.1 != pair.0
                &&& pair.1 < old(tm).num_app
                &&& old(tm).spec_next_after(TaskStatus::Exited) == Some(pair.1 as int)
                &&& final (tm).current_task == pair.1
                &&& final (tm).tasks@[pair.1 as int].task_status == TaskStatus::Running
                &&& forall|i: int|
                    0 <= i < old(tm).tasks@.len() && i != pair.0 && i != pair.1
                        ==> #[trigger] final (tm).tasks@[i] == old(tm).tasks@[i]
            },
            None => {
                &&& old(tm).spec_next_after(TaskStatus::Exited) is None
                &&& final (tm).current_task == old(tm).current_task
                &&& final (tm).tasks@ == old(tm).tasks@.update(
                    old(tm).current_task as int,
                    old(tm).spec_current_marked(TaskStatus::Exited),
                )
            },
        },
{
    tm.mark_current_exited();
    let ghost tm1 = *tm;
    let r = tm.run_next_task(now);
    proof {
        assert(tm1.spec_next_task() == old(tm).spec_next_after(TaskStatus::Exited));
    }
    r
}

/// Yield the CPU: the current task becomes `Ready` (before the handoff,
/// so re-entrant scheduler lookups see consistent state) and the
/// round-robin successor is dispatched — the same task again only when
/// nothing else is schedulable. The syscall result is always zero.
pub fn sys_yield(tm: &mut TaskManager, now: TimeVal) -> (r: (isize, Option<(usize, usize)>))
    requires
        old(tm).wf(),
        now.wf(),
        old(tm).tasks@[old(tm).current_task as int].task_status == TaskStatus::Running,
    ensures
        final (tm).wf(),
        final (tm).num_app == old(tm).num_app,
        r.0 == 0,
        match r.1 {
            Some(pair) => {
                &&& pair.0 == old(tm).current_task
                &&& pair.1 < old(tm).num_app
                &&& old(tm).spec_next_after(TaskStatus::Ready) == Some(pair.1 as int)
                &&& final (tm).current_task == pair.1
                &&& final (tm).tasks@[pair.1 as int].task_status == TaskStatus::Running
                &&& (pair.1 != pair.0 ==> final (tm).tasks@[pair.0 as int].task_status
                    == TaskStatus::Ready)
                &&& forall|i: int|
                    0 <= i < old(tm).tasks@.len() && i != pair.0 && i != pair.1
                        ==> #[trigger] final (tm).tasks@[i] == old(tm).tasks@[i]
            },
            None => false,
        },
{
    tm.mark_current_suspended();
    let ghost tm1 = *tm;
    let r = tm.run_next_task(now);
    proof {
        assert(tm1.spec_next_task() == old(tm).spec_next_after(TaskStatus::Ready));
        // A yielding task is Ready, hence schedulable: some task can
        // always be chosen.
        if r is None {
            let cur = tm.current_task as int;
            let n = tm.tasks@.len() as int;
            assert(tm.tasks@[crate::task_manager::step_idx(cur, n, n)].task_status
                == TaskStatus::Ready);
            lemma_find_from_finds(tm.tasks@, cur, 1, n);
            assert(false);
        }
    }
    (0, r)
}

/// When position `d` (steps from `cur`) holds a schedulable task, the
/// scan from any earlier position finds one.
proof fn lemma_find_from_finds(tasks: Seq<TaskControlBlock>, cur: int, j: int, d: int)
    requires
        1 <= j <= d <= tasks.len(),
        tasks[crate::task_manager::step_idx(cur, d, tasks.len() as int)]
            .task_status.schedulable(),
    ensures
        crate::task_manager::find_from(tasks, cur, j) is Some,
    decreases d - j,
{
    if j < d {
        if !tasks[crate::task_manager::step_idx(cur, j, tasks.len() as int)]
            .task_status.schedulable() {
            lemma_find_from_finds(tasks, cur, j + 1, d);
        }
    }
}

/// Write the sampled time, split into seconds and microseconds, into the
/// current task's space at `ts`. Zero on success; negative when the
/// target range is out of range or not mapped.
pub fn sys_get_time(tm: &TaskManager, mem: &mut PhysMemory, ts: u64, _tz: usize, now_us: u64) -> (r:
    isize)
    requires
        tm.wf(),
        old(mem).wf(),
        crate::page_table::pt_fits(
            tm.tasks@[tm.current_task as int].memory_set.page_table,
            *old(mem),
        ),
        crate::page_table::range_no_alias(
            tm.tasks@[tm.current_task as int].memory_set.page_table,
            ts,
            16,
        ),
    ensures
        final (mem).wf(),
        final (mem).spec_num_pages() == old(mem).spec_num_pages(),
        r == 0 || r == -1,
        (r == 0) == (ts + 16 <= VA_LIMIT && forall|i: int|
            0 <= i < 16 ==> (#[trigger] crate::page_table::spec_paddr(
                tm.tasks@[tm.current_task as int].memory_set.page_table,
                (ts + i) as u64,
            )) is Some),
        r == 0 ==> forall|i: int|
            0 <= i < 16 ==> crate::page_table::byte_at(
                tm.tasks@[tm.current_task as int].memory_set.page_table,
                *final (mem),
                (ts + i) as u64,
                #[trigger] spec_time_bytes(now_us)[i],
            ),
        r == -1 ==> *final (mem) == *old(mem),
{
    if ts > VA_LIMIT - 16 {
        return -1;
    }
    let tv = TimeVal::from_us(now_us);
    let bytes = tv.to_bytes();
    let ghost pt = tm.tasks@[tm.current_task as int].memory_set.page_table;
    match tm.write_to_cur(mem, ts, &bytes) {
        Ok(()) => {
            proof {
                assert forall|i: int|
                    0 <= i < 16 implies (#[trigger] crate::page_table::spec_paddr(
                    pt,
                    (ts + i) as u64,
                )) is Some by {
                    assert(crate::page_table::byte_at(pt, *mem, (ts + i) as u64, bytes@[i]));
                }
            }
            0
        },
        Err(_) => -1,
    }
}

/// The byte image `sys_get_time` writes: seconds then microseconds,
/// little endian.
pub open spec fn spec_time_bytes(now_us: u64) -> Seq<u8> {
    vstd::bytes::spec_u64_to_le_bytes((now_us / 1_000_000) as u64)
        + vstd::bytes::spec_u64_to_le_bytes((now_us % 1_000_000) as u64)
}

/// Write the current task's accounting snapshot into its space at `ti`:
/// status code, syscall histogram, and elapsed milliseconds sampled
/// fresh against `now`. Zero on success; negative when the target range
/// is out of range or not mapped.
pub fn sys_task_info(tm: &TaskManager, mem: &mut PhysMemory, ti: u64, now: TimeVal) -> (r:
    isize)
    requires
        tm.wf(),
        now.wf(),
        old(mem).wf(),
        tm.tasks@[tm.current_task as int].start_up_time.total_us() <= now.total_us(),
        crate::page_table::pt_fits(
            tm.tasks@[tm.current_task as int].memory_set.page_table,
            *old(mem),
        ),
        crate::page_table::range_no_alias(
            tm.tasks@[tm.current_task as int].memory_set.page_table,
            ti,
            2016,
        ),
    ensures
        final (mem).wf(),
        final (mem).spec_num_pages() == old(mem).spec_num_pages(),
        r == 0 || r == -1,
        (r == 0) == (ti + 2016 <= VA_LIMIT && forall|i: int|
            0 <= i < 2016 ==> (#[trigger] crate::page_table::spec_paddr(
                tm.tasks@[tm.current_task as int].memory_set.page_table,
                (ti + i) as u64,
            )) is Some),
        r == 0 ==> {
            let pt = tm.tasks@[tm.current_task as int].memory_set.page_table;
            let t = tm.tasks@[tm.current_task as int];
            &&& forall|i: int|
                0 <= i < 8 ==> crate::page_table::byte_at(
                    pt,
                    *final (mem),
                    (ti + i) as u64,
                    #[trigger] vstd::bytes::spec_u64_to_le_bytes(t.task_status.spec_code())[i],
                )
            &&& forall|k: int, i: int|
                0 <= k < MAX_SYSCALL_NUM && 0 <= i < 4 ==> crate::page_table::byte_at(
                    pt,
                    *final (mem),
                    (ti + 8 + 4 * k + i) as u64,
                    #[trigger] vstd::bytes::spec_u32_to_le_bytes(t.syscall_cnt@[k])[i],
                )
            &&& forall|i: int|
                0 <= i < 8 ==> crate::page_table::byte_at(
                    pt,
                    *final (mem),
                    (ti + 2008 + i) as u64,
                    #[trigger] vstd::bytes::spec_u64_to_le_bytes(
                        ((now.total_us() / 1000 - t.start_up_time.total_us() / 1000) as u64),
                    )[i],
                )
        },
        r == -1 ==> *final (mem) == *old(mem),
{
    if ti > VA_LIMIT - 2016 {
        return -1;
    }
    let info = tm.get_task_info(now);
    let bytes = info.to_bytes();
    let ghost pt = tm.tasks@[tm.current_task as int].memory_set.page_table;
    match tm.write_to_cur(mem, ti, &bytes) {
        Ok(()) => {
            proof {
                assert forall|i: int|
                    0 <= i < 2016 implies (#[trigger] crate::page_table::spec_paddr(
                    pt,
                    (ti + i) as u64,
                )) is Some by {
                    assert(crate::page_table::byte_at(pt, *mem, (ti + i) as u64, bytes@[i]));
                }
                let t = tm.tasks@[tm.current_task as int];
                assert forall|i: int|
                    0 <= i < 8 implies crate::page_table::byte_at(
                    t.memory_set.page_table,
                    *mem,
                    (ti + i) as u64,
                    #[trigger] vstd::bytes::spec_u64_to_le_bytes(t.task_status.spec_code())[i],
                ) by {
                    assert(bytes@[i] == bytes@.subrange(0, 8)[i]);
                }
                assert forall|k: int, i: int|
                    0 <= k < MAX_SYSCALL_NUM && 0 <= i < 4 implies crate::page_table::byte_at(
                    t.memory_set.page_table,
                    *mem,
                    (ti + 8 + 4 * k + i) as u64,
                    #[trigger] vstd::bytes::spec_u32_to_le_bytes(t.syscall_cnt@[k])[i],
                ) by {
                    assert(bytes@[8 + 4 * k + i] == bytes@.subrange(8 + 4 * k, 12 + 4 * k)[i]);
                }
                assert forall|i: int|
                    0 <= i < 8 implies crate::page_table::byte_at(
                    t.memory_set.page_table,
                    *mem,
                    (ti + 2008 + i) as u64,
                    #[trigger] vstd::bytes::spec_u64_to_le_bytes(
                        ((now.total_us() / 1000 - t.start_up_time.total_us() / 1000) as u64),
                    )[i],
                ) by {
                    assert(bytes@[2008 + i] == bytes@.subrange(2008, 2016)[i]);
                }
            }
            0
        },
        Err(_) => -1,
    }
}

/// Map `len` bytes at `start` with the permissions of `port` in the
/// current task's space: zero exactly on an acceptable request, else
/// negative one with no partial mapping left behind.
pub fn sys_mmap(tm: &mut TaskManager, alloc: &mut FrameAllocator, start: u64, len: u64, port: u64)
    -> (r: isize)
    requires
        old(tm).wf(),
        old(alloc).wf(),
    ensures
        final (tm).wf(),
        final (alloc).wf(),
        final (tm).num_app == old(tm).num_app,
        final (tm).current_task == old(tm).current_task,
        r == 0 || r == -1,
        (r == 0) == old(tm).tasks@[old(tm).current_task as int].memory_set.mmap_ok(
            *old(alloc),
            start,
            len,
            port,
        ),
        r == 0 && len > 0 ==> forall|v: u64|
            start / crate::config::PAGE_SIZE <= v < crate::memory_set::spec_ceil_vpn(start + len)
                ==> crate::memory_set::pte_maps_fresh(
                #[trigger] final (tm).tasks@[old(
                    tm,
                ).current_task as int].memory_set.page_table.spec_translate(v),
                crate::memory_set::MemorySet::spec_port_perm(port),
                old(alloc).end,
            ),
        r == 0 && len > 0 ==> forall|v: u64|
            v < crate::config::VPN_LIMIT && !(start / crate::config::PAGE_SIZE <= v
                < crate::memory_set::spec_ceil_vpn(start + len)) ==> #[trigger] final (tm).tasks@[old(tm).current_task as int].memory_set.page_table.spec_translate(v) == old(
                tm,
            ).tasks@[old(tm).current_task as int].memory_set.page_table.spec_translate(v),
        r == 0 && len == 0 ==> forall|v: u64| #[trigger]
            final (tm).tasks@[old(
                tm,
            ).current_task as int].memory_set.page_table.spec_translate(v) == old(tm).tasks@[old(
                tm,
            ).current_task as int].memory_set.page_table.spec_translate(v),
        r == -1 ==> forall|v: u64| #[trigger]
            final (tm).tasks@[old(
                tm,
            ).current_task as int].memory_set.page_table.spec_translate(v) == old(tm).tasks@[old(
                tm,
            ).current_task as int].memory_set.page_table.spec_translate(v),
        forall|i: int|
            0 <= i < old(tm).tasks@.len() && i != old(tm).current_task
                ==> #[trigger] final (tm).tasks@[i] == old(tm).tasks@[i],
{
    tm.mmap(alloc, start, len, port)
}

/// Unmap the page range of `[start, start + len)` in the current task's
/// space: zero exactly when the whole range was mapped, else negative
/// one with every mapping left as it was.
pub fn sys_munmap(tm: &mut TaskManager, alloc: &mut FrameAllocator, start: u64, len: u64) -> (r:
    isize)
    requires
        old(tm).wf(),
        old(alloc).wf(),
    ensures
        final (tm).wf(),
        final (alloc).wf(),
        final (tm).num_app == old(tm).num_app,
        final (tm).current_task == old(tm).current_task,
        final (alloc).spec_free_count() >= old(alloc).spec_free_count(),
        r == 0 || r == -1,
        (r == 0) == old(tm).tasks@[old(tm).current_task as int].memory_set.munmap_ok(start, len),
        r == 0 ==> forall|v: u64|
            start / crate::config::PAGE_SIZE <= v < crate::memory_set::spec_ceil_vpn(start + len)
                ==> (#[trigger] final (tm).tasks@[old(
                tm,
            ).current_task as int].memory_set.page_table.spec_translate(v)) is None,
        r == 0 ==> forall|v: u64|
            v < crate::config::VPN_LIMIT && !(start / crate::config::PAGE_SIZE <= v
                < crate::memory_set::spec_ceil_vpn(start + len)) ==> #[trigger] final (tm).tasks@[old(tm).current_task as int].memory_set.page_table.spec_translate(v) == old(
                tm,
            ).tasks@[old(tm).current_task as int].memory_set.page_table.spec_translate(v),
        r == 0 ==> (crate::memory_set::range_frames_allocated(
            old(tm).tasks@[old(tm).current_task as int].memory_set.page_table,
            *old(alloc),
            (start / crate::config::PAGE_SIZE) as u64,
            crate::memory_set::spec_ceil_vpn(start + len) as u64,
        ) && crate::memory_set::range_frames_distinct(
            old(tm).tasks@[old(tm).current_task as int].memory_set.page_table,
            (start / crate::config::PAGE_SIZE) as u64,
            crate::memory_set::spec_ceil_vpn(start + len) as u64,
        ) ==> final (alloc).spec_free_count() == old(alloc).spec_free_count() + (
        crate::memory_set::spec_ceil_vpn(start + len) - start / crate::config::PAGE_SIZE)),
        r == -1 ==> forall|v: u64| #[trigger]
            final (tm).tasks@[old(
                tm,
            ).current_task as int].memory_set.page_table.spec_translate(v) == old(tm).tasks@[old(
                tm,
            ).current_task as int].memory_set.page_table.spec_translate(v),
        forall|i: int|
            0 <= i < old(tm).tasks@.len() && i != old(tm).current_task
                ==> #[trigger] final (tm).tasks@[i] == old(tm).tasks@[i],
{
    tm.munmap(alloc, start, len)
}

/// Move the current task's program break by `size` bytes: the old break
/// on success, negative one when the target falls below the heap bottom
/// or the remapping is refused, with the break left unchanged.
pub fn sys_sbrk(tm: &mut TaskManager, alloc: &mut FrameAllocator, size: i32) -> (r: i64)
    requires
        old(tm).wf(),
        old(alloc).wf(),
    ensures
        final (tm).wf(),
        final (alloc).wf(),
        (r != -1) == old(tm).tasks@[old(tm).current_task as int].brk_ok(*old(alloc), size),
        r != -1 ==> ({
            let t = old(tm).tasks@[old(tm).current_task as int];
            let ft = final (tm).tasks@[old(tm).current_task as int];
            &&& r == t.program_brk
            &&& ft.program_brk == t.program_brk + size
            &&& (size >= 0 ==> forall|v: u64|
                t.memory_set.heap.end_vpn <= v < crate::memory_set::spec_ceil_vpn(
                    t.program_brk + size,
                ) ==> crate::memory_set::pte_maps_fresh(
                    #[trigger] ft.memory_set.page_table.spec_translate(v),
                    crate::memory_set::PERM_R | crate::memory_set::PERM_W
                        | crate::memory_set::PERM_U,
                    old(alloc).end,
                ))
            &&& (size < 0 ==> forall|v: u64|
                crate::memory_set::spec_ceil_vpn(t.program_brk + size) <= v
                    < t.memory_set.heap.end_vpn ==> (
                #[trigger] ft.memory_set.page_table.spec_translate(v)) is None)
            &&& (size >= 0 ==> forall|v: u64|
                v < crate::config::VPN_LIMIT && !(t.memory_set.heap.end_vpn <= v
                    < crate::memory_set::spec_ceil_vpn(t.program_brk + size))
                    ==> #[trigger] ft.memory_set.page_table.spec_translate(v)
                    == t.memory_set.page_table.spec_translate(v))
            &&& (size < 0 ==> forall|v: u64|
                v < crate::config::VPN_LIMIT && !(crate::memory_set::spec_ceil_vpn(
                    t.program_brk + size,
                ) <= v < t.memory_set.heap.end_vpn)
                    ==> #[trigger] ft.memory_set.page_table.spec_translate(v)
                    == t.memory_set.page_table.spec_translate(v))
        }),
        r == -1 ==> final (tm).tasks@[old(tm).current_task as int].program_brk == old(
            tm,
        ).tasks@[old(tm).current_task as int].program_brk && forall|v: u64| #[trigger]
            final (tm).tasks@[old(
                tm,
            ).current_task as int].memory_set.page_table.spec_translate(v) == old(tm).tasks@[old(
                tm,
            ).current_task as int].memory_set.page_table.spec_translate(v),
{
    match tm.change_current_program_brk(alloc, size) {
        Some(old_brk) => {
            proof {
                assert(old(tm).tasks@[old(tm).current_task as int].wf());
                assert(old_brk + crate::config::PAGE_SIZE <= crate::config::VA_LIMIT);
            }
            old_brk as i64
        },
        None => -1,
    }
}

} // verus!
