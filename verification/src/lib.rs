//! Core of a single-core RISC-V teaching kernel: an SV39-style three-level
//! page table with physical-frame ownership, per-task address spaces with
//! `mmap`/`munmap`/program-break management, and a cooperative round-robin
//! task scheduler.
//!
//! Hardware concerns (the raw register context switch, the trap trampoline,
//! the clock, program loading) stay outside: callers hand in plain values
//! (timestamps, program entry points) and perform the switches this library
//! decides on.

pub mod addr;
pub mod config;
pub mod frame_allocator;
pub mod memory_set;
pub mod page_table;
pub mod phys_mem;
pub mod syscall;
pub mod task;
pub mod task_manager;
