//! Fixed layout constants of the kernel core.

use vstd::prelude::*;

verus! {

/// Number of bits of a page offset: pages are 4 KiB.
pub const PAGE_SIZE_BITS: u64 = 12;

/// Size of one page / physical frame in bytes.
pub const PAGE_SIZE: u64 = 4096;

/// Number of page-table entries in one table node (9 index bits per level).
pub const ENTRIES_PER_NODE: usize = 512;

/// Virtual page numbers are 27 bits wide (three 9-bit levels).
pub const VPN_BITS: u64 = 27;

/// Exclusive upper bound of a virtual page number.
pub const VPN_LIMIT: u64 = 0x8000000;

/// Exclusive upper bound of a virtual address (39-bit space).
pub const VA_LIMIT: u64 = 0x80_0000_0000;

/// Physical page numbers are 44 bits wide.
pub const PPN_BITS: u64 = 44;

/// Mask of the 44 physical-page-number bits.
pub const PPN_MASK: u64 = 0xfff_ffff_ffff;

/// Distinct syscall identifiers tracked by the per-task histogram.
pub const MAX_SYSCALL_NUM: usize = 500;

/// Highest virtual page: the trampoline page sits there.
pub const TRAMPOLINE: u64 = 0x7f_ffff_f000;

/// The fixed virtual address of a task's trap-context page,
/// directly below the trampoline.
pub const TRAP_CONTEXT_BASE: u64 = 0x7f_ffff_e000;

/// Size of one kernel stack in bytes.
pub const KERNEL_STACK_SIZE: u64 = 8192;

/// A kernel stack and its guard page together.
pub const KERNEL_STACK_STRIDE: u64 = 12288;

} // verus!
