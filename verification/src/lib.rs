//! A model of a process's virtual-memory state as privileged kernel-side code
//! sees it: the multi-level page table, the list of mapped memory regions, and
//! the locks that guard concurrent access to both.
//!
//! The host kernel's structures (task, address space, region, table entry) are
//! represented as plain values inside a [`kernel::Kernel`] value, and the
//! handles that code works with (a task, an address space, a table-entry
//! handle, a lock guard) are small tokens that operate on that state through
//! contracts checked by Verus.

use vstd::prelude::*;

pub mod addr_space;
pub mod cpuinfo;
pub mod device;
pub mod ioctl;
pub mod kernel;
pub mod page;
pub mod paging;
pub mod percpu;
pub mod rwlock;
pub mod spinlock;
pub mod task;
pub mod vma;

verus! {

/// The recoverable error conditions this library surfaces. Expected absences
/// (an unmapped address, a vanished task) are not faults; callers must handle
/// them.
#[allow(non_camel_case_types)]
#[derive(Clone, Copy, Debug, PartialEq, Eq, Structural)]
pub enum Error {
    /// No entry: the queried address is not mapped by any region.
    ENOENT,
}

/// Result type for operations that can fail with a kernel-style error.
pub type KernelResult<T> = Result<T, Error>;

} // verus!
