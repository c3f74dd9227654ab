//! The per-CPU accessor: resolves the pointer a CPU-local storage slot
//! holds into a typed handle.

use vstd::prelude::*;
use crate::kernel::Kernel;
use crate::task::Task;

verus! {

/// Accessor for one CPU's local storage slot holding that CPU's current
/// execution context. The read is a single pointer-sized load, which the
/// architecture's per-CPU addressing performs atomically, so no lock is
/// needed.
#[derive(Clone, Copy)]
pub struct PerCpu {
    cpu: usize,
}

impl PerCpu {
    /// The CPU whose slot this accessor reads.
    pub closed spec fn cpu_id(self) -> int {
        self.cpu as int
    }

    /// Accessor for the given CPU's slot of the per-CPU variable.
    pub fn from_var(cpu: usize) -> (r: PerCpu)
        ensures
            r.cpu_id() == cpu,
    {
        PerCpu { cpu }
    }

    /// Reads the slot and wraps the stored reference as a typed context
    /// handle. Never fails: by kernel invariant every CPU always has a
    /// current context.
    pub fn read(&self, k: &Kernel) -> (t: Task)
        requires
            k.wf(),
            self.cpu_id() < k.cpu_current@.len(),
        ensures
            t.id() == k.cpu_current@[self.cpu_id()],
            t.valid(*k),
    {
        Task::from_raw(k.cpu_current[self.cpu])
    }
}

} // verus!
