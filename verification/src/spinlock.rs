//! The guard for the table-root spinlock.

use vstd::prelude::*;
use crate::kernel::Kernel;
use crate::kernel::MmState;
use crate::paging::PGD;
use crate::paging::PageTables;
use crate::paging::page_of_va;
use crate::paging::pgd_slot;

verus! {

/// Scoped hold of one address space's table-root spinlock. While the guard
/// lives it owns the space's translation tables outright: no other path can
/// reach them, which is the mutual exclusion the spinlock promises. The
/// caller must not block while holding it, and gives the tables back with
/// [`SpinlockGuard::release`]. The guard is not copyable and cannot be built
/// outside lock acquisition, so the lock is released at most once per
/// acquisition and never by a stranger.
pub struct SpinlockGuard {
    /// The translation tables, owned for the critical section.
    tables: PageTables,
    /// Index of the owning address space.
    mm: usize,
}

impl SpinlockGuard {
    /// Index of the address space whose table-root lock this guard holds.
    pub closed spec fn mm_id(self) -> int {
        self.mm as int
    }

    /// The translation tables the guard owns for its critical section.
    pub closed spec fn tables_spec(self) -> PageTables {
        self.tables
    }

    /// Borrows the owned tables for reading table entries.
    pub fn tables(&self) -> (t: &PageTables)
        ensures
            *t == self.tables_spec(),
    {
        &self.tables
    }

    /// Borrows the owned tables for writing table entries.
    pub fn tables_mut(&mut self) -> (t: &mut PageTables)
        ensures
            *t == old(self).tables_spec(),
            final(self).tables_spec() == *final(t),
            final(self).mm_id() == old(self).mm_id(),
    {
        &mut self.tables
    }

    /// Handle on the root-level entry for a virtual address: the first step
    /// of a walk from the locked table root.
    pub fn map_offset(&mut self, va: u64) -> (r: PGD)
        ensures
            final(self).tables_spec() == old(self).tables_spec(),
            final(self).mm_id() == old(self).mm_id(),
            r.index == pgd_slot(page_of_va(va)),
            r.index < 512,
    {
        self.tables.map_offset(va)
    }

    /// Unlocks the table root, giving the tables back to the kernel's state.
    /// Consumes the guard: a released guard cannot be used again, and every
    /// handle derived from it read the tables it carried, which go back with
    /// it.
    pub fn release(self, k: &mut Kernel)
        requires
            old(k).wf(),
            self.mm_id() < old(k).mms@.len(),
            old(k).mms@[self.mm_id()].table_lock,
            self.tables_spec().wf(),
        ensures
            final(k).wf(),
            final(k).mms@ == old(k).mms@.update(
                self.mm_id(),
                MmState {
                    tables: Some(self.tables_spec()),
                    table_lock: false,
                    ..old(k).mms@[self.mm_id()]
                },
            ),
            final(k).tasks@ == old(k).tasks@,
            final(k).cpu_current@ == old(k).cpu_current@,
            final(k).current_cpu == old(k).current_cpu,
    {
        let mm = self.mm;
        let m = crate::kernel::mm_mut(&mut k.mms, mm);
        m.tables = Some(self.tables);
        m.table_lock = false;
    }
}

/// Builds a guard from its parts; only lock acquisition does this.
pub(crate) fn guard_from_parts(tables: PageTables, mm: usize) -> (g: SpinlockGuard)
    ensures
        g.tables_spec() == tables,
        g.mm_id() == mm,
{
    SpinlockGuard { tables, mm }
}

} // verus!
