//! The read/write lock facade handed out by task resolution.
//!
//! Which primitive backs an address space's lock is a kernel-version choice;
//! this one uniform handle insulates callers from it. It bundles the lock
//! with the address space it protects, and hands out scoped guards for
//! shared or exclusive access.

use vstd::prelude::*;
use crate::addr_space::AddressSpace;
use crate::kernel::Kernel;
use crate::kernel::MmState;
use crate::kernel::mm_mut;

verus! {

/// An address space together with its lock: acquire through it, and reach
/// the space only through a guard.
pub struct RwLockRef {
    mm: usize,
}

impl RwLockRef {
    /// Index of the address space behind the lock.
    pub closed spec fn mm_id(self) -> int {
        self.mm as int
    }

    /// Acquires the lock shared. Blocks in the host kernel until no writer
    /// holds it; in this single-context model an acquisition that would
    /// block forever is excluded up front.
    pub fn read(&self, k: &mut Kernel) -> (g: RwLockReadGuard)
        requires
            old(k).wf(),
            self.mm_id() < old(k).mms@.len(),
            old(k).mms@[self.mm_id()].read_available(),
            old(k).mms@[self.mm_id()].readers < u64::MAX,
        ensures
            final(k).wf(),
            g.mm_id() == self.mm_id(),
            final(k).mms@ == old(k).mms@.update(
                self.mm_id(),
                MmState {
                    readers: (old(k).mms@[self.mm_id()].readers + 1) as u64,
                    ..old(k).mms@[self.mm_id()]
                },
            ),
            final(k).tasks@ == old(k).tasks@,
            final(k).cpu_current@ == old(k).cpu_current@,
            final(k).current_cpu == old(k).current_cpu,
    {
        let m = mm_mut(&mut k.mms, self.mm);
        m.readers = m.readers + 1;
        RwLockReadGuard { mm: self.mm }
    }

    /// Acquires the lock exclusive. Blocks in the host kernel until nobody
    /// holds it; in this single-context model an acquisition that would
    /// block forever is excluded up front.
    pub fn write(&mut self, k: &mut Kernel) -> (g: RwLockWriteGuard)
        requires
            old(k).wf(),
            old(self).mm_id() < old(k).mms@.len(),
            old(k).mms@[old(self).mm_id()].write_available(),
        ensures
            *final(self) == *old(self),
            final(k).wf(),
            g.mm_id() == old(self).mm_id(),
            final(k).mms@ == old(k).mms@.update(
                old(self).mm_id(),
                MmState { writer: true, ..old(k).mms@[old(self).mm_id()] },
            ),
            final(k).tasks@ == old(k).tasks@,
            final(k).cpu_current@ == old(k).cpu_current@,
            final(k).current_cpu == old(k).current_cpu,
    {
        let m = mm_mut(&mut k.mms, self.mm);
        m.writer = true;
        RwLockWriteGuard { mm: self.mm }
    }
}

/// Builds the lock handle; only task resolution does this.
pub(crate) fn lock_ref_from_mm(mm: usize) -> (r: RwLockRef)
    ensures
        r.mm_id() == mm,
{
    RwLockRef { mm }
}

/// Scoped shared hold acquired through [`RwLockRef::read`]. Gives access to
/// the protected address space; released exactly once by the consuming
/// [`RwLockReadGuard::release`].
pub struct RwLockReadGuard {
    mm: usize,
}

impl RwLockReadGuard {
    /// Index of the address space this guard holds shared.
    pub closed spec fn mm_id(self) -> int {
        self.mm as int
    }

    /// The protected address space, reachable because the lock is held.
    pub fn address_space(&self) -> (a: AddressSpace)
        ensures
            a.id() == self.mm_id(),
    {
        AddressSpace::from_raw(self.mm)
    }

    /// Gives the shared hold back. Consumes the guard, so no release can
    /// happen twice.
    pub fn release(self, k: &mut Kernel)
        requires
            old(k).wf(),
            self.mm_id() < old(k).mms@.len(),
            old(k).mms@[self.mm_id()].readers >= 1,
        ensures
            final(k).wf(),
            final(k).mms@ == old(k).mms@.update(
                self.mm_id(),
                MmState {
                    readers: (old(k).mms@[self.mm_id()].readers - 1) as u64,
                    ..old(k).mms@[self.mm_id()]
                },
            ),
            final(k).tasks@ == old(k).tasks@,
            final(k).cpu_current@ == old(k).cpu_current@,
            final(k).current_cpu == old(k).current_cpu,
    {
        let m = mm_mut(&mut k.mms, self.mm);
        m.readers = m.readers - 1;
    }
}

/// Scoped exclusive hold acquired through [`RwLockRef::write`]. Gives access
/// to the protected address space; released exactly once by the consuming
/// [`RwLockWriteGuard::release`].
pub struct RwLockWriteGuard {
    mm: usize,
}

impl RwLockWriteGuard {
    /// Index of the address space this guard holds exclusively.
    pub closed spec fn mm_id(self) -> int {
        self.mm as int
    }

    /// The protected address space, reachable because the lock is held.
    pub fn address_space(&self) -> (a: AddressSpace)
        ensures
            a.id() == self.mm_id(),
    {
        AddressSpace::from_raw(self.mm)
    }

    /// Gives the exclusive hold back. Consumes the guard, so no release can
    /// happen twice.
    pub fn release(self, k: &mut Kernel)
        requires
            old(k).wf(),
            self.mm_id() < old(k).mms@.len(),
            old(k).mms@[self.mm_id()].writer,
        ensures
            final(k).wf(),
            final(k).mms@ == old(k).mms@.update(
                self.mm_id(),
                MmState { writer: false, ..old(k).mms@[self.mm_id()] },
            ),
            final(k).tasks@ == old(k).tasks@,
            final(k).cpu_current@ == old(k).cpu_current@,
            final(k).current_cpu == old(k).current_cpu,
    {
        let m = mm_mut(&mut k.mms, self.mm);
        m.writer = false;
    }
}

} // verus!
