//! Memory-region handles and the region flag word.

use vstd::prelude::*;
use crate::kernel::Kernel;
use crate::kernel::VmArea;
use crate::kernel::region_mut;
use crate::kernel::mm_mut;

verus! {

/// The region is readable.
pub const VM_READ: u64 = 1 << 0;

/// The region is writable.
pub const VM_WRITE: u64 = 1 << 1;

/// The region is executable.
pub const VM_EXEC: u64 = 1 << 2;

/// Changes are shared with other mappers of the backing object.
pub const VM_SHARED: u64 = 1 << 3;

/// The read bit may be set.
pub const VM_MAY_READ: u64 = 1 << 4;

/// The write bit may be set.
pub const VM_MAY_WRITE: u64 = 1 << 5;

/// The execute bit may be set.
pub const VM_MAY_EXEC: u64 = 1 << 6;

/// The shared bit may be set.
pub const VM_MAY_SHARE: u64 = 1 << 7;

/// The region grows downward, like a stack.
pub const VM_GROWS_DOWN: u64 = 1 << 8;

/// Userfaultfd handles missing pages.
pub const VM_UFFD_MISSING: u64 = 1 << 9;

/// Raw page-frame mapping with no backing page structures.
pub const VM_PFN_MAP: u64 = 1 << 10;

/// Writes to the backing file are denied while mapped.
pub const VM_DENY_WRITE: u64 = 1 << 11;

/// Userfaultfd write protection is armed.
pub const VM_UFFD_WP: u64 = 1 << 12;

/// Pages are locked in memory.
pub const VM_LOCKED: u64 = 1 << 13;

/// Maps device I/O space.
pub const VM_IO: u64 = 1 << 14;

/// Sequential read access was hinted.
pub const VM_SEQ_READ: u64 = 1 << 15;

/// Random read access was hinted.
pub const VM_RAND_READ: u64 = 1 << 16;

/// Do not copy this region on fork.
pub const VM_DONT_COPY: u64 = 1 << 17;

/// The region may not be expanded.
pub const VM_DONT_EXPAND: u64 = 1 << 18;

/// Lock pages as they are faulted in.
pub const VM_LOCK_ON_FAULT: u64 = 1 << 19;

/// The region's pages are charged to the owner.
pub const VM_ACCOUNT: u64 = 1 << 20;

/// No swap space is reserved for the region.
pub const VM_NO_RESERVE: u64 = 1 << 21;

/// Backed by huge translation-lookaside pages.
pub const VM_HUGE_TLB: u64 = 1 << 22;

/// Synchronous page faults.
pub const VM_SYNC: u64 = 1 << 23;

/// Architecture-specific flag.
pub const VM_ARCH_1: u64 = 1 << 24;

/// Wipe the region's contents on fork.
pub const VM_WIPE_ON_FORK: u64 = 1 << 25;

/// Exclude the region from core dumps.
pub const VM_DONT_DUMP: u64 = 1 << 26;

/// Pages were written since the last soft-dirty clear.
pub const VM_SOFT_DIRTY: u64 = 1 << 27;

/// The region can map a mix of page kinds.
pub const VM_MIXED_MAP: u64 = 1 << 28;

/// Huge pages are advised for the region.
pub const VM_HUGE_PAGE: u64 = 1 << 29;

/// Huge pages are not to be used for the region.
pub const VM_NO_HUGE_PAGE: u64 = 1 << 30;

/// The region may be merged with identical neighbors.
pub const VM_MERGEABLE: u64 = 1 << 31;

/// All flag bits this model knows. The kernel's flag set is open: it grows
/// over versions, so unknown high bits are dropped rather than rejected.
pub const VM_KNOWN_MASK: u64 = 0xffff_ffff;

/// A region's protection/behavior flag set: a thin typed wrapper over the
/// raw flag word.
#[derive(Clone, Copy, Debug, PartialEq, Eq, Structural)]
pub struct VMFlags {
    /// The raw flag word.
    pub bits: u64,
}

impl VMFlags {
    /// The empty flag set.
    pub fn empty() -> (r: VMFlags)
        ensures
            r.bits == 0,
    {
        VMFlags { bits: 0 }
    }

    /// Keeps the known flag bits of a raw word and drops the rest.
    pub fn from_bits_truncate(v: u64) -> (r: VMFlags)
        ensures
            r.bits == v & VM_KNOWN_MASK,
    {
        VMFlags { bits: v & VM_KNOWN_MASK }
    }

    /// The raw flag word.
    pub fn bits(self) -> (r: u64)
        ensures
            r == self.bits,
    {
        self.bits
    }

    /// Every flag of `other` is set in `self`.
    pub fn contains(self, other: VMFlags) -> (r: bool)
        ensures
            r == (self.bits & other.bits == other.bits),
    {
        self.bits & other.bits == other.bits
    }

    /// The flags of both sets.
    pub fn union(self, other: VMFlags) -> (r: VMFlags)
        ensures
            r.bits == self.bits | other.bits,
    {
        VMFlags { bits: self.bits | other.bits }
    }
}

/// Handle on one mapped memory region of an address space. Valid only while
/// the caller holds at least the shared address-space lock; every operation
/// demands that lock, so a handle kept past its guard's release is unusable.
#[derive(Clone, Copy, Debug)]
pub struct VMA {
    /// Index of the owning address space.
    pub(crate) mm: usize,
    /// Position of the region in its space's list.
    pub(crate) index: usize,
}

impl VMA {
    /// Index of the owning address space.
    pub closed spec fn mm_id(self) -> int {
        self.mm as int
    }

    /// Position of the region in its space's list.
    pub closed spec fn index(self) -> int {
        self.index as int
    }

    /// The handle names an existing region of an existing address space.
    pub open spec fn valid(self, k: Kernel) -> bool {
        self.mm_id() < k.mms@.len() && self.index() < k.mms@[self.mm_id()].regions@.len()
    }

    /// The caller holds the owning space's lock, shared or exclusive.
    pub open spec fn locked(self, k: Kernel) -> bool {
        k.mms@[self.mm_id()].readers >= 1 || k.mms@[self.mm_id()].writer
    }

    /// The region record this handle names.
    pub open spec fn region(self, k: Kernel) -> VmArea {
        k.mms@[self.mm_id()].regions@[self.index()]
    }

    /// Reassembles a handle from its raw parts.
    pub fn from_raw(mm: usize, index: usize) -> (r: VMA)
        ensures
            r.mm_id() == mm,
            r.index() == index,
    {
        VMA { mm, index }
    }

    /// The raw identity of the region: its owning space and list position.
    pub fn raw(&self) -> (r: (usize, usize))
        ensures
            r.0 == self.mm_id(),
            r.1 == self.index(),
    {
        (self.mm, self.index)
    }

    /// First address of the region.
    pub fn start(&self, k: &Kernel) -> (r: u64)
        requires
            k.wf(),
            self.valid(*k),
            self.locked(*k),
        ensures
            r == self.region(*k).start,
    {
        k.mms[self.mm].regions[self.index].start
    }

    /// One past the last address of the region.
    pub fn end(&self, k: &Kernel) -> (r: u64)
        requires
            k.wf(),
            self.valid(*k),
            self.locked(*k),
        ensures
            r == self.region(*k).end,
    {
        k.mms[self.mm].regions[self.index].end
    }

    /// The region's protection/behavior flags, with unknown bits dropped.
    pub fn flags(&self, k: &Kernel) -> (r: VMFlags)
        requires
            k.wf(),
            self.valid(*k),
            self.locked(*k),
        ensures
            r.bits == self.region(*k).flags & VM_KNOWN_MASK,
    {
        VMFlags::from_bits_truncate(k.mms[self.mm].regions[self.index].flags)
    }

    /// Overwrites the region's flag word. Mutating flags races with every
    /// other user of the space, so the caller must hold the exclusive lock.
    pub fn set_flags(&mut self, k: &mut Kernel, flags: VMFlags)
        requires
            old(k).wf(),
            old(self).valid(*old(k)),
            old(k).mms@[old(self).mm_id()].writer,
        ensures
            *final(self) == *old(self),
            final(k).wf(),
            final(k).mms@.len() == old(k).mms@.len(),
            forall|i: int|
                0 <= i < old(k).mms@.len() && i != old(self).mm_id() ==> final(k).mms@[i] == old(
                    k,
                ).mms@[i],
            final(k).mms@[old(self).mm_id()].regions@ == old(k).mms@[old(self).mm_id()].regions@
                .update(
                old(self).index(),
                VmArea { flags: flags.bits, ..old(self).region(*old(k)) },
            ),
            final(k).mms@[old(self).mm_id()].tables == old(k).mms@[old(self).mm_id()].tables,
            final(k).mms@[old(self).mm_id()].readers == old(k).mms@[old(self).mm_id()].readers,
            final(k).mms@[old(self).mm_id()].writer == old(k).mms@[old(self).mm_id()].writer,
            final(k).mms@[old(self).mm_id()].table_lock == old(k).mms@[old(self).mm_id()].table_lock,
            final(k).tasks@ == old(k).tasks@,
            final(k).cpu_current@ == old(k).cpu_current@,
            final(k).current_cpu == old(k).current_cpu,
    {
        let m = mm_mut(&mut k.mms, self.mm);
        let r = region_mut(&mut m.regions, self.index);
        r.flags = flags.bits;
    }

    /// The region's backing offset, in page units.
    pub fn offset(&self, k: &Kernel) -> (r: u64)
        requires
            k.wf(),
            self.valid(*k),
            self.locked(*k),
        ensures
            r == self.region(*k).pgoff,
    {
        k.mms[self.mm].regions[self.index].pgoff
    }
}

} // verus!
