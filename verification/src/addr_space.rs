//! The address-space handle: region queries and lock acquisition.

use vstd::prelude::*;
use crate::Error;
use crate::KernelResult;
use crate::kernel::Kernel;
use crate::kernel::MmState;
use crate::kernel::VmArea;
use crate::kernel::mm_mut;
use crate::kernel::some_region_contains_page;
use crate::kernel::tables_match_regions;
use crate::paging::PAGE_LIMIT;
use crate::paging::PageTables;
use crate::paging::VA_LIMIT;
use crate::paging::page_of_va;
use crate::spinlock::SpinlockGuard;
use crate::spinlock::guard_from_parts;
use crate::vma::VMA;

verus! {

/// Scoped shared (read) hold of an address space's lock. Acquired by
/// [`AddressSpace::lock_read`]; released exactly once by the consuming
/// [`ReadLock::release`], the scoped-release stand-in for dropping the guard.
pub struct ReadLock {
    mm: usize,
}

impl ReadLock {
    /// Index of the address space this guard holds shared.
    pub closed spec fn mm_id(self) -> int {
        self.mm as int
    }

    /// Gives the shared hold back. Consumes the guard, so no release can
    /// happen twice; and every region read demanded a live hold, so handles
    /// derived under this guard are unusable once the count drops to free.
    pub fn release(self, k: &mut Kernel)
        requires
            old(k).wf(),
            self.mm_id() < old(k).mms@.len(),
            old(k).mms@[self.mm_id()].readers >= 1,
        ensures
            final(k).wf(),
            final(k).mms@ == old(k).mms@.update(
                self.mm_id(),
                MmState {
                    readers: (old(k).mms@[self.mm_id()].readers - 1) as u64,
                    ..old(k).mms@[self.mm_id()]
                },
            ),
            final(k).tasks@ == old(k).tasks@,
            final(k).cpu_current@ == old(k).cpu_current@,
            final(k).current_cpu == old(k).current_cpu,
    {
        let m = mm_mut(&mut k.mms, self.mm);
        m.readers = m.readers - 1;
    }
}

/// Scoped exclusive (write) hold of an address space's lock. Acquired by
/// [`AddressSpace::lock_write`]; released exactly once by the consuming
/// [`WriteLock::release`].
pub struct WriteLock {
    mm: usize,
}

impl WriteLock {
    /// Index of the address space this guard holds exclusively.
    pub closed spec fn mm_id(self) -> int {
        self.mm as int
    }

    /// Gives the exclusive hold back. Consumes the guard, so no release can
    /// happen twice.
    pub fn release(self, k: &mut Kernel)
        requires
            old(k).wf(),
            self.mm_id() < old(k).mms@.len(),
            old(k).mms@[self.mm_id()].writer,
        ensures
            final(k).wf(),
            final(k).mms@ == old(k).mms@.update(
                self.mm_id(),
                MmState { writer: false, ..old(k).mms@[self.mm_id()] },
            ),
            final(k).tasks@ == old(k).tasks@,
            final(k).cpu_current@ == old(k).cpu_current@,
            final(k).current_cpu == old(k).current_cpu,
    {
        let m = mm_mut(&mut k.mms, self.mm);
        m.writer = false;
    }
}

/// Handle on one process's whole virtual-memory state. A short-lived,
/// non-owning view: the kernel state owns the backing structure.
#[derive(Clone, Copy)]
pub struct AddressSpace {
    mm: usize,
}

impl AddressSpace {
    /// Index of the address space this handle names.
    pub closed spec fn id(self) -> int {
        self.mm as int
    }

    /// The handle names an existing address space.
    pub open spec fn valid(self, k: Kernel) -> bool {
        self.id() < k.mms@.len()
    }

    /// The per-process state this handle names.
    pub open spec fn state(self, k: Kernel) -> MmState {
        k.mms@[self.id()]
    }

    /// Wraps a raw address-space reference, as handed over by the task
    /// component.
    pub fn from_raw(mm: usize) -> (r: AddressSpace)
        ensures
            r.id() == mm,
    {
        AddressSpace { mm }
    }

    /// The raw reference this handle wraps.
    pub fn raw(&self) -> (r: usize)
        ensures
            r == self.id(),
    {
        self.mm
    }

    /// The raw reference this handle wraps, for interfaces that mutate
    /// through it.
    pub fn raw_mut(&self) -> (r: usize)
        ensures
            r == self.id(),
    {
        self.mm
    }

    /// A fresh iterator over the space's region list, positioned at the
    /// first region. The caller must hold at least the shared lock for the
    /// iterator's whole lifetime.
    pub fn vmas(&self, k: &Kernel) -> (it: VMAIterator)
        requires
            k.wf(),
            self.valid(*k),
            self.state(*k).readers >= 1 || self.state(*k).writer,
        ensures
            it.mm_id() == self.id(),
            it.pos() == 0,
    {
        VMAIterator { mm: self.mm, pos: 0 }
    }

    /// The region containing `addr`, or "no entry" when the process does not
    /// map that address — an expected outcome, not a fault. The caller must
    /// hold at least the shared lock.
    pub fn find_vma(&self, k: &Kernel, addr: u64) -> (r: KernelResult<VMA>)
        requires
            k.wf(),
            self.valid(*k),
            self.state(*k).readers >= 1 || self.state(*k).writer,
        ensures
            match r {
                Ok(v) => {
                    &&& v.mm_id() == self.id()
                    &&& 0 <= v.index() < self.state(*k).regions@.len()
                    &&& self.state(*k).regions@[v.index()].contains(addr)
                },
                Err(e) => {
                    &&& e == Error::ENOENT
                    &&& forall|i: int|
                        0 <= i < self.state(*k).regions@.len() ==> !(#[trigger] self.state(
                            *k,
                        ).regions@[i]).contains(addr)
                },
            },
    {
        let m = &k.mms[self.mm];
        let n = m.regions.len();
        let mut i: usize = 0;
        while i < n
            invariant
                i <= n,
                self.valid(*k),
                *m == k.mms@[self.id()],
                n == m.regions@.len(),
                forall|j: int| 0 <= j < i ==> !(#[trigger] m.regions@[j]).contains(addr),
            decreases n - i,
        {
            let r = &m.regions[i];
            if r.start <= addr && addr < r.end {
                return Ok(VMA::from_raw(self.mm, i));
            }
            i = i + 1;
        }
        Err(Error::ENOENT)
    }

    /// Acquires the space's lock shared. In the host kernel this blocks until
    /// no writer holds the lock; in this single-context model an acquisition
    /// that would block forever is excluded up front, and
    /// [`AddressSpace::try_lock_read`] reports whether it would have been.
    pub fn lock_read(&self, k: &mut Kernel) -> (g: ReadLock)
        requires
            old(k).wf(),
            self.valid(*old(k)),
            self.state(*old(k)).read_available(),
            self.state(*old(k)).readers < u64::MAX,
        ensures
            final(k).wf(),
            g.mm_id() == self.id(),
            final(k).mms@ == old(k).mms@.update(
                self.id(),
                MmState {
                    readers: (self.state(*old(k)).readers + 1) as u64,
                    ..self.state(*old(k))
                },
            ),
            final(k).tasks@ == old(k).tasks@,
            final(k).cpu_current@ == old(k).cpu_current@,
            final(k).current_cpu == old(k).current_cpu,
    {
        let m = mm_mut(&mut k.mms, self.mm);
        m.readers = m.readers + 1;
        ReadLock { mm: self.mm }
    }

    /// Acquires the space's lock shared if that would not block: readers do
    /// not block readers, only a writer blocks them.
    pub fn try_lock_read(&self, k: &mut Kernel) -> (g: Option<ReadLock>)
        requires
            old(k).wf(),
            self.valid(*old(k)),
            self.state(*old(k)).readers < u64::MAX,
        ensures
            final(k).wf(),
            g is Some <==> self.state(*old(k)).read_available(),
            match g {
                Some(l) => {
                    &&& l.mm_id() == self.id()
                    &&& final(k).mms@ == old(k).mms@.update(
                        self.id(),
                        MmState {
                            readers: (self.state(*old(k)).readers + 1) as u64,
                            ..self.state(*old(k))
                        },
                    )
                },
                None => final(k).mms@ == old(k).mms@,
            },
            final(k).tasks@ == old(k).tasks@,
            final(k).cpu_current@ == old(k).cpu_current@,
            final(k).current_cpu == old(k).current_cpu,
    {
        if k.mms[self.mm].writer {
            None
        } else {
            Some(self.lock_read(k))
        }
    }

    /// Acquires the space's lock exclusive. In the host kernel this blocks
    /// until no reader or writer holds the lock; in this single-context model
    /// an acquisition that would block forever is excluded up front, and
    /// [`AddressSpace::try_lock_write`] reports whether it would have been.
    pub fn lock_write(&self, k: &mut Kernel) -> (g: WriteLock)
        requires
            old(k).wf(),
            self.valid(*old(k)),
            self.state(*old(k)).write_available(),
        ensures
            final(k).wf(),
            g.mm_id() == self.id(),
            final(k).mms@ == old(k).mms@.update(
                self.id(),
                MmState { writer: true, ..self.state(*old(k)) },
            ),
            final(k).tasks@ == old(k).tasks@,
            final(k).cpu_current@ == old(k).cpu_current@,
            final(k).current_cpu == old(k).current_cpu,
    {
        let m = mm_mut(&mut k.mms, self.mm);
        m.writer = true;
        WriteLock { mm: self.mm }
    }

    /// Acquires the space's lock exclusive if that would not block: any
    /// reader or writer already holding the lock blocks a writer.
    pub fn try_lock_write(&self, k: &mut Kernel) -> (g: Option<WriteLock>)
        requires
            old(k).wf(),
            self.valid(*old(k)),
        ensures
            final(k).wf(),
            g is Some <==> self.state(*old(k)).write_available(),
            match g {
                Some(l) => {
                    &&& l.mm_id() == self.id()
                    &&& final(k).mms@ == old(k).mms@.update(
                        self.id(),
                        MmState { writer: true, ..self.state(*old(k)) },
                    )
                },
                None => final(k).mms@ == old(k).mms@,
            },
            final(k).tasks@ == old(k).tasks@,
            final(k).cpu_current@ == old(k).cpu_current@,
            final(k).current_cpu == old(k).current_cpu,
    {
        if k.mms[self.mm].writer || k.mms[self.mm].readers > 0 {
            None
        } else {
            Some(self.lock_write(k))
        }
    }

    /// Acquires the dedicated non-sleeping lock over the page-table root:
    /// narrower and cheaper than the whole-space lock, for short sections
    /// that must not block. The returned guard owns the tables for the
    /// section and starts a walk via its `map_offset`.
    pub fn lock_page_tables(&self, k: &mut Kernel) -> (g: SpinlockGuard)
        requires
            old(k).wf(),
            self.valid(*old(k)),
            !self.state(*old(k)).table_lock,
        ensures
            final(k).wf(),
            g.mm_id() == self.id(),
            g.tables_spec().wf(),
            Some(g.tables_spec()) == self.state(*old(k)).tables,
            final(k).mms@ == old(k).mms@.update(
                self.id(),
                MmState { tables: None, table_lock: true, ..self.state(*old(k)) },
            ),
            final(k).tasks@ == old(k).tasks@,
            final(k).cpu_current@ == old(k).cpu_current@,
            final(k).current_cpu == old(k).current_cpu,
    {
        let m = mm_mut(&mut k.mms, self.mm);
        let tables = m.tables.take().unwrap();
        m.table_lock = true;
        guard_from_parts(tables, self.mm)
    }

    /// Walks the locked tables for `va` handle by handle, from the given
    /// table-root guard. Returns the leaf entry when every level is present,
    /// and nothing when the walk stops at an empty or corrupt entry.
    pub fn translate(&self, g: &mut SpinlockGuard, va: u64) -> (r: Option<u64>)
        requires
            old(g).tables_spec().wf(),
            old(g).tables_spec().leaf_maps < u64::MAX,
        ensures
            final(g).mm_id() == old(g).mm_id(),
            final(g).tables_spec().root@ == old(g).tables_spec().root@,
            final(g).tables_spec().pud_arena@ == old(g).tables_spec().pud_arena@,
            final(g).tables_spec().pmd_arena@ == old(g).tables_spec().pmd_arena@,
            final(g).tables_spec().pte_arena@ == old(g).tables_spec().pte_arena@,
            final(g).tables_spec().leaf_maps == old(g).tables_spec().leaf_maps,
            r == old(g).tables_spec().translate_page(page_of_va(va)),
    {
        let t = g.tables_mut();
        t.translate_address(va)
    }
}

/// Lazy, finite, forward-only iterator over an address space's region list.
/// Not restartable: request a fresh one to iterate again. Safe only while
/// the caller holds at least the shared lock on the owning space, which
/// every step demands.
pub struct VMAIterator {
    mm: usize,
    pos: usize,
}

impl VMAIterator {
    /// Index of the address space being iterated.
    pub closed spec fn mm_id(self) -> int {
        self.mm as int
    }

    /// How many regions have been yielded so far.
    pub closed spec fn pos(self) -> int {
        self.pos as int
    }

    /// The next region of the list, in list order, one handle per region;
    /// nothing once the list is exhausted.
    pub fn next(&mut self, k: &Kernel) -> (r: Option<VMA>)
        requires
            k.wf(),
            old(self).mm_id() < k.mms@.len(),
            k.mms@[old(self).mm_id()].readers >= 1 || k.mms@[old(self).mm_id()].writer,
        ensures
            final(self).mm_id() == old(self).mm_id(),
            match r {
                Some(v) => {
                    &&& old(self).pos() < k.mms@[old(self).mm_id()].regions@.len()
                    &&& v.mm_id() == old(self).mm_id()
                    &&& v.index() == old(self).pos()
                    &&& final(self).pos() == old(self).pos() + 1
                },
                None => {
                    &&& old(self).pos() >= k.mms@[old(self).mm_id()].regions@.len()
                    &&& final(self).pos() == old(self).pos()
                },
            },
    {
        if self.pos < k.mms[self.mm].regions.len() {
            let v = VMA::from_raw(self.mm, self.pos);
            self.pos = self.pos + 1;
            Some(v)
        } else {
            None
        }
    }
}

/// Page-aligned interval bounds contain an address exactly when the page
/// bounds contain its page number.
proof fn lemma_page_containment(s: u64, e: u64, va: u64)
    by (bit_vector)
    requires
        s % 4096 == 0,
        e % 4096 == 0,
    ensures
        (s <= va && va < e) == (s / 4096 <= (va >> 12) && (va >> 12) < e / 4096),
{
}

/// Walking from a locked table root of a space whose tables match its region
/// list finds a mapping for exactly the addresses some region covers: for an
/// address inside a region the walk runs through present entries down to a
/// nonzero leaf, and for an address outside every region it stops at an
/// empty or corrupt entry on the way.
pub proof fn lemma_walk_matches_regions(regions: Seq<VmArea>, pt: PageTables, va: u64)
    requires
        forall|i: int| 0 <= i < regions.len() ==> (#[trigger] regions[i]).wf(),
        tables_match_regions(regions, pt),
        va < VA_LIMIT,
    ensures
        (exists|i: int| 0 <= i < regions.len() && (#[trigger] regions[i]).contains(va))
            <==> pt.translate_page(page_of_va(va)) is Some,
{
    let p = page_of_va(va);
    assert(p < PAGE_LIMIT) by {
        assert(va < 0x1_0000_0000_0000 ==> (va >> 12) < 0x10_0000_0000) by (bit_vector);
    }
    assert forall|i: int| 0 <= i < regions.len() implies ((#[trigger] regions[i]).contains(va)
        <==> regions[i].contains_page(p)) by {
        lemma_page_containment(regions[i].start, regions[i].end, va);
    };
    if exists|i: int| 0 <= i < regions.len() && (#[trigger] regions[i]).contains(va) {
        let i = choose|i: int| 0 <= i < regions.len() && (#[trigger] regions[i]).contains(va);
        assert(regions[i].contains_page(p));
        assert(some_region_contains_page(regions, p));
        assert(pt.translate_page(p) is Some);
    }
    if pt.translate_page(p) is Some {
        assert(some_region_contains_page(regions, p));
        let i = choose|i: int| 0 <= i < regions.len() && #[trigger] regions[i].contains_page(p);
        assert(regions[i].contains(va));
    }
}

/// The same law at the level of a whole kernel state: from a freshly locked
/// table root of a consistent address space (one whose tables nobody has
/// rewritten by hand), the walk finds a mapping for exactly the addresses
/// the space's region list covers.
pub proof fn lemma_locked_walk_matches_regions(k: Kernel, a: AddressSpace, va: u64)
    requires
        k.wf(),
        a.valid(k),
        a.state(k).consistent(),
        va < VA_LIMIT,
    ensures
        (exists|i: int|
            0 <= i < a.state(k).regions@.len() && (#[trigger] a.state(k).regions@[i]).contains(va))
            <==> a.state(k).tables->0.translate_page(page_of_va(va)) is Some,
{
    assert(a.state(k).wf());
    lemma_walk_matches_regions(a.state(k).regions@, a.state(k).tables->0, va);
}

/// Two regions of a well-formed list never overlap: regions earlier in the
/// list end before later ones start.
proof fn lemma_sorted_separation(m: MmState, i: int, j: int)
    requires
        m.regions_wf(),
        0 <= i < j < m.regions@.len(),
    ensures
        m.regions@[i].end <= m.regions@[j].start,
    decreases j - i,
{
    if i + 1 == j {
    } else {
        lemma_sorted_separation(m, i, j - 1);
        assert(m.regions@[j - 1].wf());
    }
}

/// The region containing an address is unique: the list is disjoint, so at
/// most one region can contain any address.
pub proof fn lemma_containing_region_unique(m: MmState, va: u64, i: int, j: int)
    requires
        m.regions_wf(),
        0 <= i < m.regions@.len(),
        0 <= j < m.regions@.len(),
        m.regions@[i].contains(va),
        m.regions@[j].contains(va),
    ensures
        i == j,
{
    if i < j {
        lemma_sorted_separation(m, i, j);
    }
    if j < i {
        lemma_sorted_separation(m, j, i);
    }
}

/// Mutual exclusion of the address-space lock: a held write lock blocks both
/// further readers and further writers; any reader blocks a writer; and
/// readers never block each other.
pub proof fn lemma_lock_exclusion(m: MmState)
    ensures
        m.writer ==> !m.read_available() && !m.write_available(),
        m.readers > 0 ==> !m.write_available(),
        !m.writer ==> m.read_available(),
{
}

} // verus!
