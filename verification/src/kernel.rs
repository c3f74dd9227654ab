//! The modeled host-kernel state this library's handles operate on.
//!
//! The host environment owns every structure the handles borrow in a real
//! kernel: the execution contexts, each process's address-space state (its
//! region list, its translation tables, its locks) and the per-CPU pointer to
//! the running context. Here that state is one plain [`Kernel`] value, passed
//! explicitly to every operation, and each handle is an index into it.

use vstd::prelude::*;
use crate::paging::PageTables;
use crate::paging::PAGE_LIMIT;
use crate::paging::TABLE_FLAGS;
use crate::paging::VA_LIMIT;

verus! {

/// One mapped region of an address space: the interval `[start, end)`, its
/// raw protection/behavior flag word, and its backing offset in page units.
#[derive(Clone, Copy)]
pub struct VmArea {
    /// First address of the region.
    pub start: u64,
    /// One past the last address of the region.
    pub end: u64,
    /// Raw flag word; `vma::VMFlags` gives it structure.
    pub flags: u64,
    /// Backing file offset, in pages.
    pub pgoff: u64,
}

impl VmArea {
    /// A region is a nonempty, page-aligned interval of the address space.
    pub open spec fn wf(self) -> bool {
        &&& self.start % 4096 == 0
        &&& self.end % 4096 == 0
        &&& self.start < self.end
        &&& self.end <= VA_LIMIT
    }

    /// The region covers virtual address `va`.
    pub open spec fn contains(self, va: u64) -> bool {
        self.start <= va < self.end
    }

    /// The region covers page number `p`.
    pub open spec fn contains_page(self, p: u64) -> bool {
        self.start / 4096 <= p < self.end / 4096
    }
}

/// Some region of the list covers page number `p`.
pub open spec fn some_region_contains_page(regions: Seq<VmArea>, p: u64) -> bool {
    exists|i: int| 0 <= i < regions.len() && #[trigger] regions[i].contains_page(p)
}

/// The translation tables map exactly the pages the region list covers.
pub open spec fn tables_match_regions(regions: Seq<VmArea>, pt: PageTables) -> bool {
    forall|p: u64|
        p < PAGE_LIMIT ==> (some_region_contains_page(regions, p) <==> (
        #[trigger] pt.translate_page(p)) is Some)
}

/// One process's virtual-memory state, as the kernel owns it: the region
/// list, the translation tables, the shared/exclusive lock over the whole
/// space, and the dedicated non-sleeping lock over the table root.
pub struct MmState {
    /// Mapped regions, disjoint and in ascending start order.
    pub regions: Vec<VmArea>,
    /// The translation tables. `None` exactly while the table-root lock is
    /// held: the holding guard owns them for the duration.
    pub tables: Option<PageTables>,
    /// How many shared (read) holders the address-space lock has.
    pub readers: u64,
    /// Whether an exclusive (write) holder has the address-space lock.
    pub writer: bool,
    /// Whether the table-root spinlock is held.
    pub table_lock: bool,
}

impl MmState {
    /// The region list is well formed: every region page-aligned and
    /// nonempty, and the list disjoint in ascending start order.
    pub open spec fn regions_wf(self) -> bool {
        &&& forall|i: int| 0 <= i < self.regions@.len() ==> (#[trigger] self.regions@[i]).wf()
        &&& forall|i: int|
            0 <= i && i + 1 < self.regions@.len() ==> (#[trigger] self.regions@[i]).end
                <= self.regions@[i + 1].start
    }

    /// The lock state is sane: readers and a writer never hold the
    /// address-space lock at once.
    pub open spec fn lock_wf(self) -> bool {
        !(self.writer && self.readers > 0)
    }

    /// The tables are present and well formed exactly while the table-root
    /// lock is free; while it is held, the holding guard owns them.
    pub open spec fn tables_wf(self) -> bool {
        match self.tables {
            Some(pt) => !self.table_lock && pt.wf(),
            None => self.table_lock,
        }
    }

    /// Structural well-formedness of the whole per-process state.
    pub open spec fn wf(self) -> bool {
        self.regions_wf() && self.lock_wf() && self.tables_wf()
    }

    /// The tables are in place and map exactly the pages the region list
    /// covers. Holds between table-lock sections of a space whose tables
    /// nobody has rewritten by hand.
    pub open spec fn consistent(self) -> bool {
        self.tables matches Some(pt) && tables_match_regions(self.regions@, pt)
    }

    /// A shared (read) acquisition would be granted without blocking: no
    /// writer holds the lock.
    pub open spec fn read_available(self) -> bool {
        !self.writer
    }

    /// An exclusive (write) acquisition would be granted without blocking:
    /// nobody holds the lock.
    pub open spec fn write_available(self) -> bool {
        !self.writer && self.readers == 0
    }
}

/// One schedulable execution context.
#[derive(Clone, Copy)]
pub struct TaskState {
    /// Numeric identifier of the context.
    pub pid: i32,
    /// Primary address space; absent for kernel-only contexts.
    pub mm: Option<usize>,
    /// The address space actually in use: the primary one, or the system
    /// default when the primary is absent.
    pub active_mm: usize,
}

/// The modeled host-kernel state: every execution context, every per-process
/// virtual-memory state, and each CPU's pointer to its running context.
pub struct Kernel {
    /// Per-process virtual-memory states. Index 0 is the system default
    /// space that kernel-only contexts run on.
    pub mms: Vec<MmState>,
    /// Every live execution context.
    pub tasks: Vec<TaskState>,
    /// For each CPU, the index of the context it is running.
    pub cpu_current: Vec<usize>,
    /// The CPU the calling code runs on.
    pub current_cpu: usize,
}

impl Kernel {
    /// Structural well-formedness of the whole modeled state: every
    /// per-process state well formed, every context pointing at existing
    /// address spaces, identifiers unique, and every CPU running an existing
    /// context.
    pub open spec fn wf(self) -> bool {
        &&& self.mms@.len() >= 1
        &&& forall|i: int| 0 <= i < self.mms@.len() ==> (#[trigger] self.mms@[i]).wf()
        &&& forall|t: int|
            0 <= t < self.tasks@.len() ==> (#[trigger] self.tasks@[t]).active_mm < self.mms@.len()
        &&& forall|t: int|
            0 <= t < self.tasks@.len() ==> ((#[trigger] self.tasks@[t]).mm matches Some(m) ==> m
                < self.mms@.len())
        &&& forall|t1: int, t2: int|
            0 <= t1 < self.tasks@.len() && 0 <= t2 < self.tasks@.len() && t1 != t2 ==> (
            #[trigger] self.tasks@[t1]).pid != (#[trigger] self.tasks@[t2]).pid
        &&& self.tasks@.len() >= 1
        &&& forall|c: int|
            0 <= c < self.cpu_current@.len() ==> (#[trigger] self.cpu_current@[c])
                < self.tasks@.len()
        &&& self.cpu_current@.len() >= 1
        &&& self.current_cpu < self.cpu_current@.len()
    }

    /// No context carries identifier `pid` yet.
    pub open spec fn pid_fresh(self, pid: i32) -> bool {
        forall|t: int| 0 <= t < self.tasks@.len() ==> (#[trigger] self.tasks@[t]).pid != pid
    }

    /// Boot-like minimal state: one CPU running the idle context (identifier
    /// 0, no primary address space), and the system default address space it
    /// actively uses.
    pub fn new() -> (k: Kernel)
        ensures
            k.wf(),
            k.mms@.len() == 1,
            k.mms@[0].regions@.len() == 0,
            k.mms@[0].readers == 0,
            !k.mms@[0].writer,
            !k.mms@[0].table_lock,
            k.mms@[0].consistent(),
            k.mms@[0].tables->0.leaf_maps == 0,
            k.mms@[0].tables->0.pud_arena@.len() == 0,
            k.mms@[0].tables->0.pmd_arena@.len() == 0,
            k.mms@[0].tables->0.pte_arena@.len() == 0,
            k.tasks@.len() == 1,
            k.tasks@[0].pid == 0,
            k.tasks@[0].mm is None,
            k.tasks@[0].active_mm == 0,
            k.cpu_current@.len() == 1,
            k.cpu_current@[0] == 0,
            k.current_cpu == 0,
    {
        let mut mms: Vec<MmState> = Vec::new();
        mms.push(fresh_mm());
        let mut tasks: Vec<TaskState> = Vec::new();
        tasks.push(TaskState { pid: 0, mm: None, active_mm: 0 });
        let mut cpu_current: Vec<usize> = Vec::new();
        cpu_current.push(0);
        Kernel { mms, tasks, cpu_current, current_cpu: 0 }
    }

    /// Creates a fresh, empty address space and returns its index. Nothing
    /// else in the state changes.
    pub fn add_address_space(&mut self) -> (mm: usize)
        requires
            old(self).wf(),
            old(self).mms@.len() < usize::MAX,
        ensures
            final(self).wf(),
            mm == old(self).mms@.len(),
            final(self).mms@.len() == old(self).mms@.len() + 1,
            forall|i: int| 0 <= i < old(self).mms@.len() ==> final(self).mms@[i] == old(self).mms@[i],
            final(self).mms@[mm as int].regions@.len() == 0,
            final(self).mms@[mm as int].readers == 0,
            !final(self).mms@[mm as int].writer,
            !final(self).mms@[mm as int].table_lock,
            final(self).mms@[mm as int].consistent(),
            final(self).mms@[mm as int].tables->0.leaf_maps == 0,
            final(self).mms@[mm as int].tables->0.pud_arena@.len() == 0,
            final(self).mms@[mm as int].tables->0.pmd_arena@.len() == 0,
            final(self).mms@[mm as int].tables->0.pte_arena@.len() == 0,
            final(self).tasks@ == old(self).tasks@,
            final(self).cpu_current@ == old(self).cpu_current@,
            final(self).current_cpu == old(self).current_cpu,
    {
        let mm = self.mms.len();
        self.mms.push(fresh_mm());
        mm
    }

    /// Creates a fresh execution context with identifier `pid` and the given
    /// primary address space, running on the system default space when no
    /// primary is given. Returns its index.
    pub fn add_task(&mut self, pid: i32, mm: Option<usize>) -> (t: usize)
        requires
            old(self).wf(),
            old(self).pid_fresh(pid),
            mm matches Some(m) ==> m < old(self).mms@.len(),
            old(self).tasks@.len() < usize::MAX,
        ensures
            final(self).wf(),
            t == old(self).tasks@.len(),
            final(self).tasks@.len() == old(self).tasks@.len() + 1,
            forall|i: int|
                0 <= i < old(self).tasks@.len() ==> final(self).tasks@[i] == old(self).tasks@[i],
            final(self).tasks@[t as int].pid == pid,
            final(self).tasks@[t as int].mm == mm,
            final(self).tasks@[t as int].active_mm == (match mm {
                Some(m) => m,
                None => 0,
            }),
            final(self).mms@ == old(self).mms@,
            final(self).cpu_current@ == old(self).cpu_current@,
            final(self).current_cpu == old(self).current_cpu,
    {
        let t = self.tasks.len();
        let active_mm = match mm {
            Some(m) => m,
            None => 0,
        };
        self.tasks.push(TaskState { pid, mm, active_mm });
        t
    }

    /// Appends the region `[start, end)` to address space `mm`'s list and
    /// installs a translation for each of its pages, as the kernel does when
    /// it maps a region. The caller must hold the exclusive address-space
    /// lock, the list must stay in ascending order (the region goes after
    /// the last one), and the table arenas must have room for the new pages.
    /// Every other page keeps exactly the translation it had, so a
    /// consistent space stays consistent.
    pub fn add_region(&mut self, mm: usize, start: u64, end: u64, flags: u64, pgoff: u64)
        requires
            old(self).wf(),
            mm < old(self).mms@.len(),
            old(self).mms@[mm as int].writer,
            !old(self).mms@[mm as int].table_lock,
            start % 4096 == 0,
            end % 4096 == 0,
            start < end,
            end <= VA_LIMIT,
            old(self).mms@[mm as int].regions@.len() == 0 || old(self).mms@[mm as int].regions@.last().end <= start,
            old(self).mms@[mm as int].tables->0.headroom(((end - start) / 4096) as int),
            old(self).mms@[mm as int].tables->0.leaf_maps < u64::MAX,
        ensures
            final(self).wf(),
            final(self).mms@.len() == old(self).mms@.len(),
            forall|i: int|
                0 <= i < old(self).mms@.len() && i != mm ==> final(self).mms@[i] == old(self).mms@[i],
            final(self).mms@[mm as int].regions@ == old(self).mms@[mm as int].regions@.push(
                VmArea { start, end, flags, pgoff },
            ),
            final(self).mms@[mm as int].readers == old(self).mms@[mm as int].readers,
            final(self).mms@[mm as int].writer,
            !final(self).mms@[mm as int].table_lock,
            final(self).mms@[mm as int].tables is Some,
            final(self).mms@[mm as int].tables->0.leaf_maps == old(self).mms@[mm as int].tables->0.leaf_maps,
            final(self).mms@[mm as int].tables->0.pud_arena@.len() <= old(self).mms@[mm as int].tables->0.pud_arena@.len() + 512 * ((end - start) / 4096),
            final(self).mms@[mm as int].tables->0.pmd_arena@.len() <= old(self).mms@[mm as int].tables->0.pmd_arena@.len() + 512 * ((end - start) / 4096),
            final(self).mms@[mm as int].tables->0.pte_arena@.len() <= old(self).mms@[mm as int].tables->0.pte_arena@.len() + 512 * ((end - start) / 4096),
            old(self).mms@[mm as int].consistent() ==> final(self).mms@[mm as int].consistent(),
            forall|q: u64|
                q < PAGE_LIMIT && !(start / 4096 <= q < end / 4096) ==> #[trigger] final(self).mms@[mm as int].tables->0.translate_page(q) == old(self).mms@[mm as int].tables->0.translate_page(q),
            forall|q: u64|
                start / 4096 <= q < end / 4096 ==> #[trigger] final(self).mms@[mm as int].tables->0.translate_page(q) == Some((q << 12) | TABLE_FLAGS),
            final(self).tasks@ == old(self).tasks@,
            final(self).cpu_current@ == old(self).cpu_current@,
            final(self).current_cpu == old(self).current_cpu,
    {
        let ghost k0 = *self;
        let mut m = self.mms.remove(mm);
        let mut pt = m.tables.take().unwrap();
        let ghost pt0 = pt;
        let sp = start >> 12u64;
        let ep = end >> 12u64;
        proof {
            assert(start >> 12 == start / 4096 && end >> 12 == end / 4096 && end / 4096
                <= 0x10_0000_0000 && (start % 4096 == 0 && end % 4096 == 0 && start < end
                ==> start / 4096 < end / 4096) && (end - start) / 4096 == end / 4096 - start / 4096)
                by (bit_vector)
                requires
                    start % 4096 == 0,
                    end % 4096 == 0,
                    start < end,
                    end <= 0x1_0000_0000_0000,
            ;
        }
        let mut p = sp;
        while p < ep
            invariant
                sp <= p <= ep,
                ep <= PAGE_LIMIT,
                pt.wf(),
                pt.leaf_maps == pt0.leaf_maps,
                pt.headroom((ep - p) as int),
                pt.pud_arena@.len() <= pt0.pud_arena@.len() + 512 * (p - sp),
                pt.pmd_arena@.len() <= pt0.pmd_arena@.len() + 512 * (p - sp),
                pt.pte_arena@.len() <= pt0.pte_arena@.len() + 512 * (p - sp),
                forall|q: u64|
                    q < PAGE_LIMIT && !(sp <= q < p) ==> #[trigger] pt.translate_page(q)
                        == pt0.translate_page(q),
                forall|q: u64|
                    sp <= q < p ==> #[trigger] pt.translate_page(q) == Some((q << 12) | TABLE_FLAGS),
            decreases ep - p,
        {
            proof {
                assert(((p << 12) | TABLE_FLAGS) != 0) by (bit_vector);
            }
            pt.map_page(p, (p << 12u64) | TABLE_FLAGS);
            p = p + 1;
        }
        m.tables = Some(pt);
        m.regions.push(VmArea { start, end, flags, pgoff });
        self.mms.insert(mm, m);
        proof {
            let mi = mm as int;
            let r = VmArea { start, end, flags, pgoff };
            let new_regions = k0.mms@[mi].regions@.push(r);
            assert(self.mms@ =~= k0.mms@.update(mi, self.mms@[mi]));
            assert(self.mms@[mi].regions@ == new_regions);
            // The extended list is still sorted and disjoint, and the new
            // region is well formed.
            assert(self.mms@[mi].regions_wf()) by {
                let old_regions = k0.mms@[mi].regions@;
                assert(r.wf());
                assert forall|i: int|
                    0 <= i && i + 1 < new_regions.len() implies (#[trigger] new_regions[i]).end
                    <= new_regions[i + 1].start by {
                    if i + 1 < old_regions.len() {
                        assert(new_regions[i] == old_regions[i]);
                        assert(new_regions[i + 1] == old_regions[i + 1]);
                    } else {
                        assert(new_regions[i] == old_regions[old_regions.len() - 1]);
                        assert(new_regions[i + 1] == r);
                    }
                };
            }
            assert(self.wf());
            // A consistent space stays consistent: the new pages are exactly
            // the new region's pages.
            if k0.mms@[mi].consistent() {
                let old_pt = k0.mms@[mi].tables->0;
                let new_pt = self.mms@[mi].tables->0;
                assert forall|q: u64| q < PAGE_LIMIT implies (some_region_contains_page(
                    new_regions,
                    q,
                ) <==> (#[trigger] new_pt.translate_page(q)) is Some) by {
                    let old_regions = k0.mms@[mi].regions@;
                    if start / 4096 <= q < end / 4096 {
                        assert(r.contains_page(q));
                        assert(new_regions[new_regions.len() - 1] == r);
                        assert(some_region_contains_page(new_regions, q));
                        assert(new_pt.translate_page(q) is Some);
                    } else {
                        assert(new_pt.translate_page(q) == old_pt.translate_page(q));
                        assert(some_region_contains_page(new_regions, q)
                            <==> some_region_contains_page(old_regions, q)) by {
                            if some_region_contains_page(old_regions, q) {
                                let i = choose|i: int|
                                    0 <= i < old_regions.len() && #[trigger] old_regions[i].contains_page(q);
                                assert(new_regions[i].contains_page(q));
                            }
                            if some_region_contains_page(new_regions, q) {
                                let i = choose|i: int|
                                    0 <= i < new_regions.len() && #[trigger] new_regions[i].contains_page(q);
                                assert(i < old_regions.len());
                                assert(old_regions[i].contains_page(q));
                            }
                        };
                    }
                };
                assert(self.mms@[mi].consistent());
            }
        }
    }

    /// Installs context `t` as the one CPU `cpu` is running, as a context
    /// switch would.
    pub fn set_current(&mut self, cpu: usize, t: usize)
        requires
            old(self).wf(),
            cpu < old(self).cpu_current@.len(),
            t < old(self).tasks@.len(),
        ensures
            final(self).wf(),
            final(self).cpu_current@ == old(self).cpu_current@.update(cpu as int, t),
            final(self).mms@ == old(self).mms@,
            final(self).tasks@ == old(self).tasks@,
            final(self).current_cpu == old(self).current_cpu,
    {
        self.cpu_current.set(cpu, t);
    }
}

/// A fresh, empty, unlocked per-process state.
fn fresh_mm() -> (m: MmState)
    ensures
        m.wf(),
        m.regions@.len() == 0,
        m.readers == 0,
        !m.writer,
        !m.table_lock,
        m.consistent(),
        m.tables->0.leaf_maps == 0,
        m.tables->0.pud_arena@.len() == 0,
        m.tables->0.pmd_arena@.len() == 0,
        m.tables->0.pte_arena@.len() == 0,
{
    let m = MmState {
        regions: Vec::new(),
        tables: Some(PageTables::empty()),
        readers: 0,
        writer: false,
        table_lock: false,
    };
    m
}

/// Hands out a mutable borrow of one per-process state.
pub(crate) fn mm_mut(v: &mut Vec<MmState>, i: usize) -> (m: &mut MmState)
    requires
        i < old(v).len(),
    ensures
        *m == old(v)@[i as int],
        final(v)@ == old(v)@.update(i as int, *final(m)),
{
    &mut v[i]
}

/// Hands out a mutable borrow of one region record.
pub(crate) fn region_mut(v: &mut Vec<VmArea>, i: usize) -> (r: &mut VmArea)
    requires
        i < old(v).len(),
    ensures
        *r == old(v)@[i as int],
        final(v)@ == old(v)@.update(i as int, *final(r)),
{
    &mut v[i]
}

} // verus!
